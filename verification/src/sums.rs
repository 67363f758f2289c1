use vstd::prelude::*;

verus! {

/// The amount recorded under `k`, where an absent key stands for zero.
pub open spec fn amount_of<K>(m: Map<K, int>, k: K) -> int {
    if m.contains_key(k) {
        m[k]
    } else {
        0
    }
}

/// The sum of all amounts recorded in a finite sparse table.
pub open spec fn map_sum<K>(m: Map<K, int>) -> int
    decreases m.dom().len(),
    when m.dom().finite()
{
    if m.dom().len() == 0 {
        0
    } else {
        let k = m.dom().choose();
        m[k] + map_sum(m.remove(k))
    }
}

/// The sum does not depend on the key that is taken out first.
pub proof fn lemma_sum_split<K>(m: Map<K, int>, k: K)
    requires
        m.dom().finite(),
        m.contains_key(k),
    ensures
        map_sum(m) == m[k] + map_sum(m.remove(k)),
    decreases m.dom().len(),
{
    let c = m.dom().choose();
    if c != k {
        let without_c = m.remove(c);
        let without_k = m.remove(k);
        lemma_sum_split(without_c, k);
        lemma_sum_split(without_k, c);
        assert(without_c.remove(k) =~= without_k.remove(c));
    }
}

/// Writing `v` under `k` replaces what `k` contributed to the sum.
pub proof fn lemma_sum_insert<K>(m: Map<K, int>, k: K, v: int)
    requires
        m.dom().finite(),
    ensures
        map_sum(m.insert(k, v)) == map_sum(m) - amount_of(m, k) + v,
{
    let written = m.insert(k, v);
    lemma_sum_split(written, k);
    assert(written.remove(k) =~= m.remove(k));
    if m.contains_key(k) {
        lemma_sum_split(m, k);
    } else {
        assert(m.remove(k) =~= m);
    }
}

/// Deleting `k` takes what `k` contributed out of the sum.
pub proof fn lemma_sum_remove<K>(m: Map<K, int>, k: K)
    requires
        m.dom().finite(),
    ensures
        map_sum(m.remove(k)) == map_sum(m) - amount_of(m, k),
{
    if m.contains_key(k) {
        lemma_sum_split(m, k);
    } else {
        assert(m.remove(k) =~= m);
    }
}

/// A table of amounts none of which is negative sums to no less than zero.
pub proof fn lemma_sum_nonnegative<K>(m: Map<K, int>)
    requires
        m.dom().finite(),
        forall|k: K| #[trigger] m.contains_key(k) ==> m[k] >= 0,
    ensures
        map_sum(m) >= 0,
    decreases m.dom().len(),
{
    if m.dom().len() != 0 {
        let k = m.dom().choose();
        lemma_sum_nonnegative(m.remove(k));
    }
}

/// In a table of amounts none of which is negative, what one key holds is no
/// more than the sum.
pub proof fn lemma_sum_covers<K>(m: Map<K, int>, a: K)
    requires
        m.dom().finite(),
        forall|k: K| #[trigger] m.contains_key(k) ==> m[k] >= 0,
    ensures
        amount_of(m, a) <= map_sum(m),
{
    lemma_sum_remove(m, a);
    lemma_sum_nonnegative(m.remove(a));
}

/// In a table of amounts none of which is negative, what two different keys
/// hold together is no more than the sum.
pub proof fn lemma_sum_covers_two<K>(m: Map<K, int>, a: K, b: K)
    requires
        m.dom().finite(),
        forall|k: K| #[trigger] m.contains_key(k) ==> m[k] >= 0,
        a != b,
    ensures
        amount_of(m, a) + amount_of(m, b) <= map_sum(m),
{
    lemma_sum_remove(m, a);
    lemma_sum_covers(m.remove(a), b);
}

} // verus!

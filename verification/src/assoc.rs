use vstd::prelude::*;

verus! {

/// No key occurs twice in the list.
pub open spec fn distinct_keys<K, V>(s: Seq<(K, V)>) -> bool {
    forall|i: int, j: int| 0 <= i < j < s.len() ==> (#[trigger] s[i]).0 != (#[trigger] s[j]).0
}

/// Some position of the list holds `k`.
pub open spec fn holds_key<K, V>(s: Seq<(K, V)>, k: K) -> bool {
    exists|i: int| 0 <= i < s.len() && (#[trigger] s[i]).0 == k
}

/// A position of the list that holds `k`.
pub open spec fn position_of<K, V>(s: Seq<(K, V)>, k: K) -> int {
    choose|i: int| 0 <= i < s.len() && (#[trigger] s[i]).0 == k
}

/// The sparse table that a list of keyed values stands for.
pub open spec fn as_map<K, V>(s: Seq<(K, V)>) -> Map<K, V> {
    Map::new(|k: K| holds_key(s, k), |k: K| s[position_of(s, k)].1)
}

/// Each position of a list without repeated keys is found again under its key.
pub proof fn lemma_as_map_index<K, V>(s: Seq<(K, V)>, i: int)
    requires
        distinct_keys(s),
        0 <= i < s.len(),
    ensures
        as_map(s).contains_key(s[i].0),
        as_map(s)[s[i].0] == s[i].1,
        position_of(s, s[i].0) == i,
{
    let k = s[i].0;
    assert(holds_key(s, k));
    let p = position_of(s, k);
    assert(0 <= p < s.len() && s[p].0 == k);
    if p < i {
        assert(s[p].0 != s[i].0);
    } else if i < p {
        assert(s[i].0 != s[p].0);
    }
}

/// A list stands for a table with finitely many keys.
pub proof fn lemma_as_map_finite<K, V>(s: Seq<(K, V)>)
    ensures
        as_map(s).dom().finite(),
    decreases s.len(),
{
    if s.len() == 0 {
        assert(as_map(s).dom() =~= Set::<K>::empty());
    } else {
        let front = s.drop_last();
        lemma_as_map_finite(front);
        let k = s.last().0;
        assert forall|x: K| as_map(s).dom().contains(x) <==> as_map(front).dom().insert(
            k,
        ).contains(x) by {
            if holds_key(s, x) {
                let p = position_of(s, x);
                if p < s.len() - 1 {
                    assert(front[p].0 == x);
                }
            }
            if holds_key(front, x) {
                let p = position_of(front, x);
                assert(s[p].0 == x);
            }
            if x == k {
                assert(s[s.len() - 1].0 == x);
            }
        }
        assert(as_map(s).dom() =~= as_map(front).dom().insert(k));
    }
}

/// Appending a new key writes it into the table.
pub proof fn lemma_as_map_push<K, V>(s: Seq<(K, V)>, k: K, v: V)
    requires
        distinct_keys(s),
        !holds_key(s, k),
    ensures
        distinct_keys(s.push((k, v))),
        as_map(s.push((k, v))) == as_map(s).insert(k, v),
{
    let t = s.push((k, v));
    assert forall|i: int, j: int| 0 <= i < j < t.len() implies (#[trigger] t[i]).0 != (
    #[trigger] t[j]).0 by {
        if j < s.len() {
            assert(s[i].0 != s[j].0);
        } else {
            assert(s[i].0 != k);
        }
    }
    assert forall|x: K| #[trigger] as_map(t).contains_key(x) <==> as_map(s).insert(
        k,
        v,
    ).contains_key(x) by {
        if holds_key(t, x) {
            let p = position_of(t, x);
            if p < s.len() {
                assert(s[p].0 == x);
            }
        }
        if holds_key(s, x) {
            let p = position_of(s, x);
            assert(t[p].0 == x);
        }
        if x == k {
            assert(t[s.len() as int].0 == x);
        }
    }
    assert forall|x: K| #[trigger] as_map(t).contains_key(x) implies as_map(t)[x] == as_map(
        s,
    ).insert(k, v)[x] by {
        let p = position_of(t, x);
        lemma_as_map_index(t, p);
        if p < s.len() {
            assert(s[p] == t[p]);
            lemma_as_map_index(s, p);
        }
    }
    assert(as_map(t) =~= as_map(s).insert(k, v));
}

/// Replacing the value at a position rewrites its key in the table.
pub proof fn lemma_as_map_update<K, V>(s: Seq<(K, V)>, i: int, v: V)
    requires
        distinct_keys(s),
        0 <= i < s.len(),
    ensures
        distinct_keys(s.update(i, (s[i].0, v))),
        as_map(s.update(i, (s[i].0, v))) == as_map(s).insert(s[i].0, v),
{
    let k = s[i].0;
    let t = s.update(i, (k, v));
    assert forall|a: int, b: int| 0 <= a < b < t.len() implies (#[trigger] t[a]).0 != (
    #[trigger] t[b]).0 by {
        assert(s[a].0 != s[b].0);
    }
    assert forall|x: K| #[trigger] as_map(t).contains_key(x) <==> as_map(s).insert(
        k,
        v,
    ).contains_key(x) by {
        if holds_key(t, x) {
            let p = position_of(t, x);
            assert(s[p].0 == x);
        }
        if holds_key(s, x) {
            let p = position_of(s, x);
            assert(t[p].0 == x);
        }
        if x == k {
            assert(t[i].0 == x);
        }
    }
    assert forall|x: K| #[trigger] as_map(t).contains_key(x) implies as_map(t)[x] == as_map(
        s,
    ).insert(k, v)[x] by {
        let p = position_of(t, x);
        lemma_as_map_index(t, p);
        if p != i {
            assert(s[p] == t[p]);
            lemma_as_map_index(s, p);
        }
    }
    assert(as_map(t) =~= as_map(s).insert(k, v));
}

/// Taking a position out deletes its key from the table.
pub proof fn lemma_as_map_remove<K, V>(s: Seq<(K, V)>, i: int)
    requires
        distinct_keys(s),
        0 <= i < s.len(),
    ensures
        distinct_keys(s.remove(i)),
        as_map(s.remove(i)) == as_map(s).remove(s[i].0),
{
    let k = s[i].0;
    let t = s.remove(i);
    assert forall|a: int| 0 <= a < t.len() implies #[trigger] t[a] == s[if a < i {
        a
    } else {
        a + 1
    }] by {}
    assert forall|a: int, b: int| 0 <= a < b < t.len() implies (#[trigger] t[a]).0 != (
    #[trigger] t[b]).0 by {
        let a0 = if a < i { a } else { a + 1 };
        let b0 = if b < i { b } else { b + 1 };
        assert(s[a0].0 != s[b0].0);
    }
    assert forall|x: K| #[trigger] as_map(t).contains_key(x) <==> as_map(s).remove(
        k,
    ).contains_key(x) by {
        if holds_key(t, x) {
            let p = position_of(t, x);
            let p0 = if p < i { p } else { p + 1 };
            assert(s[p0].0 == x);
            if p0 < i {
                assert(s[p0].0 != s[i].0);
            } else {
                assert(s[i].0 != s[p0].0);
            }
        }
        if holds_key(s, x) && x != k {
            let p = position_of(s, x);
            let q = if p < i { p } else { p - 1 };
            assert(t[q].0 == x);
        }
    }
    assert forall|x: K| #[trigger] as_map(t).contains_key(x) implies as_map(t)[x] == as_map(
        s,
    ).remove(k)[x] by {
        let p = position_of(t, x);
        lemma_as_map_index(t, p);
        let p0 = if p < i { p } else { p + 1 };
        assert(s[p0] == t[p]);
        lemma_as_map_index(s, p0);
    }
    assert(as_map(t) =~= as_map(s).remove(k));
}

} // verus!

use vstd::prelude::*;
use crate::address::Address;
use crate::assoc::{
    as_map,
    distinct_keys,
    holds_key,
    lemma_as_map_finite,
    lemma_as_map_index,
    lemma_as_map_push,
    lemma_as_map_remove,
    lemma_as_map_update,
    position_of,
};
use crate::sums::amount_of;

verus! {

/// One holder and what it holds.
#[derive(Debug)]
pub struct BalanceEntry {
    account: Address,
    amount: i128,
}

/// The sparse table from holder to a positive amount; an absent holder has zero.
#[derive(Debug)]
pub struct BalanceTable {
    entries: Vec<BalanceEntry>,
}

impl View for BalanceTable {
    type V = Map<Seq<char>, int>;

    closed spec fn view(&self) -> Map<Seq<char>, int> {
        as_map(self.pairs())
    }
}

impl BalanceTable {
    /// The records as a list of holders with their amounts.
    pub closed spec fn pairs(&self) -> Seq<(Seq<char>, int)> {
        self.entries@.map_values(|e: BalanceEntry| (e.account@, e.amount as int))
    }

    /// No holder is listed twice and every listed amount is positive.
    pub closed spec fn wf(&self) -> bool {
        &&& distinct_keys(self.pairs())
        &&& forall|i: int| 0 <= i < self.entries@.len() ==> (#[trigger] self.entries@[i]).amount > 0
    }

    /// A well-formed table stands for finitely many positive amounts, each within range.
    pub proof fn lemma_view_valid(&self)
        requires
            self.wf(),
        ensures
            self@.dom().finite(),
            forall|k: Seq<char>| #[trigger] self@.contains_key(k) ==> 0 < self@[k] <= i128::MAX,
    {
        lemma_as_map_finite(self.pairs());
        assert forall|k: Seq<char>| #[trigger] self@.contains_key(k) implies 0 < self@[k]
            <= i128::MAX by {
            let p = position_of(self.pairs(), k);
            assert(self.pairs()[p].1 == self.entries@[p].amount);
        }
    }

    /// The table in which nobody holds anything.
    pub fn new() -> (table: BalanceTable)
        ensures
            table.wf(),
            table@ == Map::<Seq<char>, int>::empty(),
    {
        let table = BalanceTable { entries: Vec::new() };
        assert(table@ =~= Map::<Seq<char>, int>::empty());
        table
    }

    fn find(&self, key: &Address) -> (found: Option<usize>)
        ensures
            match found {
                Some(i) => i < self.entries@.len() && self.pairs()[i as int].0 == key@,
                None => !holds_key(self.pairs(), key@),
            },
    {
        let mut i: usize = 0;
        while i < self.entries.len()
            invariant
                0 <= i <= self.entries@.len(),
                forall|j: int| 0 <= j < i ==> (#[trigger] self.pairs()[j]).0 != key@,
            decreases self.entries@.len() - i,
        {
            if self.entries[i].account.same_as(key) {
                return Some(i);
            }
            i += 1;
        }
        None
    }

    /// What `key` holds.
    pub fn get(&self, key: &Address) -> (amount: i128)
        requires
            self.wf(),
        ensures
            amount == amount_of(self@, key@),
    {
        match self.find(key) {
            Some(i) => {
                proof {
                    lemma_as_map_index(self.pairs(), i as int);
                }
                self.entries[i].amount
            },
            None => 0,
        }
    }

    /// Records that `key` holds `amount`, replacing what was recorded before.
    pub fn set(&mut self, key: &Address, amount: i128)
        requires
            old(self).wf(),
            amount > 0,
        ensures
            final(self).wf(),
            final(self)@ == old(self)@.insert(key@, amount as int),
    {
        let entry = BalanceEntry { account: key.clone(), amount };
        match self.find(key) {
            Some(i) => {
                proof {
                    lemma_as_map_update(self.pairs(), i as int, amount as int);
                }
                self.entries.set(i, entry);
                assert(self.pairs() =~= old(self).pairs().update(
                    i as int,
                    (key@, amount as int),
                ));
            },
            None => {
                proof {
                    lemma_as_map_push(self.pairs(), key@, amount as int);
                }
                self.entries.push(entry);
                assert(self.pairs() =~= old(self).pairs().push((key@, amount as int)));
            },
        }
    }

    /// Deletes the record of `key`, so that it holds zero.
    pub fn remove(&mut self, key: &Address)
        requires
            old(self).wf(),
        ensures
            final(self).wf(),
            final(self)@ == old(self)@.remove(key@),
    {
        match self.find(key) {
            Some(i) => {
                proof {
                    lemma_as_map_remove(self.pairs(), i as int);
                }
                self.entries.remove(i);
                assert(self.pairs() =~= old(self).pairs().remove(i as int));
            },
            None => {
                assert(self@.remove(key@) =~= self@);
            },
        }
    }
}

} // verus!

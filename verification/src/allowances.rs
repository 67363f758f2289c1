use vstd::prelude::*;
use crate::address::Address;
use crate::assoc::{
    as_map,
    distinct_keys,
    holds_key,
    lemma_as_map_finite,
    lemma_as_map_index,
    lemma_as_map_push,
    lemma_as_map_remove,
    lemma_as_map_update,
    position_of,
};
use crate::sums::amount_of;

verus! {

/// One grant: what `spender` may still move out of what `owner` holds.
#[derive(Debug)]
pub struct AllowanceEntry {
    owner: Address,
    spender: Address,
    amount: i128,
}

/// The sparse table from (owner, spender) to a positive amount; an absent pair grants zero.
#[derive(Debug)]
pub struct AllowanceTable {
    entries: Vec<AllowanceEntry>,
}

impl View for AllowanceTable {
    type V = Map<(Seq<char>, Seq<char>), int>;

    closed spec fn view(&self) -> Map<(Seq<char>, Seq<char>), int> {
        as_map(self.pairs())
    }
}

impl AllowanceTable {
    /// The records as a list of pairs with their amounts.
    pub closed spec fn pairs(&self) -> Seq<((Seq<char>, Seq<char>), int)> {
        self.entries@.map_values(|e: AllowanceEntry| ((e.owner@, e.spender@), e.amount as int))
    }

    /// No pair is listed twice and every listed amount is positive.
    pub closed spec fn wf(&self) -> bool {
        &&& distinct_keys(self.pairs())
        &&& forall|i: int| 0 <= i < self.entries@.len() ==> (#[trigger] self.entries@[i]).amount > 0
    }

    /// A well-formed table stands for finitely many positive amounts, each within range.
    pub proof fn lemma_view_valid(&self)
        requires
            self.wf(),
        ensures
            self@.dom().finite(),
            forall|k: (Seq<char>, Seq<char>)| #[trigger] self@.contains_key(k) ==> 0 < self@[k] <= i128::MAX,
    {
        lemma_as_map_finite(self.pairs());
        assert forall|k: (Seq<char>, Seq<char>)| #[trigger] self@.contains_key(k) implies 0 < self@[k]
            <= i128::MAX by {
            let p = position_of(self.pairs(), k);
            assert(self.pairs()[p].1 == self.entries@[p].amount);
        }
    }

    /// The table in which nobody has granted anything.
    pub fn new() -> (table: AllowanceTable)
        ensures
            table.wf(),
            table@ == Map::<(Seq<char>, Seq<char>), int>::empty(),
    {
        let table = AllowanceTable { entries: Vec::new() };
        assert(table@ =~= Map::<(Seq<char>, Seq<char>), int>::empty());
        table
    }

    fn find(&self, owner: &Address, spender: &Address) -> (found: Option<usize>)
        ensures
            match found {
                Some(i) => i < self.entries@.len() && self.pairs()[i as int].0 == (owner@, spender@),
                None => !holds_key(self.pairs(), (owner@, spender@)),
            },
    {
        let mut i: usize = 0;
        while i < self.entries.len()
            invariant
                0 <= i <= self.entries@.len(),
                forall|j: int| 0 <= j < i ==> (#[trigger] self.pairs()[j]).0 != (owner@, spender@),
            decreases self.entries@.len() - i,
        {
            if self.entries[i].owner.same_as(owner) && self.entries[i].spender.same_as(spender) {
                return Some(i);
            }
            i += 1;
        }
        None
    }

    /// What `spender` may still move out of what `owner` holds.
    pub fn get(&self, owner: &Address, spender: &Address) -> (amount: i128)
        requires
            self.wf(),
        ensures
            amount == amount_of(self@, (owner@, spender@)),
    {
        match self.find(owner, spender) {
            Some(i) => {
                proof {
                    lemma_as_map_index(self.pairs(), i as int);
                }
                self.entries[i].amount
            },
            None => 0,
        }
    }

    /// Records that `owner` grants `spender` the `amount`, replacing what was granted before.
    pub fn set(&mut self, owner: &Address, spender: &Address, amount: i128)
        requires
            old(self).wf(),
            amount > 0,
        ensures
            final(self).wf(),
            final(self)@ == old(self)@.insert((owner@, spender@), amount as int),
    {
        let entry = AllowanceEntry { owner: owner.clone(), spender: spender.clone(), amount };
        match self.find(owner, spender) {
            Some(i) => {
                proof {
                    lemma_as_map_update(self.pairs(), i as int, amount as int);
                }
                self.entries.set(i, entry);
                assert(self.pairs() =~= old(self).pairs().update(
                    i as int,
                    ((owner@, spender@), amount as int),
                ));
            },
            None => {
                proof {
                    lemma_as_map_push(self.pairs(), (owner@, spender@), amount as int);
                }
                self.entries.push(entry);
                assert(self.pairs() =~= old(self).pairs().push(((owner@, spender@), amount as int)));
            },
        }
    }

    /// Deletes the grant of `owner` to `spender`, so that it is zero.
    pub fn remove(&mut self, owner: &Address, spender: &Address)
        requires
            old(self).wf(),
        ensures
            final(self).wf(),
            final(self)@ == old(self)@.remove((owner@, spender@)),
    {
        match self.find(owner, spender) {
            Some(i) => {
                proof {
                    lemma_as_map_remove(self.pairs(), i as int);
                }
                self.entries.remove(i);
                assert(self.pairs() =~= old(self).pairs().remove(i as int));
            },
            None => {
                assert(self@.remove((owner@, spender@)) =~= self@);
            },
        }
    }
}

} // verus!

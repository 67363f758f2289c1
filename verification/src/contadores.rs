use vstd::prelude::*;
use crate::address::Address;
use crate::assoc::{
    as_map,
    distinct_keys,
    holds_key,
    lemma_as_map_index,
    lemma_as_map_push,
    lemma_as_map_update,
};

verus! {

/// One user and how often it was greeted.
#[derive(Debug)]
pub struct CounterEntry {
    usuario: Address,
    veces: u32,
}

/// The sparse table from user to the number of its greetings.
#[derive(Debug)]
pub struct CounterTable {
    entries: Vec<CounterEntry>,
}

impl View for CounterTable {
    type V = Map<Seq<char>, u32>;

    closed spec fn view(&self) -> Map<Seq<char>, u32> {
        as_map(self.pairs())
    }
}

impl CounterTable {
    /// The records as a list of users with their counts.
    pub closed spec fn pairs(&self) -> Seq<(Seq<char>, u32)> {
        self.entries@.map_values(|e: CounterEntry| (e.usuario@, e.veces))
    }

    /// No user is listed twice.
    pub closed spec fn wf(&self) -> bool {
        distinct_keys(self.pairs())
    }

    /// The table in which nobody was greeted.
    pub fn new() -> (table: CounterTable)
        ensures
            table.wf(),
            table@ == Map::<Seq<char>, u32>::empty(),
    {
        let table = CounterTable { entries: Vec::new() };
        assert(table@ =~= Map::<Seq<char>, u32>::empty());
        table
    }

    fn find(&self, key: &Address) -> (found: Option<usize>)
        ensures
            match found {
                Some(i) => i < self.entries@.len() && self.pairs()[i as int].0 == key@,
                None => !holds_key(self.pairs(), key@),
            },
    {
        let mut i: usize = 0;
        while i < self.entries.len()
            invariant
                0 <= i <= self.entries@.len(),
                forall|j: int| 0 <= j < i ==> (#[trigger] self.pairs()[j]).0 != key@,
            decreases self.entries@.len() - i,
        {
            if self.entries[i].usuario.same_as(key) {
                return Some(i);
            }
            i += 1;
        }
        None
    }

    /// How often `key` was greeted, where that is recorded.
    pub fn get(&self, key: &Address) -> (veces: Option<u32>)
        requires
            self.wf(),
        ensures
            veces == (if self@.contains_key(key@) {
                Some(self@[key@])
            } else {
                None
            }),
    {
        match self.find(key) {
            Some(i) => {
                proof {
                    lemma_as_map_index(self.pairs(), i as int);
                }
                Some(self.entries[i].veces)
            },
            None => None,
        }
    }

    /// Records that `key` was greeted `veces` times, replacing what was recorded before.
    pub fn set(&mut self, key: &Address, veces: u32)
        requires
            old(self).wf(),
        ensures
            final(self).wf(),
            final(self)@ == old(self)@.insert(key@, veces),
    {
        let entry = CounterEntry { usuario: key.clone(), veces };
        match self.find(key) {
            Some(i) => {
                proof {
                    lemma_as_map_update(self.pairs(), i as int, veces);
                }
                self.entries.set(i, entry);
                assert(self.pairs() =~= old(self).pairs().update(
                    i as int,
                    (key@, veces),
                ));
            },
            None => {
                proof {
                    lemma_as_map_push(self.pairs(), key@, veces);
                }
                self.entries.push(entry);
                assert(self.pairs() =~= old(self).pairs().push((key@, veces)));
            },
        }
    }
}

} // verus!

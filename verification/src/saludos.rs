use vstd::prelude::*;
use crate::address::Address;
use crate::assoc::{
    as_map,
    distinct_keys,
    holds_key,
    lemma_as_map_index,
    lemma_as_map_push,
    lemma_as_map_update,
};

verus! {

/// One user and the name it was last greeted by.
#[derive(Debug)]
pub struct GreetingEntry {
    usuario: Address,
    nombre: String,
}

/// The sparse table from user to the name of its last greeting.
#[derive(Debug)]
pub struct GreetingTable {
    entries: Vec<GreetingEntry>,
}

impl View for GreetingTable {
    type V = Map<Seq<char>, Seq<char>>;

    closed spec fn view(&self) -> Map<Seq<char>, Seq<char>> {
        as_map(self.pairs())
    }
}

impl GreetingTable {
    /// The records as a list of users with their names.
    pub closed spec fn pairs(&self) -> Seq<(Seq<char>, Seq<char>)> {
        self.entries@.map_values(|e: GreetingEntry| (e.usuario@, e.nombre@))
    }

    /// No user is listed twice.
    pub closed spec fn wf(&self) -> bool {
        distinct_keys(self.pairs())
    }

    /// The table in which nobody was greeted.
    pub fn new() -> (table: GreetingTable)
        ensures
            table.wf(),
            table@ == Map::<Seq<char>, Seq<char>>::empty(),
    {
        let table = GreetingTable { entries: Vec::new() };
        assert(table@ =~= Map::<Seq<char>, Seq<char>>::empty());
        table
    }

    fn find(&self, key: &Address) -> (found: Option<usize>)
        ensures
            match found {
                Some(i) => i < self.entries@.len() && self.pairs()[i as int].0 == key@,
                None => !holds_key(self.pairs(), key@),
            },
    {
        let mut i: usize = 0;
        while i < self.entries.len()
            invariant
                0 <= i <= self.entries@.len(),
                forall|j: int| 0 <= j < i ==> (#[trigger] self.pairs()[j]).0 != key@,
            decreases self.entries@.len() - i,
        {
            if self.entries[i].usuario.same_as(key) {
                return Some(i);
            }
            i += 1;
        }
        None
    }

    /// The name that `key` was last greeted by, where one is recorded.
    pub fn get(&self, key: &Address) -> (nombre: Option<String>)
        requires
            self.wf(),
        ensures
            nombre is Some == self@.contains_key(key@),
            nombre is Some ==> nombre->Some_0@ == self@[key@],
    {
        match self.find(key) {
            Some(i) => {
                proof {
                    lemma_as_map_index(self.pairs(), i as int);
                }
                Some(self.entries[i].nombre.clone())
            },
            None => None,
        }
    }

    /// Records that `key` was last greeted by `nombre`, replacing what was recorded before.
    pub fn set(&mut self, key: &Address, nombre: String)
        requires
            old(self).wf(),
        ensures
            final(self).wf(),
            final(self)@ == old(self)@.insert(key@, nombre@),
    {
        let entry = GreetingEntry { usuario: key.clone(), nombre };
        match self.find(key) {
            Some(i) => {
                proof {
                    lemma_as_map_update(self.pairs(), i as int, nombre@);
                }
                self.entries.set(i, entry);
                assert(self.pairs() =~= old(self).pairs().update(
                    i as int,
                    (key@, nombre@),
                ));
            },
            None => {
                proof {
                    lemma_as_map_push(self.pairs(), key@, nombre@);
                }
                self.entries.push(entry);
                assert(self.pairs() =~= old(self).pairs().push((key@, nombre@)));
            },
        }
    }
}

} // verus!

use vstd::prelude::*;
use crate::address::Address;

verus! {

/// The principals on whose behalf the current invocation may act.
///
/// Who authorized a call is established outside the ledger; the ledger only asks
/// whether a given principal is among them.
#[derive(Debug)]
pub struct Authorization {
    everyone: bool,
    signers: Vec<Address>,
}

impl View for Authorization {
    type V = Set<Seq<char>>;

    closed spec fn view(&self) -> Set<Seq<char>> {
        if self.everyone {
            Set::full()
        } else {
            Set::new(
                |a: Seq<char>|
                    exists|i: int| 0 <= i < self.signers@.len() && (#[trigger] self.signers@[i])@ == a,
            )
        }
    }
}

impl Authorization {
    /// An invocation that nobody authorized.
    pub fn none() -> (auth: Authorization)
        ensures
            auth@ == Set::<Seq<char>>::empty(),
    {
        let auth = Authorization { everyone: false, signers: Vec::new() };
        assert(auth@ =~= Set::<Seq<char>>::empty());
        auth
    }

    /// An invocation that every principal authorized.
    pub fn all() -> (auth: Authorization)
        ensures
            auth@ == Set::<Seq<char>>::full(),
    {
        Authorization { everyone: true, signers: Vec::new() }
    }

    /// An invocation that `who` alone authorized.
    pub fn of(who: &Address) -> (auth: Authorization)
        ensures
            auth@ == Set::<Seq<char>>::empty().insert(who@),
    {
        let mut signers: Vec<Address> = Vec::new();
        signers.push(who.clone());
        let auth = Authorization { everyone: false, signers };
        assert(auth.signers@[0]@ == who@);
        assert(auth@ =~= Set::<Seq<char>>::empty().insert(who@));
        auth
    }

    /// Adds `who` to the principals that authorized the invocation.
    pub fn and(self, who: &Address) -> (auth: Authorization)
        ensures
            auth@ == self@.insert(who@),
    {
        let mut signers = self.signers;
        let ghost before = signers@;
        signers.push(who.clone());
        let auth = Authorization { everyone: self.everyone, signers };
        proof {
            assert(auth.signers@[before.len() as int]@ == who@);
            assert forall|a: Seq<char>| auth@.contains(a) <==> self@.insert(who@).contains(a) by {
                if !self.everyone {
                    if self@.contains(a) {
                        let i = choose|i: int|
                            0 <= i < before.len() && (#[trigger] before[i])@ == a;
                        assert(auth.signers@[i]@ == a);
                    }
                    if auth@.contains(a) {
                        let i = choose|i: int|
                            0 <= i < auth.signers@.len() && (#[trigger] auth.signers@[i])@ == a;
                        if i < before.len() {
                            assert(before[i]@ == a);
                        }
                    }
                }
            }
            assert(auth@ =~= self@.insert(who@));
        }
        auth
    }

    /// Whether `who` authorized the invocation.
    pub fn permits(&self, who: &Address) -> (b: bool)
        ensures
            b == self@.contains(who@),
    {
        if self.everyone {
            return true;
        }
        let mut i: usize = 0;
        while i < self.signers.len()
            invariant
                !self.everyone,
                0 <= i <= self.signers@.len(),
                forall|j: int| 0 <= j < i ==> (#[trigger] self.signers@[j])@ != who@,
            decreases self.signers@.len() - i,
        {
            if self.signers[i].same_as(who) {
                return true;
            }
            i += 1;
        }
        false
    }
}

} // verus!

use vstd::prelude::*;

verus! {

/// The identity of an account or a contract, held by its textual key.
///
/// Two addresses are the same principal exactly when their keys are the same text.
#[derive(Debug, PartialEq, Eq, Hash)]
pub struct Address {
    text: String,
}

impl View for Address {
    type V = Seq<char>;

    closed spec fn view(&self) -> Seq<char> {
        self.text@
    }
}

impl Address {
    /// The address with the given textual key.
    pub fn from_str(key: &str) -> (a: Address)
        ensures
            a@ == key@,
    {
        Address { text: key.to_owned() }
    }

    /// The textual key of this address.
    pub fn to_string(&self) -> (key: String)
        ensures
            key@ == self@,
    {
        self.text.clone()
    }

    /// Whether both addresses name the same principal.
    pub fn same_as(&self, other: &Address) -> (b: bool)
        ensures
            b == (self@ == other@),
    {
        self.text == other.text
    }
}

impl Clone for Address {
    fn clone(&self) -> (a: Address)
        ensures
            a@ == self@,
    {
        Address { text: self.text.clone() }
    }
}

} // verus!

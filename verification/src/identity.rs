//! Identities: the principals that own, operate and are paid by a ledger.

use vstd::prelude::*;

verus! {

/// An opaque reference to a principal, such as an account or a contract.
///
/// The ledger never looks inside an identity: it stores identities and
/// compares them. Two identities are the same principal exactly when their
/// texts are equal, which is what the view exposes.
#[derive(Debug)]
pub struct Identity {
    text: String,
}

impl View for Identity {
    type V = Seq<char>;

    closed spec fn view(&self) -> Seq<char> {
        self.text@
    }
}

impl Identity {
    /// Makes the identity written as `text`.
    pub fn new(text: String) -> (id: Identity)
        ensures
            id@ == text@,
    {
        Identity { text }
    }

    /// Makes the identity written as `text`.
    pub fn from_str(text: &str) -> (id: Identity)
        ensures
            id@ == text@,
    {
        Identity { text: text.to_owned() }
    }

    /// The text of this identity.
    pub fn as_str(&self) -> (text: &str)
        ensures
            text@ == self@,
    {
        self.text.as_str()
    }

}

impl Clone for Identity {
    fn clone(&self) -> (copy: Identity)
        ensures
            copy@ == self@,
    {
        Identity { text: self.text.clone() }
    }
}

impl PartialEq for Identity {
    fn eq(&self, other: &Identity) -> (same: bool) {
        self.text == other.text
    }
}

impl Eq for Identity {}

impl vstd::std_specs::cmp::PartialEqSpecImpl for Identity {
    open spec fn obeys_eq_spec() -> bool {
        true
    }

    open spec fn eq_spec(&self, other: &Identity) -> bool {
        self@ == other@
    }
}

/// What a list of identities says, one by one.
pub open spec fn identity_views(identities: Seq<Identity>) -> Seq<Seq<char>> {
    identities.map_values(|identity: Identity| identity@)
}

} // verus!

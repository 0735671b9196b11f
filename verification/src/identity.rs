//! Opaque caller identities.
//!
//! An [`Identity`] is the authenticated token the hosting environment
//! supplies with every call. The store never fabricates one; it only
//! compares them for equality and uses them as keys. The token is carried
//! as its raw bytes, and its view is that byte sequence.

use vstd::prelude::*;

verus! {

/// An opaque, authenticated caller token, compared by equality only.
#[derive(Debug)]
pub struct Identity {
    bytes: Vec<u8>,
}

impl View for Identity {
    type V = Seq<u8>;

    closed spec fn view(&self) -> Seq<u8> {
        self.bytes@
    }
}

impl Identity {
    /// Wraps the raw bytes of an environment-supplied identity token.
    pub fn from_bytes(bytes: Vec<u8>) -> (r: Identity)
        ensures
            r@ == bytes@,
    {
        Identity { bytes }
    }

    /// The raw bytes of the token.
    pub fn as_bytes(&self) -> (r: &Vec<u8>)
        ensures
            r@ == self@,
    {
        &self.bytes
    }
}

impl Clone for Identity {
    fn clone(&self) -> (r: Self)
        ensures
            r@ == self@,
    {
        let bytes = self.bytes.clone();
        proof {
            assert(bytes@ =~= self.bytes@);
        }
        Identity { bytes }
    }
}

impl PartialEq for Identity {
    fn eq(&self, other: &Self) -> (r: bool) {
        let r = self.bytes == other.bytes;
        proof {
            if r {
                assert(self.bytes@ =~= other.bytes@);
            }
            if self.bytes@ == other.bytes@ {
                assert(self.bytes.len() == other.bytes.len());
                assert(forall|i: int|
                    0 <= i < self.bytes@.len() ==> self.bytes@[i] == other.bytes@[i]);
            }
        }
        r
    }
}

impl vstd::std_specs::cmp::PartialEqSpecImpl for Identity {
    open spec fn obeys_eq_spec() -> bool {
        true
    }

    open spec fn eq_spec(&self, other: &Identity) -> bool {
        self@ == other@
    }
}

} // verus!

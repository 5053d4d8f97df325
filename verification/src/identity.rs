//! Identities: fixed-width opaque byte identifiers.

use vstd::prelude::*;
use vstd::std_specs::cmp::PartialEqSpecImpl;

verus! {

/// Width of an identity in bytes.
pub const IDENTITY_BYTES: usize = 32;

/// A 32-byte identifier of a key holder, a component or a record.
///
/// Its view is the sequence of its bytes; two identities are the same
/// exactly when their views are equal.
#[derive(Clone, Copy, Debug)]
pub struct Identity {
    pub bytes: [u8; IDENTITY_BYTES],
}

impl View for Identity {
    type V = Seq<u8>;

    open spec fn view(&self) -> Seq<u8> {
        self.bytes@
    }
}

/// An identity as a request presents it: the key, and whether the host
/// verified a signature made with that key over the request.
#[derive(Clone, Copy, Debug)]
pub struct Signer {
    pub key: Identity,
    pub signed: bool,
}

/// The bytes of the sentinel identity, which ends a chain of records.
pub open spec fn zero_bytes() -> Seq<u8> {
    Seq::new(32, |i: int| 0u8)
}

impl Identity {
    /// The identity with the given bytes.
    pub fn new(bytes: [u8; 32]) -> (id: Identity)
        ensures
            id@ == bytes@,
    {
        Identity { bytes }
    }

    /// The sentinel identity: all bytes zero.
    pub fn zero() -> (id: Identity)
        ensures
            id@ == zero_bytes(),
    {
        let id = Identity { bytes: [0u8; 32] };
        assert(id@ =~= zero_bytes());
        id
    }

    /// The bytes of this identity.
    pub fn to_bytes(&self) -> (bytes: [u8; 32])
        ensures
            bytes@ == self@,
    {
        self.bytes
    }

    /// The bytes of this identity, as a seed for a derivation.
    pub fn to_vec(&self) -> (seed: Vec<u8>)
        ensures
            seed@ == self@,
    {
        let mut seed: Vec<u8> = Vec::new();
        let mut i: usize = 0;
        while i < 32
            invariant
                i <= 32,
                seed@ == self@.subrange(0, i as int),
            decreases 32 - i,
        {
            seed.push(self.bytes[i]);
            i += 1;
            assert(seed@ =~= self@.subrange(0, i as int));
        }
        assert(seed@ =~= self@);
        seed
    }

    /// Whether two identities have the same bytes.
    pub fn same(&self, other: &Identity) -> (b: bool)
        ensures
            b == (self@ == other@),
    {
        let mut i: usize = 0;
        while i < 32
            invariant
                i <= 32,
                forall|k: int| 0 <= k < i ==> self@[k] == other@[k],
            decreases 32 - i,
        {
            if self.bytes[i] != other.bytes[i] {
                return false;
            }
            i += 1;
        }
        assert(self@ =~= other@);
        true
    }

    /// Whether this is the sentinel identity.
    pub fn is_zero(&self) -> (b: bool)
        ensures
            b == (self@ == zero_bytes()),
    {
        let zero = Identity::zero();
        self.same(&zero)
    }
}

impl PartialEq for Identity {
    fn eq(&self, other: &Identity) -> (b: bool) {
        self.same(other)
    }
}

impl PartialEqSpecImpl for Identity {
    open spec fn obeys_eq_spec() -> bool {
        true
    }

    open spec fn eq_spec(&self, other: &Identity) -> bool {
        self@ == other@
    }
}

impl Eq for Identity {}

} // verus!

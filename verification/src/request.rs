//! What a component's handlers share: the request context, and the checks
//! that bind an address to its seeds and a signer to its key.

use vstd::prelude::*;
use crate::deriver::{derive_spec, on_curve, off_key_space, views};
use crate::error::Error;
use crate::identity::{Identity, Signer};

verus! {

/// Bytes that every record spends on the tag of its kind.
pub const DISCRIMINATOR_BYTES: usize = 8;

/// Bytes that a number of 64 bits takes in a record.
pub const NUMBER_BYTES: usize = 8;

/// A request as a handler sees it: the component that was called, and the
/// identities that the request names.
pub struct Context<A> {
    /// The address of the component that handles the request.
    pub program_id: Identity,
    /// The identities that the request names.
    pub accounts: A,
}

/// Whether a signer proved control of its key by signature: the host
/// verified one, and the key lies inside key space.
pub open spec fn has_signed(signer: Signer) -> bool {
    signer.signed && on_curve(signer.key@)
}

/// What binding `address` to a label and seeds under a component comes to.
pub open spec fn bound_spec(
    component: Seq<u8>,
    label: Seq<u8>,
    seeds: Seq<Seq<u8>>,
    address: Seq<u8>,
) -> Result<u8, Error> {
    match derive_spec(component, label, seeds) {
        None => Err(Error::DerivationExhausted),
        Some((derived, bump)) => if derived == address {
            Ok(bump)
        } else {
            Err(Error::Unauthorized)
        },
    }
}

/// Checks that a signer proved control of its key by signature.
pub fn require_signature(signer: &Signer) -> (r: Result<(), Error>)
    ensures
        r == if has_signed(*signer) {
            Ok::<(), Error>(())
        } else {
            Err::<(), Error>(Error::Unauthorized)
        },
{
    if signer.signed && !off_key_space(&signer.key) {
        Ok(())
    } else {
        Err(Error::Unauthorized)
    }
}

/// Checks that `address` is the one that the label and seeds derive under
/// `component`, and hands back the bump of the derivation.
///
/// Fails with `DerivationExhausted` when nothing derives, and with
/// `Unauthorized` when another address does.
pub fn require_bound(component: &Identity, label: &[u8], seeds: &Vec<Vec<u8>>, address: &Identity)
    -> (r: Result<u8, Error>)
    ensures
        r == bound_spec(component@, label@, views(seeds@), address@),
{
    match crate::deriver::derive(component, label, seeds) {
        Ok((derived, bump)) => {
            if derived.same(address) {
                Ok(bump)
            } else {
                Err(Error::Unauthorized)
            }
        },
        Err(e) => Err(e),
    }
}

/// A list of seeds that holds one identity.
pub fn identity_seed(id: &Identity) -> (seeds: Vec<Vec<u8>>)
    ensures
        views(seeds@) == seq![id@],
{
    let mut seeds: Vec<Vec<u8>> = Vec::new();
    seeds.push(id.to_vec());
    assert(views(seeds@) =~= seq![id@]);
    seeds
}

} // verus!

//! The puppet master: sets a puppet's data on behalf of an identity that it
//! derives from the label `master` and the key of whoever asks.
//!
//! The master holds no private key for that identity. It proves control by
//! the seeds and the bump, and the puppet recomputes the identity itself.

use vstd::prelude::*;
use crate::deriver::derive_spec;
use crate::error::Error;
use crate::guard::{DelegationView, ProofView};
use crate::identity::{Identity, Signer};
use crate::invoke::{delegate_invoke, invoke_spec, Capability};
use crate::puppet::{data_set, Data, SetValue};
use crate::request::{has_signed, identity_seed, require_signature, Context};
use crate::store::Store;

verus! {

/// The identities of a request to pull a puppet's strings.
pub struct PullStrings {
    /// The address of the puppet's record.
    pub puppet_account: Identity,
    /// The component that owns the puppet.
    pub puppet_program: Identity,
    /// The identity that the master derives for the asker.
    pub master_pda: Identity,
    /// Who asks.
    pub authority: Signer,
}

/// The label of the master's derived identities: the bytes of `master`.
pub open spec fn master_label() -> Seq<u8> {
    seq![109u8, 97u8, 115u8, 116u8, 101u8, 114u8]
}

/// The label of the master's derived identities.
pub fn master_label_bytes() -> (label: Vec<u8>)
    ensures
        label@ == master_label(),
{
    let label: Vec<u8> = vec![109u8, 97u8, 115u8, 116u8, 101u8, 114u8];
    assert(label@ =~= master_label());
    label
}

/// What a request to pull a puppet's strings comes to, before anything is
/// changed.
///
/// The asker must have signed. The identity that the request names must be
/// the one that the master derives for the asker, and the bump must be the
/// one of that derivation. What the puppet then decides is passed on.
pub open spec fn pull_strings_spec(
    store: Store<Data>,
    ctx: Context<PullStrings>,
    bump: u8,
    data: u64,
) -> Result<(), Error> {
    if !has_signed(ctx.accounts.authority) {
        Err(Error::Unauthorized)
    } else {
        match derive_spec(ctx.program_id@, master_label(), seq![ctx.accounts.authority.key@]) {
            None => Err(Error::DerivationExhausted),
            Some((identity, found)) => if identity != ctx.accounts.master_pda@ {
                Err(Error::Unauthorized)
            } else if bump != found {
                Err(Error::UnauthorizedDelegation)
            } else {
                match invoke_spec(
                    store,
                    ctx.accounts.puppet_program@,
                    ctx.accounts.puppet_account@,
                    &SetValue { data: data },
                    DelegationView {
                        caller: ctx.program_id@,
                        proof: ProofView {
                            label: master_label(),
                            seeds: seq![ctx.accounts.authority.key@],
                            bump: bump,
                            claimed_identity: identity,
                        },
                    },
                ) {
                    Ok(_) => Ok(()),
                    Err(e) => Err(e),
                }
            },
        }
    }
}

/// Sets the data of a puppet on behalf of the identity derived for the asker.
///
/// Fails with `Unauthorized` when the asker did not sign or names another
/// identity than its own derived one, with `DerivationExhausted` when
/// nothing derives, with `UnauthorizedDelegation` when the bump is not the
/// one of the derivation or the puppet's authority is another identity, and
/// with `TargetUnavailable` when the puppet's component has no record at
/// the address. On failure the store is unchanged.
pub fn pull_strings(store: &mut Store<Data>, ctx: &Context<PullStrings>, bump: u8, data: u64) -> (r:
    Result<(), Error>)
    requires
        old(store).wf(),
    ensures
        final(store).wf(),
        r == pull_strings_spec(*old(store), *ctx, bump, data),
        r is Ok ==> data_set(*old(store), *final(store), ctx.accounts.puppet_account@, data),
        r is Err ==> *final(store) == *old(store),
{
    match require_signature(&ctx.accounts.authority) {
        Ok(()) => {},
        Err(e) => {
            return Err(e);
        },
    }
    let seeds = identity_seed(&ctx.accounts.authority.key);
    let capability = match Capability::establish(
        &ctx.program_id,
        master_label_bytes().as_slice(),
        &seeds,
    ) {
        Ok(c) => c,
        Err(e) => {
            return Err(e);
        },
    };
    if !capability.identity.same(&ctx.accounts.master_pda) {
        return Err(Error::Unauthorized);
    }
    match delegate_invoke(
        store,
        &capability,
        bump,
        &ctx.accounts.puppet_program,
        &ctx.accounts.puppet_account,
        &SetValue { data: data },
    ) {
        Ok(_) => Ok(()),
        Err(e) => Err(e),
    }
}

} // verus!

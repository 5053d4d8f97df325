//! The puppet master without a derived identity: it hands the signature of
//! whoever asks on to the puppet, so the asker itself must be the puppet's
//! authority.

use vstd::prelude::*;
use crate::error::Error;
use crate::identity::{Identity, Signer};
use crate::puppet::{data_set, set_data, set_data_spec, Data, SetData};
use crate::request::Context;
use crate::store::Store;

verus! {

/// The identities of a request to pull a puppet's strings.
pub struct PullStrings {
    /// The address of the puppet's record.
    pub puppet_account: Identity,
    /// The component that owns the puppet.
    pub puppet_program: Identity,
    /// Who asks, and controls the puppet.
    pub authority: Signer,
}

/// The request that the master makes of the puppet.
pub open spec fn forwarded(ctx: Context<PullStrings>) -> Context<SetData> {
    Context {
        program_id: ctx.accounts.puppet_program,
        accounts: SetData {
            puppet_account: ctx.accounts.puppet_account,
            authority: ctx.accounts.authority,
        },
    }
}

/// What a request to pull a puppet's strings comes to: what the puppet
/// decides, with an absent puppet reported as an unavailable target.
pub open spec fn pull_strings_spec(store: Store<Data>, ctx: Context<PullStrings>) -> Result<
    (),
    Error,
> {
    match set_data_spec(store, forwarded(ctx), None) {
        Ok(()) => Ok(()),
        Err(Error::NotFound) => Err(Error::TargetUnavailable),
        Err(e) => Err(e),
    }
}

/// Sets the data of a puppet whose authority is the asker.
///
/// Fails with `TargetUnavailable` when the puppet's component has no record
/// at the address, and with `Unauthorized` when the asker did not sign or
/// is not the puppet's authority. On failure the store is unchanged.
pub fn pull_strings(store: &mut Store<Data>, ctx: &Context<PullStrings>, data: u64) -> (r: Result<
    (),
    Error,
>)
    requires
        old(store).wf(),
    ensures
        final(store).wf(),
        r == pull_strings_spec(*old(store), *ctx),
        r is Ok ==> data_set(*old(store), *final(store), ctx.accounts.puppet_account@, data),
        r is Err ==> *final(store) == *old(store),
{
    let request = Context {
        program_id: ctx.accounts.puppet_program,
        accounts: SetData {
            puppet_account: ctx.accounts.puppet_account,
            authority: ctx.accounts.authority,
        },
    };
    match set_data(store, &request, None, data) {
        Ok(()) => Ok(()),
        Err(Error::NotFound) => Err(Error::TargetUnavailable),
        Err(e) => Err(e),
    }
}

} // verus!

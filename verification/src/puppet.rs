//! The puppet: a record of data that only its authority may set. The
//! authority is meant to be an identity that another component derives.

use vstd::prelude::*;
use crate::error::Error;
use crate::guard::{
    authorized, check, presented, prove_control, proves_control, Delegation, DelegationView,
    Mutation,
};
use crate::identity::{Identity, Signer, IDENTITY_BYTES};
use crate::request::{
    bound_spec, has_signed, identity_seed, require_bound, require_signature, Context,
    DISCRIMINATOR_BYTES, NUMBER_BYTES,
};
use crate::store::{with_payload, Payload, StateRecord, Store};

verus! {

/// What a puppet's record holds.
#[derive(Clone, Copy, Debug, PartialEq, Eq)]
pub struct Data {
    pub data: u64,
    pub authority: Identity,
}

/// The identities of a request that sets a puppet up.
pub struct Initialize {
    /// The address of the puppet's record.
    pub puppet_account: Identity,
    /// Who pays for the record.
    pub payer: Signer,
    /// The identity that will control the puppet.
    pub authority_pda: Identity,
}

/// The identities of a request that sets a puppet's data.
pub struct SetData {
    /// The address of the puppet's record.
    pub puppet_account: Identity,
    /// Who controls the puppet.
    pub authority: Signer,
}

/// The change that `set_data` makes: other data, the same authority.
pub struct SetValue {
    pub data: u64,
}

/// Bytes that a puppet's record needs: the tag, the data and the authority.
pub const DATA_SPACE: usize = DISCRIMINATOR_BYTES + NUMBER_BYTES + IDENTITY_BYTES;

/// The label of a puppet's address: the bytes of `puppet`.
pub open spec fn puppet_label() -> Seq<u8> {
    seq![112u8, 117u8, 112u8, 112u8, 101u8, 116u8]
}

impl Payload for Data {
    open spec fn footprint(&self) -> nat {
        DATA_SPACE as nat
    }

    fn fits(&self, capacity: usize) -> (b: bool) {
        DATA_SPACE <= capacity
    }
}

impl Mutation<Data> for SetValue {
    open spec fn applied(&self, payload: Data) -> Data {
        Data { data: self.data, authority: payload.authority }
    }

    fn apply(&self, payload: &Data) -> (next: Data) {
        Data { data: self.data, authority: payload.authority }
    }
}

/// The label of a puppet's address.
pub fn puppet_label_bytes() -> (label: Vec<u8>)
    ensures
        label@ == puppet_label(),
{
    let label: Vec<u8> = vec![112u8, 117u8, 112u8, 112u8, 101u8, 116u8];
    assert(label@ =~= puppet_label());
    label
}

/// The authority of a new puppet as the request asserts it: signed for
/// when it is the payer itself.
pub open spec fn asserted_authority(ctx: Context<Initialize>) -> Signer {
    Signer {
        key: ctx.accounts.authority_pda,
        signed: ctx.accounts.authority_pda@ == ctx.accounts.payer.key@,
    }
}

/// What admitting a request to set a puppet up comes to.
pub open spec fn initialize_spec(
    store: Store<Data>,
    ctx: Context<Initialize>,
    delegation: Option<DelegationView>,
) -> Result<(), Error> {
    if !has_signed(ctx.accounts.payer) || !proves_control(asserted_authority(ctx), delegation) {
        Err(Error::Unauthorized)
    } else {
        match bound_spec(
            ctx.program_id@,
            puppet_label(),
            seq![ctx.accounts.authority_pda@],
            ctx.accounts.puppet_account@,
        ) {
            Err(e) => Err(e),
            Ok(_) => if store.contains(ctx.accounts.puppet_account@) {
                Err(Error::AlreadyExists)
            } else {
                Ok(())
            },
        }
    }
}

/// What admitting a request to set a puppet's data comes to.
pub open spec fn set_data_spec(
    store: Store<Data>,
    ctx: Context<SetData>,
    delegation: Option<DelegationView>,
) -> Result<(), Error> {
    if !store.contains(ctx.accounts.puppet_account@) || store.record_at(
        ctx.accounts.puppet_account@,
    ).owner_component@ != ctx.program_id@ {
        Err(Error::NotFound)
    } else if !authorized(
        store.record_at(ctx.accounts.puppet_account@),
        ctx.accounts.authority,
        delegation,
    ) {
        Err(Error::Unauthorized)
    } else {
        Ok(())
    }
}

/// The store after the data of the puppet at `address` was set: that record
/// holds `data` under its old authority, and nothing else differs.
pub open spec fn data_set(before: Store<Data>, after: Store<Data>, address: Seq<u8>, data: u64)
    -> bool {
    &&& after.addresses() == before.addresses()
    &&& after.records() == before.records().update(
        before.slot_of(address),
        with_payload(
            before.record_at(address),
            Data { data: data, authority: before.record_at(address).payload.authority },
        ),
    )
}

/// Sets a puppet up, with data zero, under the authority that the request
/// names. The payer must have signed. The authority must be the payer, or
/// an identity that the delegation proof handed over with the request
/// claims and recomputes: no puppet is set up under an identity that the
/// request does not account for.
///
/// Fails with `Unauthorized` when the payer did not sign, the authority is
/// not accounted for, or the address is not the one derived for the
/// authority, with `DerivationExhausted` when nothing derives, and with
/// `AlreadyExists` when the puppet is set up already.
pub fn initialize(
    store: &mut Store<Data>,
    ctx: &Context<Initialize>,
    delegation: Option<&Delegation>,
) -> (r: Result<(), Error>)
    requires
        old(store).wf(),
    ensures
        final(store).wf(),
        r == initialize_spec(*old(store), *ctx, presented(delegation)),
        r is Ok ==> {
            &&& final(store).addresses() == old(store).addresses().push(
                ctx.accounts.puppet_account@,
            )
            &&& final(store).records() == old(store).records().push(
                StateRecord {
                    owner_component: ctx.program_id,
                    authority: ctx.accounts.authority_pda,
                    payload: Data { data: 0, authority: ctx.accounts.authority_pda },
                    capacity: DATA_SPACE,
                },
            )
        },
        r is Err ==> *final(store) == *old(store),
{
    match require_signature(&ctx.accounts.payer) {
        Ok(()) => {},
        Err(e) => {
            return Err(e);
        },
    }
    let asserted = Signer {
        key: ctx.accounts.authority_pda,
        signed: ctx.accounts.authority_pda.same(&ctx.accounts.payer.key),
    };
    if !prove_control(&asserted, delegation) {
        return Err(Error::Unauthorized);
    }
    let seeds = identity_seed(&ctx.accounts.authority_pda);
    match require_bound(
        &ctx.program_id,
        puppet_label_bytes().as_slice(),
        &seeds,
        &ctx.accounts.puppet_account,
    ) {
        Ok(_) => {},
        Err(e) => {
            return Err(e);
        },
    }
    match store.create(
        &ctx.accounts.puppet_account,
        &ctx.program_id,
        &ctx.accounts.authority_pda,
        Data { data: 0, authority: ctx.accounts.authority_pda },
        DATA_SPACE,
    ) {
        Ok(_) => Ok(()),
        Err(e) => Err(e),
    }
}

/// Sets a puppet's data, if the caller proves control of its authority, by
/// signature or by the delegation that the host hands over with the call.
///
/// Fails with `NotFound` when the component has no record at the address,
/// and with `Unauthorized` when the guard refuses.
pub fn set_data(
    store: &mut Store<Data>,
    ctx: &Context<SetData>,
    delegation: Option<&Delegation>,
    data: u64,
) -> (r: Result<(), Error>)
    requires
        old(store).wf(),
    ensures
        final(store).wf(),
        r == set_data_spec(*old(store), *ctx, presented(delegation)),
        r is Ok ==> data_set(*old(store), *final(store), ctx.accounts.puppet_account@, data),
        r is Err ==> *final(store) == *old(store),
{
    let handle = match store.find(&ctx.accounts.puppet_account) {
        Some(h) => h,
        None => {
            return Err(Error::NotFound);
        },
    };
    let record = store.record(handle);
    if !record.owner_component.same(&ctx.program_id) {
        return Err(Error::NotFound);
    }
    match check(record, &ctx.accounts.authority, delegation) {
        Ok(()) => {},
        Err(e) => {
            return Err(e);
        },
    }
    let next = SetValue { data: data }.apply(&record.payload);
    match store.put(handle, next) {
        Ok(()) => Ok(()),
        Err(e) => Err(e),
    }
}

} // verus!

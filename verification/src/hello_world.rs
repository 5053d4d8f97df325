//! A counter: one record per authority, at the address that the label
//! `account` and the authority's key derive.

use vstd::prelude::*;
use crate::error::Error;
use crate::guard::{authorized, check};
use crate::identity::{Identity, Signer};
use crate::request::{
    bound_spec, has_signed, identity_seed, require_bound, require_signature, Context,
    DISCRIMINATOR_BYTES, NUMBER_BYTES,
};
use crate::store::{with_payload, Payload, RecordHandle, StateRecord, Store};

verus! {

/// The counter that a record holds.
#[derive(Clone, Copy, Debug, PartialEq, Eq, Structural)]
pub struct MyAccount {
    pub data: u64,
}

/// The failures that the counter defines.
#[derive(Clone, Copy, Debug, PartialEq, Eq, Structural)]
pub enum ErrorCode {
    /// Cannot decrease a value of 0.
    BelowZero,
}

/// The identities of a request that sets a counter up.
pub struct Initialize {
    /// Who will control the counter.
    pub authority: Signer,
    /// The address of the counter's record.
    pub my_account: Identity,
}

/// The identities of a request that changes a counter.
pub struct Update {
    /// The address of the counter's record.
    pub my_account: Identity,
    /// Who controls the counter.
    pub authority: Signer,
}

/// Bytes that a counter's record needs: the tag and the number.
pub const MY_ACCOUNT_SPACE: usize = DISCRIMINATOR_BYTES + NUMBER_BYTES;

/// The label of a counter's address: the bytes of `account`.
pub open spec fn account_label() -> Seq<u8> {
    seq![97u8, 99u8, 99u8, 111u8, 117u8, 110u8, 116u8]
}

impl Payload for MyAccount {
    open spec fn footprint(&self) -> nat {
        MY_ACCOUNT_SPACE as nat
    }

    fn fits(&self, capacity: usize) -> (b: bool) {
        MY_ACCOUNT_SPACE <= capacity
    }
}

/// The label of a counter's address.
pub fn account_label_bytes() -> (label: Vec<u8>)
    ensures
        label@ == account_label(),
{
    let label: Vec<u8> = vec![97u8, 99u8, 99u8, 111u8, 117u8, 110u8, 116u8];
    assert(label@ =~= account_label());
    label
}

/// What admitting a request to set a counter up comes to.
pub open spec fn initialize_spec(store: Store<MyAccount>, ctx: Context<Initialize>) -> Result<
    (),
    Error,
> {
    if !has_signed(ctx.accounts.authority) {
        Err(Error::Unauthorized)
    } else {
        match bound_spec(
            ctx.program_id@,
            account_label(),
            seq![ctx.accounts.authority.key@],
            ctx.accounts.my_account@,
        ) {
            Err(e) => Err(e),
            Ok(_) => if store.contains(ctx.accounts.my_account@) {
                Err(Error::AlreadyExists)
            } else {
                Ok(())
            },
        }
    }
}

/// What admitting a request to change a counter comes to.
pub open spec fn update_spec(store: Store<MyAccount>, ctx: Context<Update>) -> Result<(), Error> {
    match bound_spec(
        ctx.program_id@,
        account_label(),
        seq![ctx.accounts.authority.key@],
        ctx.accounts.my_account@,
    ) {
        Err(e) => Err(e),
        Ok(_) => if !store.contains(ctx.accounts.my_account@) {
            Err(Error::NotFound)
        } else if !authorized(
            store.record_at(ctx.accounts.my_account@),
            ctx.accounts.authority,
            None,
        ) {
            Err(Error::Unauthorized)
        } else {
            Ok(())
        },
    }
}

/// The store after a change: the counter at the request's address holds `data`,
/// and nothing else differs.
pub open spec fn counter_set(
    before: Store<MyAccount>,
    after: Store<MyAccount>,
    address: Seq<u8>,
    data: u64,
) -> bool {
    &&& after.addresses() == before.addresses()
    &&& after.records() == before.records().update(
        before.slot_of(address),
        with_payload(before.record_at(address), MyAccount { data: data }),
    )
}

/// Admits a request to change a counter: the address must be the one
/// derived for the authority, a record must live there, and the authority
/// must have signed.
fn authorize_update(store: &Store<MyAccount>, ctx: &Context<Update>) -> (r: Result<RecordHandle, Error>)
    requires
        store.wf(),
    ensures
        match r {
            Ok(h) => {
                &&& update_spec(*store, *ctx) is Ok
                &&& store.holds(h)
                &&& h.slot == store.slot_of(ctx.accounts.my_account@)
            },
            Err(e) => update_spec(*store, *ctx) == Err::<(), Error>(e),
        },
{
    let seeds = identity_seed(&ctx.accounts.authority.key);
    match require_bound(&ctx.program_id, account_label_bytes().as_slice(), &seeds, &ctx.accounts.my_account) {
        Ok(_) => {},
        Err(e) => {
            return Err(e);
        },
    }
    let handle = match store.get_mut(&ctx.accounts.my_account) {
        Ok(h) => h,
        Err(e) => {
            return Err(e);
        },
    };
    match check(store.record(handle), &ctx.accounts.authority, None) {
        Ok(()) => Ok(handle),
        Err(e) => Err(e),
    }
}

/// Sets a counter up at zero, under the authority that signed.
///
/// Fails with `Unauthorized` when the authority did not sign or the address
/// is not the one derived for it, with `DerivationExhausted` when nothing
/// derives, and with `AlreadyExists` when the counter is set up already.
pub fn initialize(store: &mut Store<MyAccount>, ctx: &Context<Initialize>) -> (r: Result<(), Error>)
    requires
        old(store).wf(),
    ensures
        final(store).wf(),
        r == initialize_spec(*old(store), *ctx),
        r is Ok ==> {
            &&& final(store).addresses() == old(store).addresses().push(ctx.accounts.my_account@)
            &&& final(store).records() == old(store).records().push(
                StateRecord {
                    owner_component: ctx.program_id,
                    authority: ctx.accounts.authority.key,
                    payload: MyAccount { data: 0 },
                    capacity: MY_ACCOUNT_SPACE,
                },
            )
        },
        r is Err ==> *final(store) == *old(store),
{
    match require_signature(&ctx.accounts.authority) {
        Ok(()) => {},
        Err(e) => {
            return Err(e);
        },
    }
    let seeds = identity_seed(&ctx.accounts.authority.key);
    match require_bound(&ctx.program_id, account_label_bytes().as_slice(), &seeds, &ctx.accounts.my_account) {
        Ok(_) => {},
        Err(e) => {
            return Err(e);
        },
    }
    match store.create(
        &ctx.accounts.my_account,
        &ctx.program_id,
        &ctx.accounts.authority.key,
        MyAccount { data: 0 },
        MY_ACCOUNT_SPACE,
    ) {
        Ok(_) => Ok(()),
        Err(e) => Err(e),
    }
}

/// Adds one to a counter.
///
/// Fails as a request that is not admitted does, and with
/// `ArithmeticOverflow` when the counter is at its greatest value.
pub fn increase(store: &mut Store<MyAccount>, ctx: &Context<Update>) -> (r: Result<(), Error>)
    requires
        old(store).wf(),
    ensures
        final(store).wf(),
        r == match update_spec(*old(store), *ctx) {
            Err(e) => Err::<(), Error>(e),
            Ok(()) => if old(store).record_at(ctx.accounts.my_account@).payload.data == u64::MAX {
                Err::<(), Error>(Error::ArithmeticOverflow)
            } else {
                Ok::<(), Error>(())
            },
        },
        r is Ok ==> counter_set(
            *old(store),
            *final(store),
            ctx.accounts.my_account@,
            (old(store).record_at(ctx.accounts.my_account@).payload.data + 1) as u64,
        ),
        r is Err ==> *final(store) == *old(store),
{
    let handle = match authorize_update(store, ctx) {
        Ok(h) => h,
        Err(e) => {
            return Err(e);
        },
    };
    let data = store.record(handle).payload.data;
    if data == u64::MAX {
        return Err(Error::ArithmeticOverflow);
    }
    match store.put(handle, MyAccount { data: data + 1 }) {
        Ok(()) => Ok(()),
        Err(e) => Err(e),
    }
}

/// Takes one from a counter.
///
/// Fails as a request that is not admitted does, and with `BelowZero` when
/// the counter is at zero.
pub fn decrease(store: &mut Store<MyAccount>, ctx: &Context<Update>) -> (r: Result<(), Error>)
    requires
        old(store).wf(),
    ensures
        final(store).wf(),
        r == match update_spec(*old(store), *ctx) {
            Err(e) => Err::<(), Error>(e),
            Ok(()) => if old(store).record_at(ctx.accounts.my_account@).payload.data == 0 {
                Err::<(), Error>(Error::Component(ErrorCode::BelowZero))
            } else {
                Ok::<(), Error>(())
            },
        },
        r is Ok ==> counter_set(
            *old(store),
            *final(store),
            ctx.accounts.my_account@,
            (old(store).record_at(ctx.accounts.my_account@).payload.data - 1) as u64,
        ),
        r is Err ==> *final(store) == *old(store),
{
    let handle = match authorize_update(store, ctx) {
        Ok(h) => h,
        Err(e) => {
            return Err(e);
        },
    };
    let data = store.record(handle).payload.data;
    if data == 0 {
        return Err(Error::Component(ErrorCode::BelowZero));
    }
    match store.put(handle, MyAccount { data: data - 1 }) {
        Ok(()) => Ok(()),
        Err(e) => Err(e),
    }
}

/// Sets a counter to `value`.
///
/// Fails as a request that is not admitted does.
pub fn set(store: &mut Store<MyAccount>, ctx: &Context<Update>, value: u64) -> (r: Result<(), Error>)
    requires
        old(store).wf(),
    ensures
        final(store).wf(),
        r == update_spec(*old(store), *ctx),
        r is Ok ==> counter_set(*old(store), *final(store), ctx.accounts.my_account@, value),
        r is Err ==> *final(store) == *old(store),
{
    let handle = match authorize_update(store, ctx) {
        Ok(h) => h,
        Err(e) => {
            return Err(e);
        },
    };
    match store.put(handle, MyAccount { data: value }) {
        Ok(()) => Ok(()),
        Err(e) => Err(e),
    }
}

} // verus!

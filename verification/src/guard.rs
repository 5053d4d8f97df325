//! The authorization guard: who may mutate a record.
//!
//! A caller asserts an identity and proves control of it, either by a
//! signature that the host verified, or by a delegation proof: the seeds and
//! bump from which the identity derives under the caller's own address.
//! Authorization is binary and comes before any mutation.

use vstd::prelude::*;
use crate::deriver::{
    derive_spec, derived, on_curve, off_key_space, recompute_spec, verify, views,
};
use crate::error::Error;
use crate::identity::{Identity, Signer};
use crate::store::{with_authority, with_payload, Payload, StateRecord, Store};

verus! {

/// The knowledge that stands for the private key of a derived identity.
pub struct DelegationProof {
    /// The label of the derivation.
    pub label: Vec<u8>,
    /// The seeds of the derivation, in order.
    pub seeds: Vec<Vec<u8>>,
    /// The bump that was found when the identity was first derived.
    pub bump: u8,
    /// The identity that the proof claims to derive.
    pub claimed_identity: Identity,
}

/// A delegation as the host hands it to a callee: which component calls, and
/// the proof it presents.
pub struct Delegation {
    /// The calling component, under whose address the identity must derive.
    pub caller: Identity,
    /// The proof that the caller presents.
    pub proof: DelegationProof,
}

/// A delegation proof as plain values.
pub struct ProofView {
    pub label: Seq<u8>,
    pub seeds: Seq<Seq<u8>>,
    pub bump: u8,
    pub claimed_identity: Seq<u8>,
}

/// A delegation as plain values.
pub struct DelegationView {
    pub caller: Seq<u8>,
    pub proof: ProofView,
}

impl View for DelegationProof {
    type V = ProofView;

    open spec fn view(&self) -> ProofView {
        ProofView {
            label: self.label@,
            seeds: views(self.seeds@),
            bump: self.bump,
            claimed_identity: self.claimed_identity@,
        }
    }
}

impl View for Delegation {
    type V = DelegationView;

    open spec fn view(&self) -> DelegationView {
        DelegationView { caller: self.caller@, proof: self.proof@ }
    }
}

/// The delegation that a request presents, as plain values.
pub open spec fn presented(delegation: Option<&Delegation>) -> Option<DelegationView> {
    match delegation {
        Some(d) => Some(d@),
        None => None,
    }
}

/// A change to the payload of a record.
pub trait Mutation<T> {
    /// What the change makes of a payload.
    spec fn applied(&self, payload: T) -> T;

    /// Computes the changed payload.
    fn apply(&self, payload: &T) -> (next: T)
        ensures
            next == self.applied(*payload),
    ;
}

/// Whether the proof of a delegation verifies: its label, seeds and bump
/// recompute the claimed identity under the caller's address.
pub open spec fn proof_holds(delegation: DelegationView) -> bool {
    recompute_spec(
        delegation.caller,
        delegation.proof.label,
        delegation.proof.seeds,
        delegation.proof.bump,
    ) == Some(delegation.proof.claimed_identity)
}

/// Whether control of the asserted identity is proved: by a signature, which
/// only an identity inside key space can have made, or by a delegation
/// proof that claims the asserted identity and verifies.
pub open spec fn proves_control(asserted: Signer, delegation: Option<DelegationView>) -> bool {
    ||| asserted.signed && on_curve(asserted.key@)
    ||| (delegation matches Some(d) && d.proof.claimed_identity == asserted.key@ && proof_holds(d))
}

/// Whether a mutation of `record` is authorized: the asserted identity is
/// the record's authority, and control of it is proved.
pub open spec fn authorized<T>(
    record: StateRecord<T>,
    asserted: Signer,
    delegation: Option<DelegationView>,
) -> bool {
    record.authority@ == asserted.key@ && proves_control(asserted, delegation)
}

/// What an authorized mutation request comes to, before anything is changed.
pub open spec fn mutate_spec<T: Payload, M: Mutation<T>>(
    store: Store<T>,
    address: Seq<u8>,
    asserted: Signer,
    delegation: Option<DelegationView>,
    mutation: &M,
) -> Result<(), Error> {
    if !store.contains(address) {
        Err(Error::NotFound)
    } else if !authorized(store.record_at(address), asserted, delegation) {
        Err(Error::Unauthorized)
    } else if mutation.applied(store.record_at(address).payload).footprint() > store.record_at(
        address,
    ).capacity {
        Err(Error::InsufficientCapacity)
    } else {
        Ok(())
    }
}

/// What a request to reassign the authority of a record comes to.
pub open spec fn reassign_spec<T: Payload>(
    store: Store<T>,
    address: Seq<u8>,
    asserted: Signer,
    delegation: Option<DelegationView>,
) -> Result<(), Error> {
    if !store.contains(address) {
        Err(Error::NotFound)
    } else if !authorized(store.record_at(address), asserted, delegation) {
        Err(Error::Unauthorized)
    } else {
        Ok(())
    }
}

/// Whether control of the asserted identity is proved, by signature or by
/// the delegation that comes with the request.
pub fn prove_control(asserted: &Signer, delegation: Option<&Delegation>) -> (b: bool)
    ensures
        b == proves_control(*asserted, presented(delegation)),
{
    if asserted.signed && !off_key_space(&asserted.key) {
        return true;
    }
    match delegation {
        Some(d) => d.proof.claimed_identity.same(&asserted.key) && verify(
            &d.caller,
            d.proof.label.as_slice(),
            &d.proof.seeds,
            d.proof.bump,
            &d.proof.claimed_identity,
        ),
        None => false,
    }
}

/// Checks that the caller may mutate `record`.
///
/// Succeeds exactly when the asserted identity is the record's authority
/// and the caller proved control of it; fails with `Unauthorized` otherwise.
pub fn check<T>(record: &StateRecord<T>, asserted: &Signer, delegation: Option<&Delegation>) -> (r:
    Result<(), Error>)
    ensures
        r == if authorized(*record, *asserted, presented(delegation)) {
            Ok::<(), Error>(())
        } else {
            Err::<(), Error>(Error::Unauthorized)
        },
{
    if record.authority.same(&asserted.key) && prove_control(asserted, delegation) {
        Ok(())
    } else {
        Err(Error::Unauthorized)
    }
}

/// No signature stands for a derived identity: whatever the record, a
/// request that asserts an identity returned by a derivation, with a
/// signature and without a delegation proof, is not authorized.
pub proof fn lemma_signature_never_proves_derived<T>(
    owner: Seq<u8>,
    label: Seq<u8>,
    seeds: Seq<Seq<u8>>,
    identity: Identity,
    bump: u8,
    record: StateRecord<T>,
    signed: bool,
)
    requires
        derived(owner, label, seeds, Ok::<(Identity, u8), Error>((identity, bump))),
    ensures
        !authorized(record, Signer { key: identity, signed: signed }, None),
{
}

/// An asserted identity other than the record's authority is never
/// authorized, whatever is presented with it.
pub proof fn lemma_mismatch_is_unauthorized<T>(
    record: StateRecord<T>,
    asserted: Signer,
    delegation: Option<DelegationView>,
)
    requires
        asserted.key@ != record.authority@,
    ensures
        !authorized(record, asserted, delegation),
{
}

/// Authorization is exactly this: the asserted identity is the record's
/// authority, and either it signed and lies inside key space, or a
/// delegation proof claims it and recomputes it under the caller's address.
pub proof fn lemma_authorized_iff<T>(
    record: StateRecord<T>,
    asserted: Signer,
    delegation: Option<DelegationView>,
)
    ensures
        authorized(record, asserted, delegation) <==> {
            &&& record.authority@ == asserted.key@
            &&& {
                ||| asserted.signed && on_curve(asserted.key@)
                ||| delegation matches Some(d) && d.proof.claimed_identity == asserted.key@
                    && recompute_spec(d.caller, d.proof.label, d.proof.seeds, d.proof.bump)
                    == Some(asserted.key@)
            }
        },
{
}

/// The address at which a new record goes, or why none is created.
pub open spec fn create_record_spec<T: Payload>(
    store: Store<T>,
    component: Seq<u8>,
    asserted: Signer,
    delegation: Option<DelegationView>,
    label: Seq<u8>,
    seeds: Seq<Seq<u8>>,
    payload: T,
    capacity: usize,
) -> Result<Seq<u8>, Error> {
    if !proves_control(asserted, delegation) {
        Err(Error::Unauthorized)
    } else {
        match derive_spec(component, label, seeds) {
            None => Err(Error::DerivationExhausted),
            Some((address, _)) => if store.contains(address) {
                Err(Error::AlreadyExists)
            } else if payload.footprint() > capacity {
                Err(Error::InsufficientCapacity)
            } else {
                Ok(address)
            },
        }
    }
}

/// Establishes a new record of `component` at the address that the label
/// and seeds derive under it, under the authority of the asserted identity,
/// and hands the address back.
///
/// Nobody creates a record under an identity that it does not prove control
/// of: without a signature of the asserted identity or a delegation proof
/// that matches it, the request fails with `Unauthorized`. It fails with
/// `DerivationExhausted` when nothing derives, with
/// `AlreadyExists` when a record lives at the address, and with
/// `InsufficientCapacity` when the payload needs more than `capacity`. On
/// failure the store is unchanged.
pub fn create_record<T: Payload>(
    store: &mut Store<T>,
    component: &Identity,
    asserted: &Signer,
    delegation: Option<&Delegation>,
    label: &[u8],
    seeds: &Vec<Vec<u8>>,
    payload: T,
    capacity: usize,
) -> (r: Result<Identity, Error>)
    requires
        old(store).wf(),
    ensures
        final(store).wf(),
        match r {
            Ok(address) => {
                &&& create_record_spec(
                    *old(store),
                    component@,
                    *asserted,
                    presented(delegation),
                    label@,
                    views(seeds@),
                    payload,
                    capacity,
                ) == Ok::<Seq<u8>, Error>(address@)
                &&& final(store).addresses() == old(store).addresses().push(address@)
                &&& final(store)@ == old(store)@.insert(
                    address@,
                    StateRecord {
                        owner_component: *component,
                        authority: asserted.key,
                        payload: payload,
                        capacity: capacity,
                    },
                )
            },
            Err(e) => {
                &&& create_record_spec(
                    *old(store),
                    component@,
                    *asserted,
                    presented(delegation),
                    label@,
                    views(seeds@),
                    payload,
                    capacity,
                ) == Err::<Seq<u8>, Error>(e)
                &&& *final(store) == *old(store)
            },
        },
{
    if !prove_control(asserted, delegation) {
        return Err(Error::Unauthorized);
    }
    let address = match crate::deriver::derive(component, label, seeds) {
        Ok((address, _)) => address,
        Err(e) => {
            return Err(e);
        },
    };
    match store.create(&address, component, &asserted.key, payload, capacity) {
        Ok(_) => Ok(address),
        Err(e) => Err(e),
    }
}

/// Establishes a record of `component` at the address that the label and
/// seeds derive under it, under the authority of the asserted identity,
/// unless one lives there already. Hands back the address and whether the
/// record was already present.
///
/// An existing record is left as it is. Fails with `Unauthorized` when
/// control of the asserted identity is not proved, with
/// `DerivationExhausted` when nothing derives, and with `InsufficientCapacity` when the record is
/// absent and the payload needs more than `capacity`. On failure the store
/// is unchanged.
pub fn create_record_if_absent<T: Payload>(
    store: &mut Store<T>,
    component: &Identity,
    asserted: &Signer,
    delegation: Option<&Delegation>,
    label: &[u8],
    seeds: &Vec<Vec<u8>>,
    payload: T,
    capacity: usize,
) -> (r: Result<(Identity, bool), Error>)
    requires
        old(store).wf(),
    ensures
        final(store).wf(),
        match r {
            Ok((address, present)) => {
                &&& proves_control(*asserted, presented(delegation))
                &&& derive_spec(component@, label@, views(seeds@)) is Some
                &&& derive_spec(component@, label@, views(seeds@))->Some_0.0 == address@
                &&& present == old(store).contains(address@)
                &&& present ==> *final(store) == *old(store)
                &&& !present ==> payload.footprint() <= capacity && final(store)@ == old(
                    store,
                )@.insert(
                    address@,
                    StateRecord {
                        owner_component: *component,
                        authority: asserted.key,
                        payload: payload,
                        capacity: capacity,
                    },
                )
            },
            Err(e) => {
                &&& *final(store) == *old(store)
                &&& e == if !proves_control(*asserted, presented(delegation)) {
                    Error::Unauthorized
                } else {
                    match derive_spec(component@, label@, views(seeds@)) {
                        None => Error::DerivationExhausted,
                        Some(_) => Error::InsufficientCapacity,
                    }
                }
                &&& proves_control(*asserted, presented(delegation)) && derive_spec(
                    component@,
                    label@,
                    views(seeds@),
                ) is Some ==> !old(store).contains(
                    derive_spec(component@, label@, views(seeds@))->Some_0.0,
                ) && payload.footprint() > capacity
            },
        },
{
    if !prove_control(asserted, delegation) {
        return Err(Error::Unauthorized);
    }
    let address = match crate::deriver::derive(component, label, seeds) {
        Ok((address, _)) => address,
        Err(e) => {
            return Err(e);
        },
    };
    match store.create_if_absent(&address, component, &asserted.key, payload, capacity) {
        Ok((_, present)) => {
            proof {
                if !present {
                    old(store).lemma_created(
                        *final(store),
                        address@,
                        StateRecord {
                            owner_component: *component,
                            authority: asserted.key,
                            payload: payload,
                            capacity: capacity,
                        },
                    );
                }
            }
            Ok((address, present))
        },
        Err(e) => Err(e),
    }
}

/// Applies `mutation` to the payload of the record at `address`, if the
/// caller is authorized.
///
/// Fails with `NotFound` when no record lives there, with `Unauthorized`
/// when `check` fails, and with `InsufficientCapacity` when the changed
/// payload needs more than was reserved. On failure the store is unchanged.
pub fn mutate_record<T: Payload, M: Mutation<T>>(
    store: &mut Store<T>,
    address: &Identity,
    asserted: &Signer,
    delegation: Option<&Delegation>,
    mutation: &M,
) -> (r: Result<(), Error>)
    requires
        old(store).wf(),
    ensures
        final(store).wf(),
        r == mutate_spec(*old(store), address@, *asserted, presented(delegation), mutation),
        final(store).addresses() == old(store).addresses(),
        r is Ok ==> final(store).records() == old(store).records().update(
            old(store).slot_of(address@),
            with_payload(
                old(store).record_at(address@),
                mutation.applied(old(store).record_at(address@).payload),
            ),
        ),
        r is Err ==> *final(store) == *old(store),
{
    let handle = match store.get_mut(address) {
        Ok(h) => h,
        Err(e) => {
            return Err(e);
        },
    };
    let record = store.record(handle);
    match check(record, asserted, delegation) {
        Ok(()) => {},
        Err(e) => {
            return Err(e);
        },
    }
    let next = mutation.apply(&record.payload);
    match store.put(handle, next) {
        Ok(()) => Ok(()),
        Err(e) => Err(e),
    }
}

/// Puts the record at `address` under a new authority, if the caller is
/// authorized by the present one.
///
/// Fails with `NotFound` when no record lives there and with `Unauthorized`
/// when `check` fails. On failure the store is unchanged.
pub fn reassign_authority<T: Payload + Copy>(
    store: &mut Store<T>,
    address: &Identity,
    asserted: &Signer,
    delegation: Option<&Delegation>,
    authority: &Identity,
) -> (r: Result<(), Error>)
    requires
        old(store).wf(),
    ensures
        final(store).wf(),
        r == reassign_spec(*old(store), address@, *asserted, presented(delegation)),
        final(store).addresses() == old(store).addresses(),
        r is Ok ==> final(store).records() == old(store).records().update(
            old(store).slot_of(address@),
            with_authority(old(store).record_at(address@), *authority),
        ),
        r is Err ==> *final(store) == *old(store),
{
    let handle = match store.get_mut(address) {
        Ok(h) => h,
        Err(e) => {
            return Err(e);
        },
    };
    match check(store.record(handle), asserted, delegation) {
        Ok(()) => {},
        Err(e) => {
            return Err(e);
        },
    }
    store.set_authority(handle, authority);
    Ok(())
}

} // verus!

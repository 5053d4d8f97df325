//! Delegated invocation: a component acts on a record of another component
//! on behalf of an identity that it derives under its own address.
//!
//! The caller holds no private key for that identity. It holds the seeds and
//! the bump that produce it, persisted when the identity was first derived.
//! The callee trusts nothing: it recomputes the identity on every call.

use vstd::prelude::*;
use vstd::slice::slice_to_vec;
use crate::deriver::{copy_seeds, derive_spec, derived, recompute_spec, views};
use crate::error::Error;
use crate::guard::{
    check, proof_holds, Delegation, DelegationProof, DelegationView, Mutation, ProofView,
};
use crate::identity::{Identity, Signer};
use crate::store::{with_payload, Payload, RecordHandle, Store};

verus! {

/// What a delegated invocation reports: the record that it mutated.
#[derive(Clone, Copy, Debug, PartialEq, Eq, Structural)]
pub struct Outcome {
    pub target: RecordHandle,
}

/// What a component persists when it first derives an identity: the seeds,
/// the identity, and the bump that was found.
pub struct Capability {
    /// The component that derived the identity.
    pub component: Identity,
    /// The label of the derivation.
    pub label: Vec<u8>,
    /// The seeds of the derivation, in order.
    pub seeds: Vec<Vec<u8>>,
    /// The derived identity.
    pub identity: Identity,
    /// The bump found at the first derivation; later calls must reuse it.
    pub bump: u8,
}

impl Capability {
    /// Whether the capability holds the result of a derivation of its
    /// label and seeds under its component's address.
    pub open spec fn established(&self) -> bool {
        derived(
            self.component@,
            self.label@,
            views(self.seeds@),
            Ok::<(Identity, u8), Error>((self.identity, self.bump)),
        )
    }

    /// The delegation that the capability backs.
    pub open spec fn delegation_view(&self) -> DelegationView {
        DelegationView {
            caller: self.component@,
            proof: ProofView {
                label: self.label@,
                seeds: views(self.seeds@),
                bump: self.bump,
                claimed_identity: self.identity@,
            },
        }
    }

    /// Derives the identity of `label` and `seeds` under `component` and
    /// keeps it with its bump.
    ///
    /// Fails with `DerivationExhausted` when the derivation does.
    pub fn establish(component: &Identity, label: &[u8], seeds: &Vec<Vec<u8>>) -> (r: Result<
        Capability,
        Error,
    >)
        ensures
            match r {
                Ok(c) => {
                    &&& c.established()
                    &&& c.component@ == component@
                    &&& c.label@ == label@
                    &&& views(c.seeds@) == views(seeds@)
                    &&& derive_spec(component@, label@, views(seeds@)) == Some((c.identity@, c.bump))
                },
                Err(e) => e == Error::DerivationExhausted && derive_spec(
                    component@,
                    label@,
                    views(seeds@),
                ) is None,
            },
    {
        match crate::deriver::derive(component, label, seeds) {
            Ok((identity, bump)) => Ok(
                Capability {
                    component: *component,
                    label: slice_to_vec(label),
                    seeds: copy_seeds(seeds),
                    identity: identity,
                    bump: bump,
                },
            ),
            Err(e) => Err(e),
        }
    }

    /// The delegation to present with a call, for the bump that the caller
    /// of the component supplied.
    ///
    /// The bump is held against the persisted one: another bump fails with
    /// `UnauthorizedDelegation`.
    pub fn delegation(&self, bump: u8) -> (r: Result<Delegation, Error>)
        ensures
            match r {
                Ok(d) => bump == self.bump && d@ == self.delegation_view(),
                Err(e) => bump != self.bump && e == Error::UnauthorizedDelegation,
            },
    {
        if bump != self.bump {
            return Err(Error::UnauthorizedDelegation);
        }
        Ok(
            Delegation {
                caller: self.component,
                proof: DelegationProof {
                    label: slice_to_vec(self.label.as_slice()),
                    seeds: copy_seeds(&self.seeds),
                    bump: bump,
                    claimed_identity: self.identity,
                },
            },
        )
    }
}

/// What admitting a delegated invocation comes to: the handle of the
/// target, once the target is found to belong to the component and the
/// delegation to prove that the caller is its authority.
pub open spec fn authorize_spec<T: Payload>(
    store: Store<T>,
    target_component: Seq<u8>,
    target_record: Seq<u8>,
    delegation: DelegationView,
) -> Result<RecordHandle, Error> {
    if !store.contains(target_record) || store.record_at(target_record).owner_component@
        != target_component {
        Err(Error::TargetUnavailable)
    } else if !(store.record_at(target_record).authority@ == delegation.proof.claimed_identity
        && proof_holds(delegation)) {
        Err(Error::UnauthorizedDelegation)
    } else {
        Ok(RecordHandle { slot: store.slot_of(target_record) as usize })
    }
}

/// What a delegated invocation comes to, before anything is changed.
pub open spec fn invoke_spec<T: Payload, M: Mutation<T>>(
    store: Store<T>,
    target_component: Seq<u8>,
    target_record: Seq<u8>,
    operation: &M,
    delegation: DelegationView,
) -> Result<Outcome, Error> {
    match authorize_spec(store, target_component, target_record, delegation) {
        Err(e) => Err(e),
        Ok(handle) => if operation.applied(store.record_at(target_record).payload).footprint()
            > store.record_at(target_record).capacity {
            Err(Error::InsufficientCapacity)
        } else {
            Ok(Outcome { target: handle })
        },
    }
}

/// What an invocation through a capability comes to, for the bump that the
/// caller of the component supplied.
pub open spec fn delegate_invoke_spec<T: Payload, M: Mutation<T>>(
    store: Store<T>,
    capability: Capability,
    bump: u8,
    target_component: Seq<u8>,
    target_record: Seq<u8>,
    operation: &M,
) -> Result<Outcome, Error> {
    if bump != capability.bump {
        Err(Error::UnauthorizedDelegation)
    } else {
        invoke_spec(store, target_component, target_record, operation, capability.delegation_view())
    }
}

/// Round trip: a component that derived an identity and persisted its bump
/// reaches, with the persisted seeds and bump, every record of the target
/// component whose authority is that identity. The invocation then fails
/// only if the changed payload does not fit the record.
pub proof fn lemma_delegation_round_trip<T: Payload, M: Mutation<T>>(
    store: Store<T>,
    capability: Capability,
    target_component: Seq<u8>,
    target_record: Seq<u8>,
    operation: &M,
)
    requires
        capability.established(),
        store.contains(target_record),
        store.record_at(target_record).owner_component@ == target_component,
        store.record_at(target_record).authority@ == capability.identity@,
    ensures
        delegate_invoke_spec(
            store,
            capability,
            capability.bump,
            target_component,
            target_record,
            operation,
        ) == if operation.applied(store.record_at(target_record).payload).footprint()
            > store.record_at(target_record).capacity {
            Err::<Outcome, Error>(Error::InsufficientCapacity)
        } else {
            Ok::<Outcome, Error>(
                Outcome { target: RecordHandle { slot: store.slot_of(target_record) as usize } },
            )
        },
{
}

/// A bump other than the persisted one fails with `UnauthorizedDelegation`,
/// whatever the target.
pub proof fn lemma_other_bump_is_refused<T: Payload, M: Mutation<T>>(
    store: Store<T>,
    capability: Capability,
    bump: u8,
    target_component: Seq<u8>,
    target_record: Seq<u8>,
    operation: &M,
)
    requires
        bump != capability.bump,
    ensures
        delegate_invoke_spec(store, capability, bump, target_component, target_record, operation)
            == Err::<Outcome, Error>(Error::UnauthorizedDelegation),
{
}

/// A delegation whose label, seeds and bump do not recompute the authority
/// of an available target fails with `UnauthorizedDelegation`.
pub proof fn lemma_other_seeds_are_refused<T: Payload, M: Mutation<T>>(
    store: Store<T>,
    target_component: Seq<u8>,
    target_record: Seq<u8>,
    operation: &M,
    delegation: DelegationView,
)
    requires
        store.contains(target_record),
        store.record_at(target_record).owner_component@ == target_component,
        recompute_spec(
            delegation.caller,
            delegation.proof.label,
            delegation.proof.seeds,
            delegation.proof.bump,
        ) != Some(store.record_at(target_record).authority@),
    ensures
        invoke_spec(store, target_component, target_record, operation, delegation) == Err::<
            Outcome,
            Error,
        >(Error::UnauthorizedDelegation),
{
}

/// Admits a delegated invocation without changing anything: finds the
/// target and holds the delegation against its authority.
///
/// Fails with `TargetUnavailable` when the record is absent or belongs to
/// another component, and with `UnauthorizedDelegation` when the proof does
/// not verify or claims another identity than the record's authority.
pub fn authorize<T: Payload>(
    store: &Store<T>,
    target_component: &Identity,
    target_record: &Identity,
    delegation: &Delegation,
) -> (r: Result<RecordHandle, Error>)
    requires
        store.wf(),
    ensures
        r == authorize_spec(*store, target_component@, target_record@, delegation@),
        r matches Ok(h) ==> store.holds(h) && h.slot == store.slot_of(target_record@)
            && store.addresses()[h.slot as int] == target_record@,
{
    let handle = match store.find(target_record) {
        Some(h) => h,
        None => {
            return Err(Error::TargetUnavailable);
        },
    };
    let record = store.record(handle);
    if !record.owner_component.same(target_component) {
        return Err(Error::TargetUnavailable);
    }
    let asserted = Signer { key: delegation.proof.claimed_identity, signed: false };
    if check(record, &asserted, Some(delegation)).is_err() {
        return Err(Error::UnauthorizedDelegation);
    }
    Ok(handle)
}

/// The callee's side of a delegated invocation: applies `operation` to the
/// record at `target_record` of `target_component`, if the delegation proves
/// that the caller is the record's authority.
///
/// Fails with `TargetUnavailable` when the record is absent or belongs to
/// another component, with `UnauthorizedDelegation` when the proof does not
/// verify or claims another identity than the record's authority, and with
/// `InsufficientCapacity` when the changed payload needs more than was
/// reserved. On failure the store is unchanged.
pub fn invoke<T: Payload, M: Mutation<T>>(
    store: &mut Store<T>,
    target_component: &Identity,
    target_record: &Identity,
    operation: &M,
    delegation: &Delegation,
) -> (r: Result<Outcome, Error>)
    requires
        old(store).wf(),
    ensures
        final(store).wf(),
        r == invoke_spec(*old(store), target_component@, target_record@, operation, delegation@),
        final(store).addresses() == old(store).addresses(),
        r is Ok ==> final(store).records() == old(store).records().update(
            old(store).slot_of(target_record@),
            with_payload(
                old(store).record_at(target_record@),
                operation.applied(old(store).record_at(target_record@).payload),
            ),
        ),
        r is Err ==> *final(store) == *old(store),
{
    let handle = match authorize(store, target_component, target_record, delegation) {
        Ok(h) => h,
        Err(e) => {
            return Err(e);
        },
    };
    let next = operation.apply(&store.record(handle).payload);
    match store.put(handle, next) {
        Ok(()) => Ok(Outcome { target: handle }),
        Err(e) => Err(e),
    }
}

/// A delegated invocation from the caller's side: presents the capability
/// with the bump that the caller of the component supplied, and invokes.
///
/// A bump other than the persisted one fails with `UnauthorizedDelegation`
/// before the callee is reached; the callee's failures are passed on as
/// they are.
pub fn delegate_invoke<T: Payload, M: Mutation<T>>(
    store: &mut Store<T>,
    capability: &Capability,
    bump: u8,
    target_component: &Identity,
    target_record: &Identity,
    operation: &M,
) -> (r: Result<Outcome, Error>)
    requires
        old(store).wf(),
    ensures
        final(store).wf(),
        r == delegate_invoke_spec(
            *old(store),
            *capability,
            bump,
            target_component@,
            target_record@,
            operation,
        ),
        final(store).addresses() == old(store).addresses(),
        r is Ok ==> final(store).records() == old(store).records().update(
            old(store).slot_of(target_record@),
            with_payload(
                old(store).record_at(target_record@),
                operation.applied(old(store).record_at(target_record@).payload),
            ),
        ),
        r is Err ==> *final(store) == *old(store),
{
    match capability.delegation(bump) {
        Ok(delegation) => invoke(store, target_component, target_record, operation, &delegation),
        Err(e) => Err(e),
    }
}

} // verus!

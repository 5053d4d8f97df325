//! The record store: keyed storage of typed records, each created once.
//!
//! The store is modelled by two sequences of equal length, in order of
//! creation: the addresses and the records that live at them.

use vstd::prelude::*;
use crate::error::Error;
use crate::identity::Identity;

verus! {

/// What a record can hold: a value that knows how much backing storage it needs.
pub trait Payload: Sized {
    /// Bytes of backing storage that the value needs.
    spec fn footprint(&self) -> nat;

    /// Whether the value has room in `capacity` bytes.
    fn fits(&self, capacity: usize) -> (b: bool)
        ensures
            b == (self.footprint() <= capacity),
    ;
}

/// A record of the store.
pub struct StateRecord<T> {
    /// The component that owns the record.
    pub owner_component: Identity,
    /// The identity whose holder may mutate the record.
    pub authority: Identity,
    /// What the record holds.
    pub payload: T,
    /// Bytes of backing storage reserved when the record was created.
    pub capacity: usize,
}

/// Names a record of a store by the order of its creation.
#[derive(Clone, Copy, Debug, PartialEq, Eq, Structural)]
pub struct RecordHandle {
    pub slot: usize,
}

struct Entry<T> {
    address: Identity,
    record: StateRecord<T>,
}

/// Keyed storage of records with payloads of type `T`.
pub struct Store<T> {
    entries: Vec<Entry<T>>,
}

/// The record `r` with another payload.
pub open spec fn with_payload<T>(r: StateRecord<T>, payload: T) -> StateRecord<T> {
    StateRecord {
        owner_component: r.owner_component,
        authority: r.authority,
        payload: payload,
        capacity: r.capacity,
    }
}

/// The record `r` under another authority.
pub open spec fn with_authority<T>(r: StateRecord<T>, authority: Identity) -> StateRecord<T> {
    StateRecord {
        owner_component: r.owner_component,
        authority: authority,
        payload: r.payload,
        capacity: r.capacity,
    }
}

/// What holds of every call `create_if_absent` of a record at `address`,
/// between the store before and the store after, and of its result `r`.
///
/// A success hands back the handle of the record at `address` and says
/// whether it was already present. If it was, the store is unchanged; if
/// not, the record was added behind the others. A failure leaves the store
/// unchanged, and happens only when the record was absent and its payload
/// needs more than its capacity.
pub open spec fn created_if_absent<T: Payload>(
    before: Store<T>,
    after: Store<T>,
    address: Seq<u8>,
    record: StateRecord<T>,
    r: Result<(RecordHandle, bool), Error>,
) -> bool {
    match r {
        Ok((h, present)) => {
            &&& present == before.contains(address)
            &&& after.handle_of(address) == Some(h)
            &&& after.holds(h)
            &&& after.slot_of(address) == h.slot
            &&& after.addresses()[h.slot as int] == address
            &&& present ==> after == before
            &&& !present ==> {
                &&& record.payload.footprint() <= record.capacity
                &&& after.addresses() == before.addresses().push(address)
                &&& after.records() == before.records().push(record)
            }
        },
        Err(e) => {
            &&& after == before
            &&& e == Error::InsufficientCapacity
            &&& !before.contains(address)
            &&& record.payload.footprint() > record.capacity
        },
    }
}

/// Creating a record if absent is idempotent: once a call for an address
/// has succeeded, a second call for it, with whatever payload, succeeds
/// too, reports the record as already present, hands back the same handle
/// and leaves the store, and so the record, as the first call left it.
pub proof fn lemma_create_if_absent_idempotent<T: Payload>(
    before: Store<T>,
    between: Store<T>,
    after: Store<T>,
    address: Seq<u8>,
    first_record: StateRecord<T>,
    second_record: StateRecord<T>,
    first: Result<(RecordHandle, bool), Error>,
    second: Result<(RecordHandle, bool), Error>,
)
    requires
        before.wf(),
        created_if_absent(before, between, address, first_record, first),
        created_if_absent(between, after, address, second_record, second),
        first is Ok,
    ensures
        second is Ok,
        second->Ok_0.1,
        second->Ok_0.0 == first->Ok_0.0,
        after == between,
        after.addresses().len() == between.addresses().len(),
        after.record_at(address) == between.record_at(address),
        !first->Ok_0.1 ==> after.record_at(address) == first_record,
{
    if !first->Ok_0.1 {
        before.lemma_created(between, address, first_record);
    }
}

impl<T: Payload> Store<T> {
    /// The addresses at which records live, in order of creation.
    pub closed spec fn addresses(&self) -> Seq<Seq<u8>> {
        Seq::new(self.entries@.len(), |i: int| self.entries@[i].address@)
    }

    /// The records, in order of creation.
    pub closed spec fn records(&self) -> Seq<StateRecord<T>> {
        Seq::new(self.entries@.len(), |i: int| self.entries@[i].record)
    }

    /// Well-formedness: one record per address, no address twice, and every
    /// payload within the capacity reserved for it.
    pub open spec fn wf(&self) -> bool {
        &&& self.addresses().len() == self.records().len()
        &&& self.addresses().no_duplicates()
        &&& forall|i: int|
            0 <= i < self.records().len() ==> (#[trigger] self.records()[i]).payload.footprint()
                <= self.records()[i].capacity
    }

    /// Whether a record lives at `address`.
    pub open spec fn contains(&self, address: Seq<u8>) -> bool {
        self.addresses().contains(address)
    }

    /// The slot of the record at `address`.
    pub open spec fn slot_of(&self, address: Seq<u8>) -> int {
        self.addresses().index_of(address)
    }

    /// The record at `address`.
    pub open spec fn record_at(&self, address: Seq<u8>) -> StateRecord<T> {
        self.records()[self.slot_of(address)]
    }

    /// The handle of the record at `address`, if one lives there.
    pub open spec fn handle_of(&self, address: Seq<u8>) -> Option<RecordHandle> {
        if self.contains(address) {
            Some(RecordHandle { slot: self.slot_of(address) as usize })
        } else {
            None
        }
    }

    /// The store as a map from addresses to records.
    pub open spec fn view(&self) -> Map<Seq<u8>, StateRecord<T>> {
        Map::new(|a: Seq<u8>| self.contains(a), |a: Seq<u8>| self.record_at(a))
    }

    /// Whether `handle` names a record of this store.
    pub open spec fn holds(&self, handle: RecordHandle) -> bool {
        handle.slot < self.records().len()
    }

    /// In a well-formed store an address has one slot only.
    pub proof fn lemma_slot_unique(&self, address: Seq<u8>, slot: int)
        requires
            self.wf(),
            0 <= slot < self.addresses().len(),
            self.addresses()[slot] == address,
        ensures
            self.contains(address),
            self.slot_of(address) == slot,
    {
        let chosen = self.addresses().index_of(address);
        assert(0 <= chosen < self.addresses().len() && self.addresses()[chosen] == address);
    }

    /// A record added behind the others is a new entry of the map; the other
    /// entries stay.
    pub proof fn lemma_created(&self, after: Store<T>, address: Seq<u8>, record: StateRecord<T>)
        requires
            self.wf(),
            !self.contains(address),
            after.addresses() == self.addresses().push(address),
            after.records() == self.records().push(record),
        ensures
            after@ == self@.insert(address, record),
            after.slot_of(address) == self.addresses().len(),
            forall|a: Seq<u8>| self.contains(a) ==> after.slot_of(a) == self.slot_of(a),
    {
        let n = self.addresses().len() as int;
        assert(after.addresses()[n] == address);
        assert forall|a: Seq<u8>| #[trigger] after.contains(a) implies (a == address
            || self.contains(a)) by {
            let i = after.addresses().index_of(a);
            if i < n {
                assert(self.addresses()[i] == a);
            }
        }
        assert forall|a: Seq<u8>| #[trigger] self.contains(a) implies after.contains(a)
            && after.slot_of(a) == self.slot_of(a) by {
            let i = self.addresses().index_of(a);
            assert(after.addresses()[i] == a);
            let j = after.addresses().index_of(a);
            if j < n {
                assert(self.addresses()[j] == a);
            }
        }
        assert(after.slot_of(address) == n) by {
            let j = after.addresses().index_of(address);
            if j < n {
                assert(self.addresses()[j] == address);
            }
        }
        assert(after@ =~= self@.insert(address, record));
    }

    /// A record replaced in its slot is a changed entry of the map; the
    /// other entries and all slots stay.
    pub proof fn lemma_replaced(&self, after: Store<T>, address: Seq<u8>, record: StateRecord<T>)
        requires
            self.wf(),
            self.contains(address),
            after.addresses() == self.addresses(),
            after.records() == self.records().update(self.slot_of(address), record),
        ensures
            after@ == self@.insert(address, record),
            forall|a: Seq<u8>| after.slot_of(a) == self.slot_of(a),
    {
        assert forall|a: Seq<u8>| self.contains(a) && a != address implies self.slot_of(a)
            != self.slot_of(address) by {}
        assert(after@ =~= self@.insert(address, record));
    }

    /// An empty store.
    pub fn new() -> (store: Store<T>)
        ensures
            store.wf(),
            store.addresses() == Seq::<Seq<u8>>::empty(),
            store.records() == Seq::<StateRecord<T>>::empty(),
            store@ == Map::<Seq<u8>, StateRecord<T>>::empty(),
    {
        let store = Store { entries: Vec::new() };
        assert(store@ =~= Map::<Seq<u8>, StateRecord<T>>::empty());
        assert(store.addresses() =~= Seq::<Seq<u8>>::empty());
        assert(store.records() =~= Seq::<StateRecord<T>>::empty());
        store
    }

    /// How many records the store holds.
    pub fn len(&self) -> (n: usize)
        ensures
            n == self.records().len(),
            n == self.addresses().len(),
    {
        self.entries.len()
    }

    /// The handle of the record at `address`, if one lives there.
    pub fn find(&self, address: &Identity) -> (r: Option<RecordHandle>)
        requires
            self.wf(),
        ensures
            r == self.handle_of(address@),
            r matches Some(h) ==> self.holds(h) && self.slot_of(address@) == h.slot
                && self.addresses()[h.slot as int] == address@,
    {
        let mut i: usize = 0;
        while i < self.entries.len()
            invariant
                i <= self.entries.len(),
                self.wf(),
                forall|k: int| 0 <= k < i ==> self.addresses()[k] != address@,
            decreases self.entries.len() - i,
        {
            if self.entries[i].address.same(address) {
                proof {
                    self.lemma_slot_unique(address@, i as int);
                }
                return Some(RecordHandle { slot: i });
            }
            i += 1;
        }
        None
    }

    /// The handle of the record at `address`, or `NotFound`.
    pub fn get_mut(&self, address: &Identity) -> (r: Result<RecordHandle, Error>)
        requires
            self.wf(),
        ensures
            r == match self.handle_of(address@) {
                Some(h) => Ok::<RecordHandle, Error>(h),
                None => Err::<RecordHandle, Error>(Error::NotFound),
            },
            r matches Ok(h) ==> self.holds(h) && self.slot_of(address@) == h.slot
                && self.addresses()[h.slot as int] == address@,
    {
        match self.find(address) {
            Some(h) => Ok(h),
            None => Err(Error::NotFound),
        }
    }

    /// The record that `handle` names.
    pub fn record(&self, handle: RecordHandle) -> (r: &StateRecord<T>)
        requires
            self.holds(handle),
        ensures
            *r == self.records()[handle.slot as int],
    {
        &self.entries[handle.slot].record
    }

    /// The address of the record that `handle` names.
    pub fn address_of(&self, handle: RecordHandle) -> (address: Identity)
        requires
            self.holds(handle),
        ensures
            address@ == self.addresses()[handle.slot as int],
    {
        self.entries[handle.slot].address
    }

    /// Creates a record at `address`, with `capacity` bytes reserved for it.
    ///
    /// Fails with `AlreadyExists` when a record lives there, and with
    /// `InsufficientCapacity` when the payload needs more than `capacity`.
    /// On failure the store is unchanged.
    pub fn create(
        &mut self,
        address: &Identity,
        owner_component: &Identity,
        authority: &Identity,
        payload: T,
        capacity: usize,
    ) -> (r: Result<RecordHandle, Error>)
        requires
            old(self).wf(),
        ensures
            final(self).wf(),
            match r {
                Ok(h) => {
                    &&& !old(self).contains(address@)
                    &&& payload.footprint() <= capacity
                    &&& h.slot == old(self).addresses().len()
                    &&& final(self).handle_of(address@) == Some(h)
                    &&& final(self).addresses() == old(self).addresses().push(address@)
                    &&& final(self).records() == old(self).records().push(
                        StateRecord {
                            owner_component: *owner_component,
                            authority: *authority,
                            payload: payload,
                            capacity: capacity,
                        },
                    )
                    &&& final(self)@ == old(self)@.insert(
                        address@,
                        StateRecord {
                            owner_component: *owner_component,
                            authority: *authority,
                            payload: payload,
                            capacity: capacity,
                        },
                    )
                },
                Err(e) => {
                    &&& *final(self) == *old(self)
                    &&& old(self).contains(address@) || payload.footprint() > capacity
                    &&& e == if old(self).contains(address@) {
                        Error::AlreadyExists
                    } else {
                        Error::InsufficientCapacity
                    }
                },
            },
    {
        if self.find(address).is_some() {
            return Err(Error::AlreadyExists);
        }
        if !payload.fits(capacity) {
            return Err(Error::InsufficientCapacity);
        }
        let slot = self.entries.len();
        let record = StateRecord {
            owner_component: *owner_component,
            authority: *authority,
            payload: payload,
            capacity: capacity,
        };
        self.entries.push(Entry { address: *address, record: record });
        proof {
            assert(final(self).addresses() =~= old(self).addresses().push(address@));
            assert(final(self).records() =~= old(self).records().push(record));
            old(self).lemma_created(*final(self), address@, record);
            assert(final(self).addresses()[slot as int] == address@);
        }
        Ok(RecordHandle { slot: slot })
    }

    /// Creates a record at `address` unless one lives there already.
    ///
    /// Returns the handle of the record at `address` and whether it was
    /// already present. An existing record is left as it is. Fails only
    /// with `InsufficientCapacity`, when the record is absent and the
    /// payload needs more than `capacity`.
    pub fn create_if_absent(
        &mut self,
        address: &Identity,
        owner_component: &Identity,
        authority: &Identity,
        payload: T,
        capacity: usize,
    ) -> (r: Result<(RecordHandle, bool), Error>)
        requires
            old(self).wf(),
        ensures
            final(self).wf(),
            created_if_absent(
                *old(self),
                *final(self),
                address@,
                StateRecord {
                    owner_component: *owner_component,
                    authority: *authority,
                    payload: payload,
                    capacity: capacity,
                },
                r,
            ),
    {
        match self.find(address) {
            Some(h) => Ok((h, true)),
            None => {
                match self.create(address, owner_component, authority, payload, capacity) {
                    Ok(h) => Ok((h, false)),
                    Err(e) => Err(e),
                }
            },
        }
    }

    /// Replaces the payload of the record that `handle` names.
    ///
    /// Fails with `InsufficientCapacity`, leaving the store unchanged, when
    /// the payload needs more than was reserved for the record.
    pub(crate) fn put(&mut self, handle: RecordHandle, payload: T) -> (r: Result<(), Error>)
        requires
            old(self).wf(),
            old(self).holds(handle),
        ensures
            final(self).wf(),
            final(self).addresses() == old(self).addresses(),
            match r {
                Ok(()) => {
                    &&& payload.footprint() <= old(self).records()[handle.slot as int].capacity
                    &&& final(self).records() == old(self).records().update(
                        handle.slot as int,
                        with_payload(old(self).records()[handle.slot as int], payload),
                    )
                    &&& final(self)@ == old(self)@.insert(
                        old(self).addresses()[handle.slot as int],
                        with_payload(old(self).records()[handle.slot as int], payload),
                    )
                    &&& forall|a: Seq<u8>| final(self).slot_of(a) == old(self).slot_of(a)
                },
                Err(e) => {
                    &&& e == Error::InsufficientCapacity
                    &&& payload.footprint() > old(self).records()[handle.slot as int].capacity
                    &&& *final(self) == *old(self)
                },
            },
    {
        let slot = handle.slot;
        let capacity = self.entries[slot].record.capacity;
        if !payload.fits(capacity) {
            return Err(Error::InsufficientCapacity);
        }
        let entry = Entry {
            address: self.entries[slot].address,
            record: StateRecord {
                owner_component: self.entries[slot].record.owner_component,
                authority: self.entries[slot].record.authority,
                payload: payload,
                capacity: capacity,
            },
        };
        self.entries.set(slot, entry);
        proof {
            assert(final(self).addresses() =~= old(self).addresses());
            assert(final(self).records() =~= old(self).records().update(
                slot as int,
                with_payload(old(self).records()[slot as int], payload),
            ));
            old(self).lemma_slot_unique(old(self).addresses()[slot as int], slot as int);
            old(self).lemma_replaced(
                *final(self),
                old(self).addresses()[slot as int],
                with_payload(old(self).records()[slot as int], payload),
            );
        }
        Ok(())
    }

    /// Puts the record that `handle` names under another authority.
    pub(crate) fn set_authority(&mut self, handle: RecordHandle, authority: &Identity) where
        T: Copy,

        requires
            old(self).wf(),
            old(self).holds(handle),
        ensures
            final(self).wf(),
            final(self).addresses() == old(self).addresses(),
            final(self).records() == old(self).records().update(
                handle.slot as int,
                with_authority(old(self).records()[handle.slot as int], *authority),
            ),
    {
        let slot = handle.slot;
        let entry = Entry {
            address: self.entries[slot].address,
            record: StateRecord {
                owner_component: self.entries[slot].record.owner_component,
                authority: *authority,
                payload: self.entries[slot].record.payload,
                capacity: self.entries[slot].record.capacity,
            },
        };
        self.entries.set(slot, entry);
        proof {
            assert(final(self).addresses() =~= old(self).addresses());
            assert(final(self).records() =~= old(self).records().update(
                slot as int,
                with_authority(old(self).records()[slot as int], *authority),
            ));
        }
    }
}

} // verus!

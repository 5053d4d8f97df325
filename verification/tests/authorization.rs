use derived_authority::deriver::off_key_space;
use derived_authority::error::Error;
use derived_authority::guard::{
    check, create_record, create_record_if_absent, mutate_record, prove_control,
    reassign_authority, Delegation, DelegationProof,
};
use derived_authority::hello_world::MyAccount;
use derived_authority::identity::{Identity, Signer};
use derived_authority::puppet::{Data, SetValue, DATA_SPACE};
use derived_authority::store::{RecordHandle, StateRecord, Store};

fn id(n: u8) -> Identity {
    Identity::new([n; 32])
}

fn wallet(n: u8) -> Identity {
    let mut bytes = [0u8; 32];
    bytes[0] = n;
    for k in 0..=255u8 {
        bytes[1] = k;
        let candidate = Identity::new(bytes);
        if !off_key_space(&candidate) {
            return candidate;
        }
    }
    panic!("no key found");
}

fn record_under(authority: Identity) -> StateRecord<Data> {
    StateRecord {
        owner_component: id(9),
        authority,
        payload: Data { data: 0, authority },
        capacity: DATA_SPACE,
    }
}

fn delegation_for(caller: Identity, seed: u8) -> Delegation {
    let seeds = vec![vec![seed; 32]];
    let (identity, bump) =
        derived_authority::deriver::derive(&caller, b"master", &seeds).unwrap();
    Delegation {
        caller,
        proof: DelegationProof {
            label: b"master".to_vec(),
            seeds,
            bump,
            claimed_identity: identity,
        },
    }
}

#[test]
fn check_accepts_the_signing_authority() {
    let owner = wallet(1);
    let record = record_under(owner);
    assert_eq!(check(&record, &Signer { key: owner, signed: true }, None), Ok(()));
}

#[test]
fn check_rejects_an_unsigned_authority() {
    let owner = wallet(1);
    let record = record_under(owner);
    assert_eq!(
        check(&record, &Signer { key: owner, signed: false }, None),
        Err(Error::Unauthorized)
    );
}

#[test]
fn check_rejects_a_mismatched_identity() {
    let owner = wallet(1);
    let other = wallet(2);
    assert_ne!(owner, other);
    let record = record_under(owner);
    assert_eq!(
        check(&record, &Signer { key: other, signed: true }, None),
        Err(Error::Unauthorized)
    );
    let delegation = delegation_for(id(7), 1);
    let claimed = delegation.proof.claimed_identity;
    assert_eq!(
        check(&record, &Signer { key: claimed, signed: false }, Some(&delegation)),
        Err(Error::Unauthorized)
    );
}

#[test]
fn check_accepts_a_valid_delegation() {
    let delegation = delegation_for(id(7), 1);
    let claimed = delegation.proof.claimed_identity;
    let record = record_under(claimed);
    assert_eq!(
        check(&record, &Signer { key: claimed, signed: false }, Some(&delegation)),
        Ok(())
    );
}

#[test]
fn check_rejects_a_signature_for_a_derived_identity() {
    let delegation = delegation_for(id(7), 1);
    let derived = delegation.proof.claimed_identity;
    assert!(off_key_space(&derived));
    let record = record_under(derived);
    assert_eq!(
        check(&record, &Signer { key: derived, signed: true }, None),
        Err(Error::Unauthorized)
    );
}

#[test]
fn check_rejects_a_delegation_from_another_caller() {
    let mut delegation = delegation_for(id(7), 1);
    let claimed = delegation.proof.claimed_identity;
    delegation.caller = id(8);
    let record = record_under(claimed);
    assert_eq!(
        check(&record, &Signer { key: claimed, signed: false }, Some(&delegation)),
        Err(Error::Unauthorized)
    );
}

#[test]
fn check_rejects_a_delegation_with_another_bump_or_seed() {
    let good = delegation_for(id(7), 1);
    let claimed = good.proof.claimed_identity;
    let record = record_under(claimed);
    let mut bumped = delegation_for(id(7), 1);
    bumped.proof.bump = bumped.proof.bump.wrapping_sub(1);
    assert_eq!(
        check(&record, &Signer { key: claimed, signed: false }, Some(&bumped)),
        Err(Error::Unauthorized)
    );
    let mut reseeded = delegation_for(id(7), 1);
    reseeded.proof.seeds = vec![vec![2u8; 32]];
    assert_eq!(
        check(&record, &Signer { key: claimed, signed: false }, Some(&reseeded)),
        Err(Error::Unauthorized)
    );
}

#[test]
fn check_rejects_a_delegation_that_claims_another_identity() {
    let delegation = delegation_for(id(7), 1);
    let other = delegation_for(id(7), 2);
    let asserted = other.proof.claimed_identity;
    let record = record_under(asserted);
    assert_eq!(
        check(&record, &Signer { key: asserted, signed: false }, Some(&delegation)),
        Err(Error::Unauthorized)
    );
}

#[test]
fn mutate_record_changes_only_when_authorized() {
    let owner = wallet(1);
    let mut store: Store<Data> = Store::new();
    store.create(&id(1), &id(9), &owner, Data { data: 0, authority: owner }, DATA_SPACE).unwrap();
    let denied = mutate_record(
        &mut store,
        &id(1),
        &Signer { key: owner, signed: false },
        None,
        &SetValue { data: 5 },
    );
    assert_eq!(denied, Err(Error::Unauthorized));
    assert_eq!(store.record(store.find(&id(1)).unwrap()).payload.data, 0);
    let granted = mutate_record(
        &mut store,
        &id(1),
        &Signer { key: owner, signed: true },
        None,
        &SetValue { data: 5 },
    );
    assert_eq!(granted, Ok(()));
    assert_eq!(store.record(store.find(&id(1)).unwrap()).payload.data, 5);
    assert_eq!(store.record(store.find(&id(1)).unwrap()).payload.authority, owner);
}

#[test]
fn mutate_record_reports_not_found() {
    let owner = wallet(1);
    let mut store: Store<Data> = Store::new();
    let missing = mutate_record(
        &mut store,
        &id(1),
        &Signer { key: owner, signed: true },
        None,
        &SetValue { data: 5 },
    );
    assert_eq!(missing, Err(Error::NotFound));
}

#[test]
fn reassign_authority_needs_the_present_authority() {
    let owner = wallet(1);
    let next = wallet(2);
    let mut store: Store<Data> = Store::new();
    store.create(&id(1), &id(9), &owner, Data { data: 0, authority: owner }, DATA_SPACE).unwrap();
    let denied = reassign_authority(
        &mut store,
        &id(1),
        &Signer { key: next, signed: true },
        None,
        &next,
    );
    assert_eq!(denied, Err(Error::Unauthorized));
    assert_eq!(store.record(store.find(&id(1)).unwrap()).authority, owner);
    let granted = reassign_authority(
        &mut store,
        &id(1),
        &Signer { key: owner, signed: true },
        None,
        &next,
    );
    assert_eq!(granted, Ok(()));
    assert_eq!(store.record(store.find(&id(1)).unwrap()).authority, next);
    let stale = reassign_authority(
        &mut store,
        &id(1),
        &Signer { key: owner, signed: true },
        None,
        &owner,
    );
    assert_eq!(stale, Err(Error::Unauthorized));
    let missing = reassign_authority(
        &mut store,
        &id(2),
        &Signer { key: next, signed: true },
        None,
        &owner,
    );
    assert_eq!(missing, Err(Error::NotFound));
}

#[test]
fn prove_control_by_signature_or_delegation() {
    let owner = wallet(1);
    assert!(prove_control(&Signer { key: owner, signed: true }, None));
    assert!(!prove_control(&Signer { key: owner, signed: false }, None));
    let delegation = delegation_for(id(7), 1);
    let derived = delegation.proof.claimed_identity;
    assert!(prove_control(&Signer { key: derived, signed: false }, Some(&delegation)));
    assert!(!prove_control(&Signer { key: derived, signed: true }, None));
    assert!(!prove_control(&Signer { key: owner, signed: false }, Some(&delegation)));
}

#[test]
fn create_record_lands_at_the_derived_address() {
    let owner = Signer { key: wallet(1), signed: true };
    let mut store: Store<MyAccount> = Store::new();
    let seeds = vec![vec![1u8, 2, 3]];
    let (expected, _) = derived_authority::deriver::derive(&id(9), b"account", &seeds).unwrap();
    let address = create_record(
        &mut store,
        &id(9),
        &owner,
        None,
        b"account",
        &seeds,
        MyAccount { data: 1 },
        16,
    )
    .unwrap();
    assert_eq!(address, expected);
    assert_eq!(store.get_mut(&address), Ok(RecordHandle { slot: 0 }));
    let record = store.record(RecordHandle { slot: 0 });
    assert_eq!(record.authority, owner.key);
    assert_eq!(record.owner_component, id(9));
    assert_eq!(record.payload, MyAccount { data: 1 });
    let again = create_record(
        &mut store,
        &id(9),
        &owner,
        None,
        b"account",
        &seeds,
        MyAccount { data: 1 },
        16,
    );
    assert_eq!(again, Err(Error::AlreadyExists));
}

#[test]
fn create_record_reports_each_failure() {
    let owner = Signer { key: wallet(1), signed: true };
    let mut store: Store<MyAccount> = Store::new();
    let long = vec![vec![0u8; 33]];
    assert_eq!(
        create_record(&mut store, &id(9), &owner, None, b"account", &long, MyAccount { data: 1 }, 16),
        Err(Error::DerivationExhausted)
    );
    let seeds = vec![vec![1u8]];
    assert_eq!(
        create_record(&mut store, &id(9), &owner, None, b"account", &seeds, MyAccount { data: 1 }, 15),
        Err(Error::InsufficientCapacity)
    );
    let unsigned = Signer { key: owner.key, signed: false };
    assert_eq!(
        create_record(
            &mut store,
            &id(9),
            &unsigned,
            None,
            b"account",
            &seeds,
            MyAccount { data: 1 },
            16
        ),
        Err(Error::Unauthorized)
    );
    assert_eq!(store.len(), 0);
}

#[test]
fn no_record_is_created_under_a_derived_identity_without_its_proof() {
    let delegation = delegation_for(id(7), 1);
    let derived = Signer { key: delegation.proof.claimed_identity, signed: true };
    let mut store: Store<MyAccount> = Store::new();
    let seeds = vec![vec![1u8]];
    assert_eq!(
        create_record(&mut store, &id(9), &derived, None, b"account", &seeds, MyAccount { data: 1 }, 16),
        Err(Error::Unauthorized)
    );
    let other = delegation_for(id(7), 2);
    assert_eq!(
        create_record(
            &mut store,
            &id(9),
            &derived,
            Some(&other),
            b"account",
            &seeds,
            MyAccount { data: 1 },
            16
        ),
        Err(Error::Unauthorized)
    );
    let address = create_record(
        &mut store,
        &id(9),
        &derived,
        Some(&delegation),
        b"account",
        &seeds,
        MyAccount { data: 1 },
        16,
    )
    .unwrap();
    assert_eq!(store.record(store.find(&address).unwrap()).authority, derived.key);
}

#[test]
fn records_of_different_labels_do_not_collide() {
    let owner = Signer { key: wallet(1), signed: true };
    let mut store: Store<MyAccount> = Store::new();
    let seeds = vec![vec![1u8, 2, 3]];
    let blog =
        create_record(&mut store, &id(9), &owner, None, b"blog", &seeds, MyAccount { data: 1 }, 16)
            .unwrap();
    let post =
        create_record(&mut store, &id(9), &owner, None, b"post", &seeds, MyAccount { data: 2 }, 16)
            .unwrap();
    assert_ne!(blog, post);
    assert_eq!(store.len(), 2);
}

#[test]
fn create_record_if_absent_twice_gives_the_same_record() {
    let owner = Signer { key: wallet(1), signed: true };
    let mut store: Store<MyAccount> = Store::new();
    let seeds = vec![vec![4u8; 32]];
    let first = create_record_if_absent(
        &mut store,
        &id(9),
        &owner,
        None,
        b"account",
        &seeds,
        MyAccount { data: 3 },
        16,
    )
    .unwrap();
    let second = create_record_if_absent(
        &mut store,
        &id(9),
        &owner,
        None,
        b"account",
        &seeds,
        MyAccount { data: 3 },
        16,
    )
    .unwrap();
    assert_eq!(first.0, second.0);
    assert!(!first.1);
    assert!(second.1);
    assert_eq!(store.len(), 1);
    let handle = store.find(&first.0).unwrap();
    assert_eq!(store.record(handle).payload, MyAccount { data: 3 });
}

#[test]
fn create_record_if_absent_reports_each_failure() {
    let owner = Signer { key: wallet(1), signed: true };
    let mut store: Store<MyAccount> = Store::new();
    let seeds = vec![vec![4u8; 32]];
    let with = |store: &mut Store<MyAccount>, asserted: &Signer, seeds: &Vec<Vec<u8>>, room: usize| {
        create_record_if_absent(
            store,
            &id(9),
            asserted,
            None,
            b"account",
            seeds,
            MyAccount { data: 3 },
            room,
        )
    };
    let unsigned = Signer { key: owner.key, signed: false };
    assert_eq!(with(&mut store, &unsigned, &seeds, 16), Err(Error::Unauthorized));
    assert_eq!(with(&mut store, &owner, &vec![vec![0u8; 33]], 16), Err(Error::DerivationExhausted));
    assert_eq!(with(&mut store, &owner, &seeds, 15), Err(Error::InsufficientCapacity));
    assert_eq!(store.len(), 0);
}

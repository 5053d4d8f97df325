use derived_authority::deriver::off_key_space;
use derived_authority::error::Error;
use derived_authority::hello_world::{
    account_label_bytes, decrease, increase, initialize, ErrorCode, Initialize, MyAccount, Update,
    MY_ACCOUNT_SPACE,
};
use derived_authority::identity::{Identity, Signer};
use derived_authority::request::{require_bound, require_signature, Context};
use derived_authority::store::Store;

fn program() -> Identity {
    Identity::new([0xC0; 32])
}

fn user(n: u8) -> Identity {
    let mut bytes = [0u8; 32];
    bytes[0] = n;
    for k in 0..=255u8 {
        bytes[1] = k;
        let candidate = Identity::new(bytes);
        if !off_key_space(&candidate) {
            return candidate;
        }
    }
    panic!("no key found");
}

fn counter_address(authority: &Identity) -> Identity {
    derived_authority::deriver::derive(&program(), b"account", &vec![authority.to_vec()])
        .unwrap()
        .0
}

fn update(authority: &Identity) -> Context<Update> {
    Context {
        program_id: program(),
        accounts: Update {
            my_account: counter_address(authority),
            authority: Signer { key: *authority, signed: true },
        },
    }
}

fn counter_of(authority: &Identity) -> Store<MyAccount> {
    let mut store: Store<MyAccount> = Store::new();
    let ctx = Context {
        program_id: program(),
        accounts: Initialize {
            authority: Signer { key: *authority, signed: true },
            my_account: counter_address(authority),
        },
    };
    assert_eq!(initialize(&mut store, &ctx), Ok(()));
    store
}

fn value(store: &Store<MyAccount>, authority: &Identity) -> u64 {
    store.record(store.find(&counter_address(authority)).unwrap()).payload.data
}

#[test]
fn initialize_starts_at_zero() {
    let owner = user(1);
    let store = counter_of(&owner);
    let record = store.record(store.find(&counter_address(&owner)).unwrap());
    assert_eq!(record.payload, MyAccount { data: 0 });
    assert_eq!(record.authority, owner);
    assert_eq!(record.owner_component, program());
    assert_eq!(record.capacity, MY_ACCOUNT_SPACE);
    assert_eq!(MY_ACCOUNT_SPACE, 16);
}

#[test]
fn initialize_reports_each_failure() {
    let owner = user(1);
    let mut store = counter_of(&owner);
    let ctx = |signed: bool, my_account: Identity| Context {
        program_id: program(),
        accounts: Initialize { authority: Signer { key: owner, signed }, my_account },
    };
    assert_eq!(
        initialize(&mut store, &ctx(true, counter_address(&owner))),
        Err(Error::AlreadyExists)
    );
    assert_eq!(
        initialize(&mut store, &ctx(false, counter_address(&owner))),
        Err(Error::Unauthorized)
    );
    assert_eq!(
        initialize(&mut store, &ctx(true, counter_address(&user(2)))),
        Err(Error::Unauthorized)
    );
    assert_eq!(store.len(), 1);
}

#[test]
fn increase_adds_one() {
    let owner = user(1);
    let mut store = counter_of(&owner);
    assert_eq!(increase(&mut store, &update(&owner)), Ok(()));
    assert_eq!(increase(&mut store, &update(&owner)), Ok(()));
    assert_eq!(value(&store, &owner), 2);
}

#[test]
fn increase_at_the_top_overflows() {
    let owner = user(1);
    let mut store = counter_of(&owner);
    assert_eq!(derived_authority::hello_world::set(&mut store, &update(&owner), u64::MAX), Ok(()));
    assert_eq!(increase(&mut store, &update(&owner)), Err(Error::ArithmeticOverflow));
    assert_eq!(value(&store, &owner), u64::MAX);
}

#[test]
fn decrease_takes_one() {
    let owner = user(1);
    let mut store = counter_of(&owner);
    assert_eq!(derived_authority::hello_world::set(&mut store, &update(&owner), 10), Ok(()));
    assert_eq!(decrease(&mut store, &update(&owner)), Ok(()));
    assert_eq!(value(&store, &owner), 9);
}

#[test]
fn decrease_at_zero_is_below_zero() {
    let owner = user(1);
    let mut store = counter_of(&owner);
    assert_eq!(
        decrease(&mut store, &update(&owner)),
        Err(Error::Component(ErrorCode::BelowZero))
    );
    assert_eq!(value(&store, &owner), 0);
}

#[test]
fn set_replaces_the_value() {
    let owner = user(1);
    let mut store = counter_of(&owner);
    assert_eq!(derived_authority::hello_world::set(&mut store, &update(&owner), 77), Ok(()));
    assert_eq!(value(&store, &owner), 77);
}

#[test]
fn update_needs_the_authority() {
    let owner = user(1);
    let other = user(2);
    let mut store = counter_of(&owner);
    let unsigned = Context {
        program_id: program(),
        accounts: Update {
            my_account: counter_address(&owner),
            authority: Signer { key: owner, signed: false },
        },
    };
    assert_eq!(increase(&mut store, &unsigned), Err(Error::Unauthorized));
    let foreign = Context {
        program_id: program(),
        accounts: Update {
            my_account: counter_address(&owner),
            authority: Signer { key: other, signed: true },
        },
    };
    assert_eq!(derived_authority::hello_world::set(&mut store, &foreign, 5), Err(Error::Unauthorized));
    assert_eq!(decrease(&mut store, &update(&other)), Err(Error::NotFound));
    assert_eq!(value(&store, &owner), 0);
}

#[test]
fn each_authority_has_its_own_counter() {
    let first = user(1);
    let second = user(2);
    let mut store = counter_of(&first);
    let ctx = Context {
        program_id: program(),
        accounts: Initialize {
            authority: Signer { key: second, signed: true },
            my_account: counter_address(&second),
        },
    };
    assert_eq!(initialize(&mut store, &ctx), Ok(()));
    assert_eq!(derived_authority::hello_world::set(&mut store, &update(&second), 8), Ok(()));
    assert_eq!(value(&store, &first), 0);
    assert_eq!(value(&store, &second), 8);
}

#[test]
fn require_signature_wants_a_signed_key_inside_key_space() {
    let owner = user(1);
    assert_eq!(require_signature(&Signer { key: owner, signed: true }), Ok(()));
    assert_eq!(require_signature(&Signer { key: owner, signed: false }), Err(Error::Unauthorized));
    let derived = counter_address(&owner);
    assert_eq!(require_signature(&Signer { key: derived, signed: true }), Err(Error::Unauthorized));
}

#[test]
fn require_bound_hands_back_the_bump() {
    let owner = user(1);
    let seeds = vec![owner.to_vec()];
    let (address, bump) =
        derived_authority::deriver::derive(&program(), b"account", &seeds).unwrap();
    assert_eq!(require_bound(&program(), b"account", &seeds, &address), Ok(bump));
    assert_eq!(require_bound(&program(), b"account", &seeds, &owner), Err(Error::Unauthorized));
    assert_eq!(
        require_bound(&program(), b"account", &vec![vec![0u8; 33]], &address),
        Err(Error::DerivationExhausted)
    );
}

#[test]
fn account_label_spells_account() {
    assert_eq!(account_label_bytes(), b"account".to_vec());
}

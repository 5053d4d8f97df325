use std::str::FromStr;

use anchor_lang::prelude::Pubkey;
use derived_authority::deriver::{
    copy_seeds, last_candidate, matches_candidate, off_key_space, recompute, verify, SeedFault,
};
use derived_authority::error::Error;
use derived_authority::identity::Identity;

fn identity_of(text: &str) -> Identity {
    Identity::new(Pubkey::from_str(text).unwrap().to_bytes())
}

fn loader() -> Identity {
    identity_of("BPFLoaderUpgradeab1e11111111111111111111111")
}

#[test]
fn derive_is_deterministic() {
    let owner = Identity::new([7u8; 32]);
    let seeds = vec![vec![1u8, 2, 3], vec![4u8; 32]];
    let first = derived_authority::deriver::derive(&owner, b"master", &seeds).unwrap();
    let second = derived_authority::deriver::derive(&owner, b"master", &seeds).unwrap();
    assert_eq!(first.0, second.0);
    assert_eq!(first.1, second.1);
}

#[test]
fn derive_agrees_with_the_address_search() {
    let owner = Identity::new([9u8; 32]);
    let seeds = vec![vec![5u8; 32]];
    let (identity, bump) = derived_authority::deriver::derive(&owner, b"puppet", &seeds).unwrap();
    let (expected, expected_bump) = Pubkey::find_program_address(
        &[b"puppet", &[5u8; 32]],
        &Pubkey::new_from_array([9u8; 32]),
    );
    assert_eq!(identity.to_bytes(), expected.to_bytes());
    assert_eq!(bump, expected_bump);
    assert_ne!(identity.to_bytes(), owner.to_bytes());
}

#[test]
fn derived_identity_is_off_key_space() {
    let owner = Identity::new([3u8; 32]);
    let (identity, _) = derived_authority::deriver::derive(&owner, b"blog", &vec![]).unwrap();
    assert!(off_key_space(&identity));
}

#[test]
fn key_space_holds_the_base_point() {
    let mut bytes = [0x66u8; 32];
    bytes[0] = 0x58;
    assert!(!off_key_space(&Identity::new(bytes)));
}

#[test]
fn recompute_gives_the_known_address() {
    let created = recompute(&loader(), b"", &vec![], 1).unwrap();
    assert_eq!(created, identity_of("BwqrghZA2htAcqq8dzP1WDAhTXYTYWj7CHxF5j7TDBAe"));
}

#[test]
fn recompute_rejects_a_seed_of_33_bytes() {
    let seeds = vec![vec![127u8; 33]];
    assert_eq!(recompute(&loader(), b"short_seed", &seeds, 0), Err(SeedFault::TooLong));
}

#[test]
fn recompute_rejects_17_seeds() {
    let seeds: Vec<Vec<u8>> = (0..15u8).map(|i| vec![i]).collect();
    assert_eq!(recompute(&loader(), b"x", &seeds, 0), Err(SeedFault::TooLong));
    let fewer: Vec<Vec<u8>> = (0..14u8).map(|i| vec![i]).collect();
    assert_ne!(recompute(&loader(), b"x", &fewer, 0), Err(SeedFault::TooLong));
}

#[test]
fn derive_fails_on_too_many_seeds() {
    let owner = Identity::new([1u8; 32]);
    let seeds: Vec<Vec<u8>> = (0..15u8).map(|i| vec![i]).collect();
    assert_eq!(
        derived_authority::deriver::derive(&owner, b"x", &seeds),
        Err(Error::DerivationExhausted)
    );
    let fewer: Vec<Vec<u8>> = (0..14u8).map(|i| vec![i]).collect();
    assert!(derived_authority::deriver::derive(&owner, b"x", &fewer).is_ok());
}

#[test]
fn derive_fails_on_a_long_seed() {
    let owner = Identity::new([1u8; 32]);
    assert_eq!(
        derived_authority::deriver::derive(&owner, b"x", &vec![vec![0u8; 33]]),
        Err(Error::DerivationExhausted)
    );
}

#[test]
fn verify_accepts_what_derive_returned() {
    let owner = Identity::new([11u8; 32]);
    let seeds = vec![vec![1u8; 32]];
    let (identity, bump) = derived_authority::deriver::derive(&owner, b"master", &seeds).unwrap();
    assert!(verify(&owner, b"master", &seeds, bump, &identity));
}

#[test]
fn verify_rejects_another_bump_label_seed_owner_or_candidate() {
    let owner = Identity::new([11u8; 32]);
    let seeds = vec![vec![1u8; 32]];
    let (identity, bump) = derived_authority::deriver::derive(&owner, b"master", &seeds).unwrap();
    assert!(!verify(&owner, b"master", &seeds, bump.wrapping_sub(1), &identity));
    assert!(!verify(&owner, b"puppet", &seeds, bump, &identity));
    assert!(!verify(&owner, b"master", &vec![vec![2u8; 32]], bump, &identity));
    assert!(!verify(&Identity::new([12u8; 32]), b"master", &seeds, bump, &identity));
    assert!(!verify(&owner, b"master", &seeds, bump, &Identity::new([1u8; 32])));
}

#[test]
fn last_candidate_is_bump_zero_or_exhaustion() {
    assert_eq!(last_candidate(Err(SeedFault::OnCurve)), Err(Error::DerivationExhausted));
    assert_eq!(last_candidate(Err(SeedFault::TooLong)), Err(Error::DerivationExhausted));
    let id = Identity::new([4u8; 32]);
    assert_eq!(last_candidate(Ok(id)), Ok((id, 0u8)));
}

#[test]
fn derive_takes_the_greatest_bump_that_recomputes() {
    let owner = Identity::new([21u8; 32]);
    let seeds = vec![vec![8u8; 8]];
    let (identity, bump) = derived_authority::deriver::derive(&owner, b"first", &seeds).unwrap();
    assert_eq!(recompute(&owner, b"first", &seeds, bump), Ok(identity));
    for greater in bump.saturating_add(1)..=255u8 {
        if greater > bump {
            assert_eq!(recompute(&owner, b"first", &seeds, greater), Err(SeedFault::OnCurve));
        }
    }
}

#[test]
fn seeds_are_hashed_as_one_run_of_bytes() {
    let owner = Identity::new([22u8; 32]);
    let one = derived_authority::deriver::derive(&owner, b"ab", &vec![b"c".to_vec()]).unwrap();
    let other = derived_authority::deriver::derive(&owner, b"a", &vec![b"bc".to_vec()]).unwrap();
    assert_eq!(one, other);
}

#[test]
fn matches_candidate_compares_bytes() {
    let id = Identity::new([4u8; 32]);
    assert!(matches_candidate(&Ok(id), &Identity::new([4u8; 32])));
    assert!(!matches_candidate(&Ok(id), &Identity::new([5u8; 32])));
    assert!(!matches_candidate(&Err(SeedFault::OnCurve), &id));
}

#[test]
fn copy_seeds_copies() {
    let seeds = vec![vec![1u8, 2], vec![], vec![3u8]];
    assert_eq!(copy_seeds(&seeds), seeds);
}

#[test]
fn identity_sentinel_and_bytes() {
    assert!(Identity::zero().is_zero());
    assert!(!Identity::new([1u8; 32]).is_zero());
    assert_eq!(Identity::new([2u8; 32]).to_vec(), vec![2u8; 32]);
    assert!(Identity::new([2u8; 32]).same(&Identity::new([2u8; 32])));
    assert!(!Identity::new([2u8; 32]).same(&Identity::new([3u8; 32])));
}

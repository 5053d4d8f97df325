//! Address derivation: from a label and seeds to an identity that no private
//! key controls, and the check that recomputes one.
//!
//! The derivation is a one-way, collision-probed mapping. One step of it,
//! from a list of seeds to an address, is computed by `solana_pubkey` and
//! named here, not restated. The search over the bumps is stated in full:
//! it counts down from the greatest bump to zero and takes the first bump
//! whose address lies off the curve.
//!
//! The seeds of a list are hashed as one run of bytes, so two lists with the
//! same bytes in another division derive the same address.

use vstd::prelude::*;
use vstd::slice::slice_to_vec;
use anchor_lang::prelude::Pubkey;
use anchor_lang::solana_program::pubkey::PubkeyError;
use crate::error::Error;
use crate::identity::Identity;

verus! {

/// Most seeds a derivation takes, the bump included.
pub const MAX_SEEDS: usize = 16;

/// Most bytes a single seed may have.
pub const MAX_SEED_LEN: usize = 32;

/// What `Pubkey::create_program_address` makes of a list of seeds under an
/// owner's address: the derived address, or `None` where it reports an error.
pub uninterp spec fn created_address(seeds: Seq<Seq<u8>>, owner: Seq<u8>) -> Option<Seq<u8>>;

/// What `Pubkey::is_on_curve` says of 32 bytes: whether they encode a point of
/// the curve. The public key of every private key does; bytes that do not
/// are outside key space.
pub uninterp spec fn on_curve(bytes: Seq<u8>) -> bool;

/// Why `Pubkey::create_program_address` gave no address.
#[derive(Clone, Copy, Debug, PartialEq, Eq, Structural)]
pub enum SeedFault {
    /// Too many seeds, or a seed of too many bytes.
    TooLong,
    /// The seeds lead to a point of the curve.
    OnCurve,
    /// The owner may not derive addresses.
    IllegalOwner,
}

/// The byte sequences of a list of seeds.
pub open spec fn views(seeds: Seq<Vec<u8>>) -> Seq<Seq<u8>> {
    Seq::new(seeds.len(), |i: int| seeds[i]@)
}

/// The seeds of a derivation: the label first, then the caller's seeds.
pub open spec fn seed_list(label: Seq<u8>, seeds: Seq<Seq<u8>>) -> Seq<Seq<u8>> {
    seq![label] + seeds
}

/// The seeds that recompute a derived identity: those of the derivation,
/// then the bump as a seed of one byte.
pub open spec fn signer_seeds(label: Seq<u8>, seeds: Seq<Seq<u8>>, bump: u8) -> Seq<Seq<u8>> {
    seed_list(label, seeds).push(seq![bump])
}

/// Whether a list has at most `limit` seeds, each of at most `MAX_SEED_LEN` bytes.
pub open spec fn seeds_fit(list: Seq<Seq<u8>>, limit: int) -> bool {
    &&& list.len() <= limit
    &&& forall|i: int| 0 <= i < list.len() ==> (#[trigger] list[i]).len() <= MAX_SEED_LEN
}

/// A list of seeds followed by a bump, as a seed of one byte.
pub open spec fn with_bump(list: Seq<Seq<u8>>, bump: u8) -> Seq<Seq<u8>> {
    list.push(seq![bump])
}

/// The address that a list of seeds derives under an owner's address with
/// a given bump, if it derives one.
pub open spec fn derives(owner: Seq<u8>, list: Seq<Seq<u8>>, bump: u8) -> Option<Seq<u8>> {
    created_address(with_bump(list, bump), owner)
}

/// Whether `bump` is the first that derives an address, counting down from
/// the greatest.
pub open spec fn first_candidate(owner: Seq<u8>, list: Seq<Seq<u8>>, bump: u8) -> bool {
    &&& derives(owner, list, bump) is Some
    &&& forall|b: u8| bump < b ==> (#[trigger] derives(owner, list, b)) is None
}

/// The identity and bump that a label and seeds derive under an owner's
/// address: those of the first candidate, if there is one.
pub open spec fn derive_spec(owner: Seq<u8>, label: Seq<u8>, seeds: Seq<Seq<u8>>) -> Option<
    (Seq<u8>, u8),
> {
    if exists|b: u8| first_candidate(owner, seed_list(label, seeds), b) {
        let bump = choose|b: u8| first_candidate(owner, seed_list(label, seeds), b);
        Some((derives(owner, seed_list(label, seeds), bump)->Some_0, bump))
    } else {
        None
    }
}

/// The identity that a label, seeds and a given bump recompute under an
/// owner's address, if they recompute one.
pub open spec fn recompute_spec(owner: Seq<u8>, label: Seq<u8>, seeds: Seq<Seq<u8>>, bump: u8)
    -> Option<Seq<u8>> {
    derives(owner, seed_list(label, seeds), bump)
}

/// What holds of every result `r` of a derivation.
///
/// A success is the derived identity with its bump. The identity is
/// recomputed by the same seeds with the bump, no greater bump recomputes
/// any, and it lies off the curve. A failure means that no bump derives an
/// address, which is certain when the seeds leave no room for a bump or one
/// of them is too long.
pub open spec fn derived(
    owner: Seq<u8>,
    label: Seq<u8>,
    seeds: Seq<Seq<u8>>,
    r: Result<(Identity, u8), Error>,
) -> bool {
    &&& match r {
        Ok((id, bump)) => {
            &&& derive_spec(owner, label, seeds) == Some((id@, bump))
            &&& recompute_spec(owner, label, seeds, bump) == Some(id@)
            &&& first_candidate(owner, seed_list(label, seeds), bump)
            &&& !on_curve(id@)
        },
        Err(e) => {
            &&& e == Error::DerivationExhausted
            &&& derive_spec(owner, label, seeds) is None
            &&& forall|b: u8| (#[trigger] recompute_spec(owner, label, seeds, b)) is None
        },
    }
    &&& !seeds_fit(seed_list(label, seeds), MAX_SEEDS - 1) ==> r is Err
}

/// No two bumps are both the first candidate.
pub proof fn lemma_first_candidate_unique(owner: Seq<u8>, list: Seq<Seq<u8>>, a: u8, b: u8)
    requires
        first_candidate(owner, list, a),
        first_candidate(owner, list, b),
    ensures
        a == b,
{
    if a < b {
        assert(derives(owner, list, b) is None);
    } else if b < a {
        assert(derives(owner, list, a) is None);
    }
}

/// The derivation of a label and seeds is the first candidate's.
pub proof fn lemma_derive_spec_is(owner: Seq<u8>, label: Seq<u8>, seeds: Seq<Seq<u8>>, bump: u8)
    requires
        first_candidate(owner, seed_list(label, seeds), bump),
    ensures
        derive_spec(owner, label, seeds) == Some(
            (derives(owner, seed_list(label, seeds), bump)->Some_0, bump),
        ),
{
    let chosen = choose|b: u8| first_candidate(owner, seed_list(label, seeds), b);
    lemma_first_candidate_unique(owner, seed_list(label, seeds), chosen, bump);
}

/// Calls `Pubkey::create_program_address`.
///
/// Claims: the result is the named `created_address` of the seeds' bytes and
/// the owner's bytes; an address that comes back is not on the curve; the
/// error is `TooLong` exactly when there are more than `MAX_SEEDS` seeds or a
/// seed has more than `MAX_SEED_LEN` bytes.
#[verifier::external_body]
fn create_program_address(seeds: &Vec<Vec<u8>>, owner: &Identity) -> (r: Result<
    Identity,
    SeedFault,
>)
    ensures
        match r {
            Ok(id) => created_address(views(seeds@), owner@) == Some(id@) && !on_curve(id@),
            Err(_) => created_address(views(seeds@), owner@) is None,
        },
        (r matches Err(SeedFault::TooLong)) == !seeds_fit(views(seeds@), MAX_SEEDS as int),
{
    let parts: Vec<&[u8]> = seeds.iter().map(|seed| seed.as_slice()).collect();
    match Pubkey::create_program_address(&parts, &Pubkey::new_from_array(owner.to_bytes())) {
        Ok(address) => Ok(Identity::new(address.to_bytes())),
        Err(PubkeyError::MaxSeedLengthExceeded) => Err(SeedFault::TooLong),
        Err(PubkeyError::InvalidSeeds) => Err(SeedFault::OnCurve),
        Err(PubkeyError::IllegalOwner) => Err(SeedFault::IllegalOwner),
    }
}

/// Calls `Pubkey::try_find_program_address`.
///
/// Claims: an address that comes back is the one that
/// `Pubkey::create_program_address` makes of the same seeds followed by the
/// bump as a one-byte seed, it is not on the curve, and no greater bump
/// makes an address; when nothing comes back, no bump from one upwards makes
/// an address; nothing comes back when there are `MAX_SEEDS` seeds or more,
/// or a seed has more than `MAX_SEED_LEN` bytes.
#[verifier::external_body]
fn try_find_program_address(seeds: &Vec<Vec<u8>>, owner: &Identity) -> (r: Option<(Identity, u8)>)
    ensures
        match r {
            Some((id, bump)) => {
                &&& created_address(with_bump(views(seeds@), bump), owner@) == Some(id@)
                &&& !on_curve(id@)
                &&& forall|b: u8|
                    bump < b ==> (#[trigger] derives(owner@, views(seeds@), b)) is None
            },
            None => forall|b: u8| 1 <= b ==> (#[trigger] derives(owner@, views(seeds@), b)) is None,
        },
        !seeds_fit(views(seeds@), MAX_SEEDS - 1) ==> r is None,
{
    let parts: Vec<&[u8]> = seeds.iter().map(|seed| seed.as_slice()).collect();
    Pubkey::try_find_program_address(&parts, &Pubkey::new_from_array(owner.to_bytes()))
        .map(|(address, bump)| (Identity::new(address.to_bytes()), bump))
}

/// Calls `Pubkey::is_on_curve`.
///
/// Claims: the result is the named `on_curve` of the identity's bytes.
#[verifier::external_body]
fn is_on_curve(id: &Identity) -> (b: bool)
    ensures
        b == on_curve(id@),
{
    Pubkey::new_from_array(id.to_bytes()).is_on_curve()
}

/// Copies a label and seeds into one list, the label first.
fn collect_seeds(label: &[u8], seeds: &Vec<Vec<u8>>) -> (list: Vec<Vec<u8>>)
    ensures
        views(list@) == seed_list(label@, views(seeds@)),
{
    let mut list: Vec<Vec<u8>> = Vec::new();
    list.push(slice_to_vec(label));
    let mut i: usize = 0;
    while i < seeds.len()
        invariant
            i <= seeds.len(),
            list@.len() == i + 1,
            list@[0]@ == label@,
            forall|k: int| 1 <= k <= i ==> (#[trigger] list@[k])@ == seeds@[k - 1]@,
        decreases seeds.len() - i,
    {
        list.push(slice_to_vec(seeds[i].as_slice()));
        i += 1;
    }
    assert(views(list@) =~= seed_list(label@, views(seeds@)));
    list
}

/// A copy of a list of seeds.
pub fn copy_seeds(seeds: &Vec<Vec<u8>>) -> (list: Vec<Vec<u8>>)
    ensures
        views(list@) == views(seeds@),
{
    let mut list: Vec<Vec<u8>> = Vec::new();
    let mut i: usize = 0;
    while i < seeds.len()
        invariant
            i <= seeds.len(),
            list@.len() == i,
            forall|k: int| 0 <= k < i ==> (#[trigger] list@[k])@ == seeds@[k]@,
        decreases seeds.len() - i,
    {
        list.push(slice_to_vec(seeds[i].as_slice()));
        i += 1;
    }
    assert(views(list@) =~= views(seeds@));
    list
}

/// The outcome of a derivation that is left with bump zero, given what
/// the seeds make with it.
pub fn last_candidate(created: Result<Identity, SeedFault>) -> (r: Result<(Identity, u8), Error>)
    ensures
        r == match created {
            Ok(id) => Ok::<(Identity, u8), Error>((id, 0u8)),
            Err(_) => Err::<(Identity, u8), Error>(Error::DerivationExhausted),
        },
{
    match created {
        Ok(id) => Ok((id, 0)),
        Err(_) => Err(Error::DerivationExhausted),
    }
}

/// Whether a recomputation produced the candidate.
pub fn matches_candidate(created: &Result<Identity, SeedFault>, candidate: &Identity) -> (b: bool)
    ensures
        b == (created matches Ok(id) && id@ == candidate@),
{
    match created {
        Ok(id) => id.same(candidate),
        Err(_) => false,
    }
}

/// Derives the identity that `owner` controls for a label and seeds, and the
/// bump that makes it fall outside key space.
///
/// Fails with `DerivationExhausted` when no bump does, or when the seeds
/// cannot be derived from.
pub fn derive(owner: &Identity, label: &[u8], seeds: &Vec<Vec<u8>>) -> (r: Result<
    (Identity, u8),
    Error,
>)
    ensures
        derived(owner@, label@, views(seeds@), r),
{
    let list = collect_seeds(label, seeds);
    let ghost all = seed_list(label@, views(seeds@));
    match try_find_program_address(&list, owner) {
        Some((id, bump)) => {
            proof {
                lemma_derive_spec_is(owner@, label@, views(seeds@), bump);
            }
            Ok((id, bump))
        },
        None => {
            let mut last = list;
            let zero: Vec<u8> = vec![0u8];
            assert(zero@ =~= seq![0u8]);
            last.push(zero);
            assert(views(last@) =~= with_bump(all, 0));
            let created = create_program_address(&last, owner);
            proof {
                assert forall|i: int| 0 <= i < all.len() implies all[i] == with_bump(all, 0)[i] by {}
                if created is Ok {
                    lemma_derive_spec_is(owner@, label@, views(seeds@), 0);
                } else {
                    assert forall|b: u8| !first_candidate(owner@, all, b) by {
                        assert(derives(owner@, all, b) is None);
                    }
                }
            }
            last_candidate(created)
        },
    }
}

/// Recomputes the identity of a label and seeds under `owner` with a given
/// bump, without searching.
pub fn recompute(owner: &Identity, label: &[u8], seeds: &Vec<Vec<u8>>, bump: u8) -> (r: Result<
    Identity,
    SeedFault,
>)
    ensures
        match r {
            Ok(id) => recompute_spec(owner@, label@, views(seeds@), bump) == Some(id@)
                && !on_curve(id@),
            Err(_) => recompute_spec(owner@, label@, views(seeds@), bump) is None,
        },
        (r matches Err(SeedFault::TooLong)) == !seeds_fit(
            signer_seeds(label@, views(seeds@), bump),
            MAX_SEEDS as int,
        ),
{
    assert(signer_seeds(label@, views(seeds@), bump) == with_bump(
        seed_list(label@, views(seeds@)),
        bump,
    ));
    let mut list = collect_seeds(label, seeds);
    let ghost before = list@;
    let last: Vec<u8> = vec![bump];
    assert(last@ =~= seq![bump]);
    list.push(last);
    assert(views(list@) =~= with_bump(views(before), bump));
    create_program_address(&list, owner)
}

/// Whether `candidate` is the identity that the label, seeds and bump
/// recompute under `owner`.
pub fn verify(owner: &Identity, label: &[u8], seeds: &Vec<Vec<u8>>, bump: u8, candidate: &Identity)
    -> (b: bool)
    ensures
        b == (recompute_spec(owner@, label@, views(seeds@), bump) == Some(candidate@)),
        b ==> !on_curve(candidate@),
        !seeds_fit(signer_seeds(label@, views(seeds@), bump), MAX_SEEDS as int) ==> !b,
{
    let created = recompute(owner, label, seeds, bump);
    matches_candidate(&created, candidate)
}

/// Determinism: two derivations of the same label and seeds under the same
/// owner agree. Both succeed with the same identity and the same bump, or
/// both fail.
pub proof fn lemma_derive_deterministic(
    owner: Seq<u8>,
    label: Seq<u8>,
    seeds: Seq<Seq<u8>>,
    first: Result<(Identity, u8), Error>,
    second: Result<(Identity, u8), Error>,
)
    requires
        derived(owner, label, seeds, first),
        derived(owner, label, seeds, second),
    ensures
        first is Ok <==> second is Ok,
        first is Err ==> first == second,
        first is Ok ==> first->Ok_0.0@ == second->Ok_0.0@ && first->Ok_0.1 == second->Ok_0.1,
{
}

/// A derivation takes the first candidate: its bump recomputes the
/// identity, and no greater bump recomputes any.
pub proof fn lemma_derive_takes_first(
    owner: Seq<u8>,
    label: Seq<u8>,
    seeds: Seq<Seq<u8>>,
    identity: Identity,
    bump: u8,
    other: u8,
)
    requires
        derived(owner, label, seeds, Ok::<(Identity, u8), Error>((identity, bump))),
        bump < other,
    ensures
        recompute_spec(owner, label, seeds, bump) == Some(identity@),
        recompute_spec(owner, label, seeds, other) is None,
{
}

/// Identities that a derivation returns lie outside key space: no private
/// key maps to them.
pub proof fn lemma_derived_off_key_space(
    owner: Seq<u8>,
    label: Seq<u8>,
    seeds: Seq<Seq<u8>>,
    derivation: Result<(Identity, u8), Error>,
)
    requires
        derived(owner, label, seeds, derivation),
    ensures
        derivation matches Ok((id, _)) ==> !on_curve(id@),
{
}

/// Whether an identity lies outside key space, so that no private key maps to it.
pub fn off_key_space(id: &Identity) -> (b: bool)
    ensures
        b == !on_curve(id@),
{
    !is_on_curve(id)
}

} // verus!

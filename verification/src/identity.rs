//! Where a record lives.
//!
//! A record's identity is made of its kind and of what it is about, and of
//! nothing that changes. Two records have the same identity only if they are
//! the same record, so the storage layer, which refuses to create a record
//! where one exists, is all that keeps a candidate number from being given out
//! twice and a voter from voting twice.

use vstd::prelude::*;
use vstd::bytes::{lemma_auto_spec_u64_to_from_le_bytes, spec_u64_to_le_bytes, u64_to_le_bytes};
use vstd::slice::slice_to_vec;
use crate::address::Address;
use crate::states::{CANDIDATE_SEED, POLL_SEED, VOTE_SEED};
use anchor_lang::prelude::Pubkey;

verus! {

/// The identity of a record: its kind, and the two values that tell it from
/// every other record of that kind.
#[derive(Clone, Copy, Debug, PartialEq, Eq)]
pub enum RecordId {
    /// The poll that `creator` numbered `poll_id`.
    Poll { poll_id: u64, creator: Address },
    /// Candidate number `candidate_id` of the polls numbered `poll_id`.
    Candidate { poll_id: u64, candidate_id: u64 },
    /// The vote of `voter` in the polls numbered `poll_id`.
    VoteReceipt { poll_id: u64, voter: Address },
}

impl RecordId {
    /// The seeds of the identity: the kind's own seed, then the two values
    /// in bytes, numbers with the low byte first.
    pub open spec fn seeds(self) -> Seq<Seq<u8>> {
        match self {
            RecordId::Poll { poll_id, creator } => seq![
                POLL_SEED@,
                spec_u64_to_le_bytes(poll_id),
                creator@,
            ],
            RecordId::Candidate { poll_id, candidate_id } => seq![
                CANDIDATE_SEED@,
                spec_u64_to_le_bytes(poll_id),
                spec_u64_to_le_bytes(candidate_id),
            ],
            RecordId::VoteReceipt { poll_id, voter } => seq![
                VOTE_SEED@,
                spec_u64_to_le_bytes(poll_id),
                voter@,
            ],
        }
    }

    /// The seeds one after another. An address is derived from these bytes,
    /// not from where one seed ends and the next begins.
    pub open spec fn seed_bytes(self) -> Seq<u8> {
        self.seeds()[0] + self.seeds()[1] + self.seeds()[2]
    }

    /// Computes the seeds of the identity.
    pub fn to_seeds(&self) -> (seeds: Vec<Vec<u8>>)
        ensures
            seeds.deep_view() == self.seeds(),
    {
        let mut seeds: Vec<Vec<u8>> = Vec::new();
        match self {
            RecordId::Poll { poll_id, creator } => {
                seeds.push(slice_to_vec(POLL_SEED.as_slice()));
                seeds.push(u64_to_le_bytes(*poll_id));
                seeds.push(creator.to_vec());
            },
            RecordId::Candidate { poll_id, candidate_id } => {
                seeds.push(slice_to_vec(CANDIDATE_SEED.as_slice()));
                seeds.push(u64_to_le_bytes(*poll_id));
                seeds.push(u64_to_le_bytes(*candidate_id));
            },
            RecordId::VoteReceipt { poll_id, voter } => {
                seeds.push(slice_to_vec(VOTE_SEED.as_slice()));
                seeds.push(u64_to_le_bytes(*poll_id));
                seeds.push(voter.to_vec());
            },
        }
        assert(seeds.deep_view() =~~= self.seeds());
        seeds
    }

    /// Derives the address at which `program_id` keeps the record, and the
    /// bump seed that goes with it.
    pub fn address(&self, program_id: &Address) -> (found: Option<(Address, u8)>)
        ensures
            found == program_address(self.seeds(), *program_id),
    {
        let seeds = self.to_seeds();
        try_find_program_address(&seeds, program_id)
    }

    /// Whether `account` is the address at which `program_id` keeps the
    /// record. An account that was handed in for the record is accepted only
    /// if this holds.
    pub fn is_kept_at(&self, program_id: &Address, account: &Address) -> (kept: bool)
        ensures
            kept == is_derived(program_address(self.seeds(), *program_id), *account),
    {
        let found = self.address(program_id);
        check_derived(found, account)
    }
}

/// Whether `account` is the address that a derivation found.
pub open spec fn is_derived(found: Option<(Address, u8)>, account: Address) -> bool {
    found matches Some(pair) && pair.0 == account
}

/// Whether `account` is the address that a derivation found: no derivation,
/// or another address, and the account is refused.
pub fn check_derived(found: Option<(Address, u8)>, account: &Address) -> (same: bool)
    ensures
        same == is_derived(found, *account),
{
    match found {
        Some(pair) => pair.0 == *account,
        None => false,
    }
}

/// The address that a program derives from a list of seeds, with the bump
/// seed that was appended to them, or `None` where the seeds admit none.
pub uninterp spec fn program_address(seeds: Seq<Seq<u8>>, program_id: Address) -> Option<
    (Address, u8),
>;

/// Calls `Pubkey::try_find_program_address`, which hashes the seeds, a bump
/// seed and the program's address, and tries the bump seeds from 255 down
/// until the hash is no point of the curve. What it returns depends on the
/// seeds and on the program's address alone; no more is claimed of it.
#[verifier::external_body]
fn try_find_program_address(seeds: &Vec<Vec<u8>>, program_id: &Address) -> (found: Option<
    (Address, u8),
>)
    ensures
        found == program_address(seeds.deep_view(), *program_id),
{
    let parts: Vec<&[u8]> = seeds.iter().map(|seed| seed.as_slice()).collect();
    match Pubkey::try_find_program_address(&parts, &Pubkey::new_from_array(program_id.bytes)) {
        Some((address, bump)) => Some((Address { bytes: address.to_bytes() }, bump)),
        None => None,
    }
}

/// Identities do not collide: two identities with the same seed bytes are
/// the same identity, of one kind and about the same two values.
pub proof fn lemma_seed_bytes_injective(a: RecordId, b: RecordId)
    requires
        a.seed_bytes() == b.seed_bytes(),
    ensures
        a == b,
{
    lemma_auto_spec_u64_to_from_le_bytes();
    let x = a.seed_bytes();
    let y = b.seed_bytes();
    assert(x.len() == y.len());
    assert(x[0] == y[0]);
    match (a, b) {
        (RecordId::Poll { poll_id: p, creator: c }, RecordId::Poll { poll_id: q, creator: d }) => {
            assert(spec_u64_to_le_bytes(p) =~= x.subrange(4, 12));
            assert(spec_u64_to_le_bytes(q) =~= y.subrange(4, 12));
            assert(c@ =~= x.subrange(12, 44));
            assert(d@ =~= y.subrange(12, 44));
            Address::lemma_view_injective(c, d);
        },
        (
            RecordId::Candidate { poll_id: p, candidate_id: c },
            RecordId::Candidate { poll_id: q, candidate_id: d },
        ) => {
            assert(spec_u64_to_le_bytes(p) =~= x.subrange(9, 17));
            assert(spec_u64_to_le_bytes(q) =~= y.subrange(9, 17));
            assert(spec_u64_to_le_bytes(c) =~= x.subrange(17, 25));
            assert(spec_u64_to_le_bytes(d) =~= y.subrange(17, 25));
        },
        (
            RecordId::VoteReceipt { poll_id: p, voter: c },
            RecordId::VoteReceipt { poll_id: q, voter: d },
        ) => {
            assert(spec_u64_to_le_bytes(p) =~= x.subrange(4, 12));
            assert(spec_u64_to_le_bytes(q) =~= y.subrange(4, 12));
            assert(c@ =~= x.subrange(12, 44));
            assert(d@ =~= y.subrange(12, 44));
            Address::lemma_view_injective(c, d);
        },
        _ => {},
    }
}

/// Identities do not collide: two identities with the same seeds are the same
/// identity.
pub proof fn lemma_seeds_injective(a: RecordId, b: RecordId)
    requires
        a.seeds() == b.seeds(),
    ensures
        a == b,
{
    lemma_seed_bytes_injective(a, b);
}

} // verus!

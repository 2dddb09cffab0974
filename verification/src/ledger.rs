//! The ledger: every poll, candidate and vote receipt, each kept at its
//! identity, and the three operations as they act on all of them.
//!
//! The ledger creates a record only where none exists and never deletes one.
//! An operation finds the records it needs by their identities, lets the
//! instruction work on them, and writes them back only if nothing refused.

use vstd::prelude::*;
use crate::address::{Address, Signer};
use crate::errors::{LedgerError, VotingError};
use crate::identity::RecordId;
use crate::instructions::{
    add_candidate,
    cast_vote,
    initialize_poll,
    AddCandidate,
    CastVote,
    InitializePoll,
};
use crate::laws::{
    lemma_add_candidate_keeps_wf,
    lemma_candidate_is_unique,
    lemma_cast_vote_keeps_wf,
    lemma_initialize_poll_keeps_wf,
    lemma_poll_is_unique,
    lemma_receipt_is_unique,
    lemma_votes_bounded,
};
use crate::model::LedgerView;
use crate::states::{check_name, Candidate, Poll, VoteReceipt};

verus! {

/// Every poll, candidate and vote receipt.
#[derive(Debug)]
pub struct Ledger {
    polls: Vec<Poll>,
    candidates: Vec<Candidate>,
    receipts: Vec<VoteReceipt>,
}

impl View for Ledger {
    type V = LedgerView;

    closed spec fn view(&self) -> LedgerView {
        LedgerView {
            polls: self.polls@.map_values(|p: Poll| p@),
            candidates: self.candidates@.map_values(|c: Candidate| c@),
            receipts: self.receipts@.map_values(|r: VoteReceipt| r@),
        }
    }
}

impl Ledger {
    /// What holds of the ledger at all times.
    pub open spec fn wf(&self) -> bool {
        self@.wf()
    }

    /// A ledger without any record.
    pub fn new() -> (ledger: Ledger)
        ensures
            ledger@ == LedgerView::empty(),
            ledger.wf(),
    {
        let ledger = Ledger { polls: Vec::new(), candidates: Vec::new(), receipts: Vec::new() };
        assert(ledger@.polls =~= Seq::empty());
        assert(ledger@.candidates =~= Seq::empty());
        assert(ledger@.receipts =~= Seq::empty());
        ledger
    }

    /// Where the poll that `creator` numbered `poll_id` is, if it exists.
    fn find_poll(&self, poll_id: u64, creator: &Address) -> (place: Option<usize>)
        ensures
            place is Some == self@.has_poll(poll_id, *creator),
            place matches Some(i) ==> i < self@.polls.len() && self@.polls[i as int].is_poll(
                poll_id,
                *creator,
            ),
    {
        let mut i: usize = 0;
        while i < self.polls.len()
            invariant
                i <= self.polls.len(),
                forall|x: int|
                    0 <= x < i ==> !(#[trigger] self@.polls[x]).is_poll(poll_id, *creator),
            decreases self.polls.len() - i,
        {
            if self.polls[i].poll_id == poll_id && self.polls[i].creator == *creator {
                assert(self@.polls[i as int].is_poll(poll_id, *creator));
                return Some(i);
            }
            i += 1;
        }
        None
    }

    /// Where candidate number `candidate_id` under the poll number `poll_id`
    /// is, if it exists.
    fn find_candidate(&self, poll_id: u64, candidate_id: u64) -> (place: Option<usize>)
        ensures
            place is Some == self@.has_candidate(poll_id, candidate_id as nat),
            place matches Some(j) ==> j < self@.candidates.len()
                && self@.candidates[j as int].is_candidate(poll_id, candidate_id as nat),
    {
        let mut j: usize = 0;
        while j < self.candidates.len()
            invariant
                j <= self.candidates.len(),
                forall|x: int|
                    0 <= x < j ==> !(#[trigger] self@.candidates[x]).is_candidate(
                        poll_id,
                        candidate_id as nat,
                    ),
            decreases self.candidates.len() - j,
        {
            if self.candidates[j].poll_id == poll_id && self.candidates[j].candidate_id
                == candidate_id {
                assert(self@.candidates[j as int].is_candidate(poll_id, candidate_id as nat));
                return Some(j);
            }
            j += 1;
        }
        None
    }

    /// Where the receipt of `voter` under the poll number `poll_id` is, if
    /// it exists.
    fn find_receipt(&self, poll_id: u64, voter: &Address) -> (place: Option<usize>)
        ensures
            place is Some == self@.has_receipt(poll_id, *voter),
            place matches Some(k) ==> k < self@.receipts.len()
                && self@.receipts[k as int].is_receipt(poll_id, *voter),
    {
        let mut k: usize = 0;
        while k < self.receipts.len()
            invariant
                k <= self.receipts.len(),
                forall|x: int|
                    0 <= x < k ==> !(#[trigger] self@.receipts[x]).is_receipt(poll_id, *voter),
            decreases self.receipts.len() - k,
        {
            if self.receipts[k].poll_id == poll_id && self.receipts[k].voter == *voter {
                assert(self@.receipts[k as int].is_receipt(poll_id, *voter));
                return Some(k);
            }
            k += 1;
        }
        None
    }

    /// Whether a record exists at the identity `id`. Where one does, none can
    /// be created.
    pub fn holds(&self, id: &RecordId) -> (held: bool)
        ensures
            held == self@.holds(*id),
    {
        match id {
            RecordId::Poll { poll_id, creator } => self.find_poll(*poll_id, creator).is_some(),
            RecordId::Candidate { poll_id, candidate_id } => {
                self.find_candidate(*poll_id, *candidate_id).is_some()
            },
            RecordId::VoteReceipt { poll_id, voter } => {
                self.find_receipt(*poll_id, voter).is_some()
            },
        }
    }

    /// The poll that `creator` numbered `poll_id`, if there is one.
    pub fn poll(&self, poll_id: u64, creator: &Address) -> (found: Option<Poll>)
        requires
            self.wf(),
        ensures
            found is Some == self@.has_poll(poll_id, *creator),
            found matches Some(poll) ==> poll@ == self@.poll(poll_id, *creator),
    {
        match self.find_poll(poll_id, creator) {
            Some(i) => {
                proof {
                    lemma_poll_is_unique(self@, i as int);
                }
                Some(self.polls[i].clone())
            },
            None => None,
        }
    }

    /// Candidate number `candidate_id` under the poll number `poll_id`, if
    /// there is one.
    pub fn candidate(&self, poll_id: u64, candidate_id: u64) -> (found: Option<Candidate>)
        requires
            self.wf(),
        ensures
            found is Some == self@.has_candidate(poll_id, candidate_id as nat),
            found matches Some(candidate) ==> candidate@ == self@.candidate(
                poll_id,
                candidate_id as nat,
            ),
    {
        match self.find_candidate(poll_id, candidate_id) {
            Some(j) => {
                proof {
                    lemma_candidate_is_unique(self@, j as int);
                }
                Some(self.candidates[j].clone())
            },
            None => None,
        }
    }

    /// The receipt of `voter` under the poll number `poll_id`, if there is
    /// one.
    pub fn receipt(&self, poll_id: u64, voter: &Address) -> (found: Option<VoteReceipt>)
        requires
            self.wf(),
        ensures
            found is Some == self@.has_receipt(poll_id, *voter),
            found matches Some(receipt) ==> receipt@ == self@.receipt(poll_id, *voter),
    {
        match self.find_receipt(poll_id, voter) {
            Some(k) => {
                proof {
                    lemma_receipt_is_unique(self@, k as int);
                }
                Some(self.receipts[k])
            },
            None => None,
        }
    }

    /// Creates the poll that `creator` numbers `poll_id`.
    ///
    /// The poll is created if it starts before it ends, its description has
    /// at most 280 characters, the creator has signed, and the creator has no
    /// poll of that number yet. Otherwise the first of these that fails says
    /// why not, and the ledger is as it was.
    pub fn initialize_poll(
        &mut self,
        creator: &Signer,
        poll_id: u64,
        description: String,
        start_time: i64,
        end_time: i64,
    ) -> (result: Result<(), LedgerError>)
        requires
            old(self).wf(),
        ensures
            final(self).wf(),
            result == old(self)@.initialize_poll_outcome(
                *creator,
                poll_id,
                description@,
                start_time,
                end_time,
            ),
            final(self)@ == old(self)@.initialize_poll(
                *creator,
                poll_id,
                description@,
                start_time,
                end_time,
            ),
    {
        proof {
            lemma_initialize_poll_keeps_wf(
                self@,
                *creator,
                poll_id,
                description@,
                start_time,
                end_time,
            );
        }
        let mut ctx = InitializePoll::new(creator.address);
        match initialize_poll(&mut ctx, poll_id, description, start_time, end_time) {
            Ok(()) => {},
            Err(refusal) => {
                return Err(LedgerError::Voting(refusal));
            },
        }
        if !creator.verified {
            return Err(LedgerError::Unauthorized);
        }
        if self.holds(&ctx.poll_identity(poll_id)) {
            return Err(LedgerError::AlreadyExists);
        }
        self.polls.push(ctx.poll);
        assert(self@.polls =~= old(self)@.initialize_poll(
            *creator,
            poll_id,
            description@,
            start_time,
            end_time,
        ).polls);
        Ok(())
    }

    /// Whether the ledger has room for one more candidate: the machine can
    /// count one more.
    pub open spec fn has_room_for_candidate(&self) -> bool {
        self@.candidates.len() < usize::MAX
    }

    /// Whether the ledger has room for one more vote receipt: the machine
    /// can count one more.
    pub open spec fn has_room_for_receipt(&self) -> bool {
        self@.receipts.len() < usize::MAX
    }

    /// Whether the ledger has room for one more candidate.
    pub fn room_for_candidate(&self) -> (room: bool)
        ensures
            room == self.has_room_for_candidate(),
    {
        self.candidates.len() < usize::MAX
    }

    /// Whether the ledger has room for one more vote receipt.
    pub fn room_for_receipt(&self) -> (room: bool)
        ensures
            room == self.has_room_for_receipt(),
    {
        self.receipts.len() < usize::MAX
    }

    /// Registers a candidate called `name` in the poll that `creator`
    /// numbered `poll_id`, and returns the candidate's number.
    ///
    /// The candidate is registered if the name has one to fifty characters,
    /// the payer has signed, the poll exists, and no candidate has the poll's
    /// count as its number under the poll's number. Otherwise the first of
    /// these that fails says why not, and the ledger is as it was. The
    /// ledger must have room for one more candidate.
    pub fn add_candidate(
        &mut self,
        payer: &Signer,
        poll_id: u64,
        creator: &Address,
        name: String,
    ) -> (result: Result<u64, LedgerError>)
        requires
            old(self).wf(),
            old(self).has_room_for_candidate(),
        ensures
            final(self).wf(),
            match result {
                Ok(number) => old(self)@.add_candidate_outcome(*payer, poll_id, *creator, name@)
                    == Ok::<nat, LedgerError>(number as nat),
                Err(refusal) => old(self)@.add_candidate_outcome(*payer, poll_id, *creator, name@)
                    == Err::<nat, LedgerError>(refusal),
            },
            final(self)@ == old(self)@.add_candidate(*payer, poll_id, *creator, name@),
    {
        proof {
            lemma_add_candidate_keeps_wf(self@, *payer, poll_id, *creator, name@);
        }
        if !check_name(&name) {
            return Err(LedgerError::Voting(VotingError::InvalidCandidateName));
        }
        if !payer.verified {
            return Err(LedgerError::Unauthorized);
        }
        let at = match self.find_poll(poll_id, creator) {
            Some(i) => i,
            None => {
                return Err(LedgerError::NotFound);
            },
        };
        proof {
            lemma_poll_is_unique(self@, at as int);
        }
        let mut ctx = AddCandidate::new(self.polls[at].clone());
        if self.holds(&ctx.candidate_identity()) {
            return Err(LedgerError::AlreadyExists);
        }
        let number = ctx.poll.candidate_count;
        assert(self@.polls[at as int].candidate_count <= self@.candidates.len());
        let ghost asked = name@;
        match add_candidate(&mut ctx, name) {
            Ok(()) => {},
            Err(refusal) => {
                return Err(LedgerError::Voting(refusal));
            },
        }
        let AddCandidate { poll, candidate } = ctx;
        self.polls[at] = poll;
        self.candidates.push(candidate);
        proof {
            let before = old(self)@;
            let after = before.add_candidate(*payer, poll_id, *creator, asked);
            assert(self@.candidates =~= after.candidates);
            assert forall|i: int| 0 <= i < self@.polls.len() implies self@.polls[i]
                == after.polls[i] by {
                if i != at {
                    if before.polls[i].is_poll(poll_id, *creator) {
                        lemma_poll_is_unique(before, i);
                    }
                }
            }
            assert(self@.polls =~= after.polls);
        }
        Ok(number)
    }

    /// Casts the vote of `voter`, at the moment `now`, for candidate number
    /// `candidate_id` in the poll that `creator` numbered `poll_id`.
    ///
    /// The vote counts if the poll exists and is open at that moment, the
    /// voter has signed, the candidate exists under the poll's number, and
    /// the voter has no receipt under the poll's number. Otherwise the first
    /// of these that fails says why not, and the ledger is as it was. The
    /// ledger must have room for one more receipt.
    pub fn cast_vote(
        &mut self,
        voter: &Signer,
        poll_id: u64,
        creator: &Address,
        candidate_id: u64,
        now: i64,
    ) -> (result: Result<(), LedgerError>)
        requires
            old(self).wf(),
            old(self).has_room_for_receipt(),
        ensures
            final(self).wf(),
            result == old(self)@.cast_vote_outcome(
                *voter,
                poll_id,
                *creator,
                candidate_id as nat,
                now,
            ),
            final(self)@ == old(self)@.cast_vote(
                *voter,
                poll_id,
                *creator,
                candidate_id as nat,
                now,
            ),
    {
        proof {
            lemma_cast_vote_keeps_wf(self@, *voter, poll_id, *creator, candidate_id as nat, now);
        }
        let at = match self.find_poll(poll_id, creator) {
            Some(i) => i,
            None => {
                return Err(LedgerError::NotFound);
            },
        };
        proof {
            lemma_poll_is_unique(self@, at as int);
        }
        if !self.polls[at].is_open_at(now) {
            return Err(LedgerError::Voting(VotingError::VotingPeriodInvalid));
        }
        if !voter.verified {
            return Err(LedgerError::Unauthorized);
        }
        let seat = match self.find_candidate(poll_id, candidate_id) {
            Some(j) => j,
            None => {
                return Err(LedgerError::NotFound);
            },
        };
        let mut ctx = CastVote::new(
            self.polls[at].clone(),
            self.candidates[seat].clone(),
            voter.address,
        );
        if self.holds(&ctx.vote_receipt_identity()) {
            return Err(LedgerError::AlreadyExists);
        }
        proof {
            lemma_votes_bounded(self@.receipts, poll_id, candidate_id as nat);
            lemma_candidate_is_unique(self@, seat as int);
        }
        match cast_vote(&mut ctx, now) {
            Ok(()) => {},
            Err(refusal) => {
                return Err(LedgerError::Voting(refusal));
            },
        }
        let CastVote { poll: _, candidate, vote_receipt, voter: _ } = ctx;
        self.candidates[seat] = candidate;
        self.receipts.push(vote_receipt);
        proof {
            let before = old(self)@;
            let after = before.cast_vote(*voter, poll_id, *creator, candidate_id as nat, now);
            assert(self@.receipts =~= after.receipts);
            assert(self@.polls =~= after.polls);
            assert forall|j: int| 0 <= j < self@.candidates.len() implies self@.candidates[j]
                == after.candidates[j] by {
                if j != seat {
                    if before.candidates[j].is_candidate(poll_id, candidate_id as nat) {
                        lemma_candidate_is_unique(before, j);
                    }
                }
            }
            assert(self@.candidates =~= after.candidates);
        }
        Ok(())
    }
}

} // verus!

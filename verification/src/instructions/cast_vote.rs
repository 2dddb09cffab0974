//! Casting a vote.

use vstd::prelude::*;
use crate::address::Address;
use crate::errors::VotingError;
use crate::identity::RecordId;
use crate::states::{Candidate, CandidateView, Poll, PollView, VoteReceipt, VoteReceiptView};

verus! {

/// The records that a vote touches: the poll, which is only read; the
/// candidate voted for; the receipt, new and still blank; and the voter.
#[derive(Debug)]
pub struct CastVote {
    pub poll: Poll,
    pub candidate: Candidate,
    pub vote_receipt: VoteReceipt,
    pub voter: Address,
}

/// The records of a vote as mathematical values.
pub struct CastVoteView {
    pub poll: PollView,
    pub candidate: CandidateView,
    pub vote_receipt: VoteReceiptView,
    pub voter: Address,
}

impl View for CastVote {
    type V = CastVoteView;

    open spec fn view(&self) -> CastVoteView {
        CastVoteView {
            poll: self.poll@,
            candidate: self.candidate@,
            vote_receipt: self.vote_receipt@,
            voter: self.voter,
        }
    }
}

impl CastVoteView {
    /// The receipt of a vote cast at the moment `now`.
    pub open spec fn receipt(self, now: i64) -> VoteReceiptView {
        VoteReceiptView {
            voter: self.voter,
            candidate_id: self.candidate.candidate_id,
            poll_id: self.poll.poll_id,
            timestamp: now,
        }
    }

    /// The records after a vote cast at the moment `now`: the receipt is
    /// written and the candidate has one vote more.
    pub open spec fn voted(self, now: i64) -> CastVoteView {
        CastVoteView {
            poll: self.poll,
            candidate: CandidateView {
                vote_count: self.candidate.vote_count + 1,
                ..self.candidate
            },
            vote_receipt: self.receipt(now),
            voter: self.voter,
        }
    }
}

impl CastVote {
    /// The records of a vote by `voter`, with a blank receipt.
    pub fn new(poll: Poll, candidate: Candidate, voter: Address) -> (accounts: CastVote)
        ensures
            accounts.poll == poll,
            accounts.candidate == candidate,
            accounts.voter == voter,
            accounts.vote_receipt@.candidate_id == 0,
            accounts.vote_receipt@.poll_id == 0,
            accounts.vote_receipt@.timestamp == 0,
            accounts.vote_receipt@.voter.is_zero(),
    {
        CastVote { poll, candidate, vote_receipt: VoteReceipt::default(), voter }
    }

    /// The identity at which the candidate must be kept: it is derived from
    /// the poll's number, so a candidate of a poll with another number is
    /// kept elsewhere.
    pub fn candidate_identity(&self) -> (id: RecordId)
        ensures
            id == (RecordId::Candidate {
                poll_id: self.poll.poll_id,
                candidate_id: self.candidate.candidate_id,
            }),
    {
        RecordId::Candidate {
            poll_id: self.poll.poll_id,
            candidate_id: self.candidate.candidate_id,
        }
    }

    /// The identity of the receipt: one for each voter and poll number.
    pub fn vote_receipt_identity(&self) -> (id: RecordId)
        ensures
            id == (RecordId::VoteReceipt { poll_id: self.poll.poll_id, voter: self.voter }),
    {
        RecordId::VoteReceipt { poll_id: self.poll.poll_id, voter: self.voter }
    }
}

/// Casts the voter's vote for the candidate at the moment `current_time`.
///
/// The vote counts if the poll is open at that moment, its first and last
/// moments included: the receipt is written and the candidate's count goes up
/// by one. Otherwise the vote is refused and nothing is written.
pub fn cast_vote(ctx: &mut CastVote, current_time: i64) -> (result: Result<(), VotingError>)
    requires
        old(ctx).poll@.is_open_at(current_time) ==> old(ctx).candidate.vote_count < u64::MAX,
    ensures
        old(ctx).poll@.is_open_at(current_time) ==> result == Ok::<(), VotingError>(())
            && final(ctx)@ == old(ctx)@.voted(current_time),
        !old(ctx).poll@.is_open_at(current_time) ==> result == Err::<(), VotingError>(
            VotingError::VotingPeriodInvalid,
        ) && *final(ctx) == *old(ctx),
{
    if !ctx.poll.is_open_at(current_time) {
        return Err(VotingError::VotingPeriodInvalid);
    }
    ctx.vote_receipt.voter = ctx.voter;
    ctx.vote_receipt.candidate_id = ctx.candidate.candidate_id;
    ctx.vote_receipt.poll_id = ctx.poll.poll_id;
    ctx.vote_receipt.timestamp = current_time;

    ctx.candidate.vote_count += 1;
    Ok(())
}

} // verus!

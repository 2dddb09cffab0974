//! Registering a candidate.

use vstd::prelude::*;
use crate::errors::VotingError;
use crate::identity::RecordId;
use crate::states::{check_name, name_is_valid, Candidate, CandidateView, Poll, PollView};

verus! {

/// The records that a registration touches: the poll, whose count goes up,
/// and the candidate, new and still blank.
#[derive(Debug)]
pub struct AddCandidate {
    pub poll: Poll,
    pub candidate: Candidate,
}

/// The records of a registration as mathematical values.
pub struct AddCandidateView {
    pub poll: PollView,
    pub candidate: CandidateView,
}

impl View for AddCandidate {
    type V = AddCandidateView;

    open spec fn view(&self) -> AddCandidateView {
        AddCandidateView { poll: self.poll@, candidate: self.candidate@ }
    }
}

impl PollView {
    /// The candidate that this poll registers next under `name`: it takes
    /// the poll's count as its number, and has no votes.
    pub open spec fn next_candidate(self, name: Seq<char>) -> CandidateView {
        CandidateView {
            candidate_id: self.candidate_count,
            poll_id: self.poll_id,
            name: name,
            vote_count: 0,
        }
    }

    /// This poll after it has registered a candidate: its count is one more.
    pub open spec fn counted(self) -> PollView {
        PollView { candidate_count: self.candidate_count + 1, ..self }
    }
}

impl AddCandidateView {
    /// The records after the registration of `name`.
    pub open spec fn registered(self, name: Seq<char>) -> AddCandidateView {
        AddCandidateView { poll: self.poll.counted(), candidate: self.poll.next_candidate(name) }
    }
}

impl AddCandidate {
    /// The records of a registration in `poll`, with a blank candidate.
    pub fn new(poll: Poll) -> (accounts: AddCandidate)
        ensures
            accounts.poll == poll,
            accounts.candidate@ == (CandidateView {
                candidate_id: 0,
                poll_id: 0,
                name: Seq::<char>::empty(),
                vote_count: 0,
            }),
    {
        AddCandidate { poll, candidate: Candidate::default() }
    }

    /// The identity at which the new candidate is created. It is derived from
    /// the poll's count as it is before the registration, so the numbers of a
    /// poll's candidates start at zero and leave no gap.
    pub fn candidate_identity(&self) -> (id: RecordId)
        ensures
            id == (RecordId::Candidate {
                poll_id: self.poll.poll_id,
                candidate_id: self.poll.candidate_count,
            }),
    {
        RecordId::Candidate {
            poll_id: self.poll.poll_id,
            candidate_id: self.poll.candidate_count,
        }
    }
}

/// Registers a candidate called `name` in the poll.
///
/// A name of one to fifty characters is accepted: the candidate gets the
/// poll's count as its number and starts without votes, and the poll's count
/// goes up by one. Any other name is refused and nothing is written.
pub fn add_candidate(ctx: &mut AddCandidate, name: String) -> (result: Result<(), VotingError>)
    requires
        name_is_valid(name@) ==> old(ctx).poll.candidate_count < u64::MAX,
    ensures
        name_is_valid(name@) ==> result == Ok::<(), VotingError>(()) && final(ctx)@ == old(
            ctx,
        )@.registered(name@),
        !name_is_valid(name@) ==> result == Err::<(), VotingError>(
            VotingError::InvalidCandidateName,
        ) && *final(ctx) == *old(ctx),
{
    if !check_name(&name) {
        return Err(VotingError::InvalidCandidateName);
    }
    ctx.candidate.candidate_id = ctx.poll.candidate_count;
    ctx.candidate.poll_id = ctx.poll.poll_id;
    ctx.candidate.name = name;
    ctx.candidate.vote_count = 0;

    ctx.poll.candidate_count += 1;
    Ok(())
}

} // verus!

//! Creating a poll.

use vstd::prelude::*;
use crate::address::Address;
use crate::errors::VotingError;
use crate::identity::RecordId;
use crate::states::{check_description, description_fits, Poll, PollView};

verus! {

/// The records that a creation touches: the poll, new and still blank, and
/// the creator who authorized it.
#[derive(Debug)]
pub struct InitializePoll {
    pub poll: Poll,
    pub creator: Address,
}

/// What is wrong with the window or the description of a poll to be created,
/// if anything: the window is looked at first.
pub open spec fn poll_request_check(
    description: Seq<char>,
    start_time: i64,
    end_time: i64,
) -> Result<(), VotingError> {
    if start_time >= end_time {
        Err(VotingError::InvalidTimeRange)
    } else if !description_fits(description) {
        Err(VotingError::DescriptionTooLong)
    } else {
        Ok(())
    }
}

/// The poll that a creation writes: it has no candidates yet.
pub open spec fn new_poll(
    poll_id: u64,
    description: Seq<char>,
    start_time: i64,
    end_time: i64,
    creator: Address,
) -> PollView {
    PollView { poll_id, description, start_time, end_time, candidate_count: 0, creator }
}

impl InitializePoll {
    /// The records of a creation by `creator`, with a blank poll.
    pub fn new(creator: Address) -> (accounts: InitializePoll)
        ensures
            accounts.creator == creator,
            accounts.poll@.poll_id == 0,
            accounts.poll@.description == Seq::<char>::empty(),
            accounts.poll@.start_time == 0,
            accounts.poll@.end_time == 0,
            accounts.poll@.candidate_count == 0,
            accounts.poll@.creator.is_zero(),
    {
        InitializePoll { poll: Poll::default(), creator }
    }

    /// The identity at which the poll numbered `poll_id` is created: one for
    /// each creator and number.
    pub fn poll_identity(&self, poll_id: u64) -> (id: RecordId)
        ensures
            id == (RecordId::Poll { poll_id, creator: self.creator }),
    {
        RecordId::Poll { poll_id, creator: self.creator }
    }
}

/// Creates the poll numbered `poll_id`.
///
/// A poll that starts before it ends, with a description of at most 280
/// characters, is written with no candidates and with the creator who
/// authorized it. A window that does not start before it ends is refused; if
/// the window is in order, too long a description is refused. When the poll
/// is refused nothing is written.
pub fn initialize_poll(
    ctx: &mut InitializePoll,
    poll_id: u64,
    description: String,
    start_time: i64,
    end_time: i64,
) -> (result: Result<(), VotingError>)
    ensures
        result == poll_request_check(description@, start_time, end_time),
        result is Ok ==> final(ctx).poll@ == new_poll(
            poll_id,
            description@,
            start_time,
            end_time,
            old(ctx).creator,
        ) && final(ctx).creator == old(ctx).creator,
        result is Err ==> *final(ctx) == *old(ctx),
{
    if !(start_time < end_time) {
        return Err(VotingError::InvalidTimeRange);
    }
    if !check_description(&description) {
        return Err(VotingError::DescriptionTooLong);
    }
    ctx.poll.poll_id = poll_id;
    ctx.poll.description = description;
    ctx.poll.start_time = start_time;
    ctx.poll.end_time = end_time;
    ctx.poll.candidate_count = 0;
    ctx.poll.creator = ctx.creator;
    Ok(())
}

} // verus!

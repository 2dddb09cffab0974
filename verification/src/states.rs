//! The three kinds of record and the limits on what they hold.

use vstd::prelude::*;
use crate::address::Address;

verus! {

/// The first seed of every poll's identity: the bytes of `poll`.
pub const POLL_SEED: [u8; 4] = [0x70, 0x6f, 0x6c, 0x6c];

/// The first seed of every candidate's identity: the bytes of `candidate`.
pub const CANDIDATE_SEED: [u8; 9] = [0x63, 0x61, 0x6e, 0x64, 0x69, 0x64, 0x61, 0x74, 0x65];

/// The first seed of every vote receipt's identity: the bytes of `vote`.
pub const VOTE_SEED: [u8; 4] = [0x76, 0x6f, 0x74, 0x65];

/// The most characters a poll's description may have.
pub const MAX_DESCRIPTION_LEN: usize = 280;

/// The most characters a candidate's name may have; it has at least one.
pub const MAX_NAME_LEN: usize = 50;

/// Whether a text is short enough to describe a poll.
pub open spec fn description_fits(description: Seq<char>) -> bool {
    description.len() <= MAX_DESCRIPTION_LEN
}

/// Whether a text can name a candidate.
pub open spec fn name_is_valid(name: Seq<char>) -> bool {
    1 <= name.len() <= MAX_NAME_LEN
}

/// A voting event with a description and a window of time in which votes
/// count.
#[derive(Debug, PartialEq, Eq)]
pub struct Poll {
    /// Chosen by the creator; one creator uses each number once.
    pub poll_id: u64,
    pub description: String,
    /// The first moment at which a vote counts.
    pub start_time: i64,
    /// The last moment at which a vote counts.
    pub end_time: i64,
    /// How many candidates were registered: the number the next one gets.
    pub candidate_count: u64,
    /// Who authorized the poll's creation.
    pub creator: Address,
}

/// A poll as a mathematical value.
pub struct PollView {
    pub poll_id: u64,
    pub description: Seq<char>,
    pub start_time: i64,
    pub end_time: i64,
    pub candidate_count: nat,
    pub creator: Address,
}

impl PollView {
    /// Whether votes count at the moment `now`: the window includes both of
    /// its ends.
    pub open spec fn is_open_at(self, now: i64) -> bool {
        self.start_time <= now <= self.end_time
    }

    /// Whether this is the poll that `creator` numbered `poll_id`.
    pub open spec fn is_poll(self, poll_id: u64, creator: Address) -> bool {
        self.poll_id == poll_id && self.creator == creator
    }

    /// What holds of every poll that was created: it starts before it ends,
    /// and its description is within the limit.
    pub open spec fn valid(self) -> bool {
        self.start_time < self.end_time && description_fits(self.description)
    }
}

impl View for Poll {
    type V = PollView;

    open spec fn view(&self) -> PollView {
        PollView {
            poll_id: self.poll_id,
            description: self.description@,
            start_time: self.start_time,
            end_time: self.end_time,
            candidate_count: self.candidate_count as nat,
            creator: self.creator,
        }
    }
}

impl Poll {
    /// Whether votes count at the moment `now`. Nothing stores whether a poll
    /// is open: it is asked of the clock each time.
    pub fn is_open_at(&self, now: i64) -> (open: bool)
        ensures
            open == self@.is_open_at(now),
    {
        self.start_time <= now && now <= self.end_time
    }
}

impl Clone for Poll {
    fn clone(&self) -> (copy: Poll)
        ensures
            copy == *self,
    {
        Poll {
            poll_id: self.poll_id,
            description: self.description.clone(),
            start_time: self.start_time,
            end_time: self.end_time,
            candidate_count: self.candidate_count,
            creator: self.creator,
        }
    }
}

impl Default for Poll {
    /// A record as the storage layer hands it out: every field zero or empty.
    fn default() -> (blank: Poll)
        ensures
            blank@ == (PollView {
                poll_id: 0,
                description: Seq::<char>::empty(),
                start_time: 0,
                end_time: 0,
                candidate_count: 0,
                creator: blank.creator,
            }),
            blank.creator.is_zero(),
    {
        Poll {
            poll_id: 0,
            description: String::new(),
            start_time: 0,
            end_time: 0,
            candidate_count: 0,
            creator: Address::default(),
        }
    }
}

/// One of the options of a poll.
#[derive(Debug, PartialEq, Eq)]
pub struct Candidate {
    /// The candidate's number within its poll, counted from zero.
    pub candidate_id: u64,
    /// The number of the poll that the candidate stands in.
    pub poll_id: u64,
    pub name: String,
    /// How many votes were cast for the candidate.
    pub vote_count: u64,
}

/// A candidate as a mathematical value.
pub struct CandidateView {
    pub candidate_id: nat,
    pub poll_id: u64,
    pub name: Seq<char>,
    pub vote_count: nat,
}

impl CandidateView {
    /// Whether this is candidate number `candidate_id` of the polls numbered
    /// `poll_id`.
    pub open spec fn is_candidate(self, poll_id: u64, candidate_id: nat) -> bool {
        self.poll_id == poll_id && self.candidate_id == candidate_id
    }
}

impl View for Candidate {
    type V = CandidateView;

    open spec fn view(&self) -> CandidateView {
        CandidateView {
            candidate_id: self.candidate_id as nat,
            poll_id: self.poll_id,
            name: self.name@,
            vote_count: self.vote_count as nat,
        }
    }
}

impl Clone for Candidate {
    fn clone(&self) -> (copy: Candidate)
        ensures
            copy == *self,
    {
        Candidate {
            candidate_id: self.candidate_id,
            poll_id: self.poll_id,
            name: self.name.clone(),
            vote_count: self.vote_count,
        }
    }
}

impl Default for Candidate {
    /// A record as the storage layer hands it out: every field zero or empty.
    fn default() -> (blank: Candidate)
        ensures
            blank@ == (CandidateView {
                candidate_id: 0,
                poll_id: 0,
                name: Seq::<char>::empty(),
                vote_count: 0,
            }),
    {
        Candidate { candidate_id: 0, poll_id: 0, name: String::new(), vote_count: 0 }
    }
}

/// The proof that a voter cast a vote in a poll. It is written once and never
/// changed; that it exists is what keeps the voter from voting again.
#[derive(Clone, Copy, Debug, PartialEq, Eq)]
pub struct VoteReceipt {
    pub voter: Address,
    /// The number of the candidate that was voted for.
    pub candidate_id: u64,
    /// The number of the poll that was voted in.
    pub poll_id: u64,
    /// The moment at which the vote was cast.
    pub timestamp: i64,
}

/// A vote receipt as a mathematical value.
pub struct VoteReceiptView {
    pub voter: Address,
    pub candidate_id: nat,
    pub poll_id: u64,
    pub timestamp: i64,
}

impl VoteReceiptView {
    /// Whether this is the receipt of `voter` in the polls numbered `poll_id`.
    pub open spec fn is_receipt(self, poll_id: u64, voter: Address) -> bool {
        self.poll_id == poll_id && self.voter == voter
    }

    /// Whether the vote went to candidate number `candidate_id` of the polls
    /// numbered `poll_id`.
    pub open spec fn is_vote_for(self, poll_id: u64, candidate_id: nat) -> bool {
        self.poll_id == poll_id && self.candidate_id == candidate_id
    }
}

impl View for VoteReceipt {
    type V = VoteReceiptView;

    open spec fn view(&self) -> VoteReceiptView {
        VoteReceiptView {
            voter: self.voter,
            candidate_id: self.candidate_id as nat,
            poll_id: self.poll_id,
            timestamp: self.timestamp,
        }
    }
}

impl Default for VoteReceipt {
    /// A record as the storage layer hands it out: every field zero.
    fn default() -> (blank: VoteReceipt)
        ensures
            blank == (VoteReceipt {
                voter: blank.voter,
                candidate_id: 0,
                poll_id: 0,
                timestamp: 0,
            }),
            blank.voter.is_zero(),
    {
        VoteReceipt { voter: Address::default(), candidate_id: 0, poll_id: 0, timestamp: 0 }
    }
}

/// Whether a text is short enough to describe a poll.
pub fn check_description(description: &String) -> (fits: bool)
    ensures
        fits == description_fits(description@),
{
    description.as_str().unicode_len() <= MAX_DESCRIPTION_LEN
}

/// Whether a text can name a candidate.
pub fn check_name(name: &String) -> (valid: bool)
    ensures
        valid == name_is_valid(name@),
{
    let len: usize = name.as_str().unicode_len();
    1 <= len && len <= MAX_NAME_LEN
}

} // verus!

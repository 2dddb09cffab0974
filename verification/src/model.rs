//! The ledger as a mathematical value: every poll, candidate and vote
//! receipt in the order of their creation, what holds of them at all times,
//! and what each of the three operations makes of them.

use vstd::prelude::*;
use crate::address::{Address, Signer};
use crate::errors::{LedgerError, VotingError};
use crate::identity::RecordId;
use crate::instructions::initialize_poll::{new_poll, poll_request_check};
use crate::states::{name_is_valid, CandidateView, PollView, VoteReceiptView};

verus! {

/// How many of the receipts are votes for candidate number `candidate_id` of
/// the polls numbered `poll_id`.
pub open spec fn count_votes(receipts: Seq<VoteReceiptView>, poll_id: u64, candidate_id: nat) -> nat
    decreases receipts.len(),
{
    if receipts.len() == 0 {
        0
    } else {
        let earlier = count_votes(receipts.drop_last(), poll_id, candidate_id);
        if receipts.last().is_vote_for(poll_id, candidate_id) {
            earlier + 1
        } else {
            earlier
        }
    }
}

/// The ledger as a mathematical value: its records in the order in which
/// they were created.
pub struct LedgerView {
    pub polls: Seq<PollView>,
    pub candidates: Seq<CandidateView>,
    pub receipts: Seq<VoteReceiptView>,
}

impl LedgerView {
    /// The ledger without any record.
    pub open spec fn empty() -> LedgerView {
        LedgerView { polls: Seq::empty(), candidates: Seq::empty(), receipts: Seq::empty() }
    }

    /// Whether `creator` has a poll numbered `poll_id`.
    pub open spec fn has_poll(self, poll_id: u64, creator: Address) -> bool {
        exists|i: int|
            0 <= i < self.polls.len() && (#[trigger] self.polls[i]).is_poll(poll_id, creator)
    }

    /// The poll that `creator` numbered `poll_id`, where there is one.
    pub open spec fn poll(self, poll_id: u64, creator: Address) -> PollView {
        let i = choose|i: int|
            0 <= i < self.polls.len() && (#[trigger] self.polls[i]).is_poll(poll_id, creator);
        self.polls[i]
    }

    /// Whether a candidate has the number `candidate_id` under the poll
    /// number `poll_id`.
    pub open spec fn has_candidate(self, poll_id: u64, candidate_id: nat) -> bool {
        exists|j: int|
            0 <= j < self.candidates.len() && (#[trigger] self.candidates[j]).is_candidate(
                poll_id,
                candidate_id,
            )
    }

    /// Candidate number `candidate_id` under the poll number `poll_id`, where
    /// there is one.
    pub open spec fn candidate(self, poll_id: u64, candidate_id: nat) -> CandidateView {
        let j = choose|j: int|
            0 <= j < self.candidates.len() && (#[trigger] self.candidates[j]).is_candidate(
                poll_id,
                candidate_id,
            );
        self.candidates[j]
    }

    /// Whether `voter` has a receipt under the poll number `poll_id`.
    pub open spec fn has_receipt(self, poll_id: u64, voter: Address) -> bool {
        exists|k: int|
            0 <= k < self.receipts.len() && (#[trigger] self.receipts[k]).is_receipt(
                poll_id,
                voter,
            )
    }

    /// The receipt of `voter` under the poll number `poll_id`, where there
    /// is one.
    pub open spec fn receipt(self, poll_id: u64, voter: Address) -> VoteReceiptView {
        let k = choose|k: int|
            0 <= k < self.receipts.len() && (#[trigger] self.receipts[k]).is_receipt(
                poll_id,
                voter,
            );
        self.receipts[k]
    }

    /// Whether a record exists at the identity `id`.
    pub open spec fn holds(self, id: RecordId) -> bool {
        match id {
            RecordId::Poll { poll_id, creator } => self.has_poll(poll_id, creator),
            RecordId::Candidate { poll_id, candidate_id } => self.has_candidate(
                poll_id,
                candidate_id as nat,
            ),
            RecordId::VoteReceipt { poll_id, voter } => self.has_receipt(poll_id, voter),
        }
    }

    /// How many receipts are votes for candidate number `candidate_id` under
    /// the poll number `poll_id`.
    pub open spec fn votes_for(self, poll_id: u64, candidate_id: nat) -> nat {
        count_votes(self.receipts, poll_id, candidate_id)
    }

    /// Whether some poll numbered `poll_id` counts more than `candidate_id`
    /// candidates.
    pub open spec fn counts_candidate(self, poll_id: u64, candidate_id: nat) -> bool {
        exists|i: int|
            0 <= i < self.polls.len() && (#[trigger] self.polls[i]).poll_id == poll_id
                && candidate_id < self.polls[i].candidate_count
    }

    /// Whether some poll numbered `poll_id` was open at the moment `at`.
    pub open spec fn was_open(self, poll_id: u64, at: i64) -> bool {
        exists|i: int|
            0 <= i < self.polls.len() && (#[trigger] self.polls[i]).poll_id == poll_id
                && self.polls[i].is_open_at(at)
    }

    /// No two polls of one creator have the same number.
    pub open spec fn polls_distinct(self) -> bool {
        forall|i: int, j: int|
            0 <= i < j < self.polls.len() ==> !(#[trigger] self.polls[i]).is_poll(
                (#[trigger] self.polls[j]).poll_id,
                self.polls[j].creator,
            )
    }

    /// No two candidates under one poll number have the same number.
    pub open spec fn candidates_distinct(self) -> bool {
        forall|i: int, j: int|
            0 <= i < j < self.candidates.len() ==> !(#[trigger] self.candidates[i]).is_candidate(
                (#[trigger] self.candidates[j]).poll_id,
                self.candidates[j].candidate_id,
            )
    }

    /// No voter has two receipts under one poll number.
    pub open spec fn receipts_distinct(self) -> bool {
        forall|i: int, j: int|
            0 <= i < j < self.receipts.len() ==> !(#[trigger] self.receipts[i]).is_receipt(
                (#[trigger] self.receipts[j]).poll_id,
                self.receipts[j].voter,
            )
    }

    /// Every poll starts before it ends and has a description within the
    /// limit; every candidate has a name of one to fifty characters.
    pub open spec fn records_valid(self) -> bool {
        &&& forall|i: int| 0 <= i < self.polls.len() ==> (#[trigger] self.polls[i]).valid()
        &&& forall|j: int|
            0 <= j < self.candidates.len() ==> name_is_valid((#[trigger] self.candidates[j]).name)
    }

    /// Candidate numbers have no gaps: every number below a poll's count is
    /// the number of a candidate under the poll's number, every candidate's
    /// number is below the count of a poll with its poll number, and no poll
    /// counts more candidates than there are.
    pub open spec fn candidates_dense(self) -> bool {
        &&& forall|i: int, c: nat|
            0 <= i < self.polls.len() && c < self.polls[i].candidate_count
                ==> #[trigger] self.has_candidate(self.polls[i].poll_id, c)
        &&& forall|j: int|
            0 <= j < self.candidates.len() ==> self.counts_candidate(
                (#[trigger] self.candidates[j]).poll_id,
                self.candidates[j].candidate_id,
            )
        &&& forall|i: int|
            0 <= i < self.polls.len() ==> (#[trigger] self.polls[i]).candidate_count
                <= self.candidates.len()
    }

    /// Every candidate's count of votes is the number of receipts for it.
    pub open spec fn tallies_match(self) -> bool {
        forall|j: int|
            0 <= j < self.candidates.len() ==> (#[trigger] self.candidates[j]).vote_count
                == self.votes_for(self.candidates[j].poll_id, self.candidates[j].candidate_id)
    }

    /// Every receipt is for a candidate that exists, and was written while a
    /// poll with its poll number was open.
    pub open spec fn receipts_grounded(self) -> bool {
        forall|k: int|
            0 <= k < self.receipts.len() ==> {
                &&& self.has_candidate(
                    (#[trigger] self.receipts[k]).poll_id,
                    self.receipts[k].candidate_id,
                )
                &&& self.was_open(self.receipts[k].poll_id, self.receipts[k].timestamp)
            }
    }

    /// What holds of the ledger at all times.
    pub open spec fn wf(self) -> bool {
        &&& self.polls_distinct()
        &&& self.candidates_distinct()
        &&& self.receipts_distinct()
        &&& self.records_valid()
        &&& self.candidates_dense()
        &&& self.tallies_match()
        &&& self.receipts_grounded()
    }

    /// How a request to create a poll ends. The voting rules speak first,
    /// then the check of the creator's signature, then the storage: a creator
    /// uses a poll number once.
    pub open spec fn initialize_poll_outcome(
        self,
        creator: Signer,
        poll_id: u64,
        description: Seq<char>,
        start_time: i64,
        end_time: i64,
    ) -> Result<(), LedgerError> {
        match poll_request_check(description, start_time, end_time) {
            Err(refusal) => Err(LedgerError::Voting(refusal)),
            Ok(_) => if !creator.verified {
                Err(LedgerError::Unauthorized)
            } else if self.has_poll(poll_id, creator.address) {
                Err(LedgerError::AlreadyExists)
            } else {
                Ok(())
            },
        }
    }

    /// The ledger after a request to create a poll: with the new poll where
    /// the request is granted, unchanged where it is refused.
    pub open spec fn initialize_poll(
        self,
        creator: Signer,
        poll_id: u64,
        description: Seq<char>,
        start_time: i64,
        end_time: i64,
    ) -> LedgerView {
        if self.initialize_poll_outcome(creator, poll_id, description, start_time, end_time) is Ok {
            LedgerView {
                polls: self.polls.push(
                    new_poll(poll_id, description, start_time, end_time, creator.address),
                ),
                ..self
            }
        } else {
            self
        }
    }

    /// How a request to register a candidate in the poll that `creator`
    /// numbered `poll_id` ends: with the new candidate's number, or refused.
    /// The voting rules speak first, then the check of the payer's signature,
    /// then the storage: the poll must exist, and no candidate may have the
    /// poll's count as its number.
    pub open spec fn add_candidate_outcome(
        self,
        payer: Signer,
        poll_id: u64,
        creator: Address,
        name: Seq<char>,
    ) -> Result<nat, LedgerError> {
        if !name_is_valid(name) {
            Err(LedgerError::Voting(VotingError::InvalidCandidateName))
        } else if !payer.verified {
            Err(LedgerError::Unauthorized)
        } else if !self.has_poll(poll_id, creator) {
            Err(LedgerError::NotFound)
        } else if self.has_candidate(poll_id, self.poll(poll_id, creator).candidate_count) {
            Err(LedgerError::AlreadyExists)
        } else {
            Ok(self.poll(poll_id, creator).candidate_count)
        }
    }

    /// The ledger after a request to register a candidate: with the new
    /// candidate, and the poll's count one higher, where the request is
    /// granted, unchanged where it is refused.
    pub open spec fn add_candidate(
        self,
        payer: Signer,
        poll_id: u64,
        creator: Address,
        name: Seq<char>,
    ) -> LedgerView {
        if self.add_candidate_outcome(payer, poll_id, creator, name) is Ok {
            LedgerView {
                polls: self.polls.map_values(
                    |p: PollView|
                        if p.is_poll(poll_id, creator) {
                            p.counted()
                        } else {
                            p
                        },
                ),
                candidates: self.candidates.push(
                    self.poll(poll_id, creator).next_candidate(name),
                ),
                receipts: self.receipts,
            }
        } else {
            self
        }
    }

    /// How a request to vote, at the moment `now`, for candidate number
    /// `candidate_id` in the poll that `creator` numbered `poll_id` ends. The
    /// poll must exist for the voting rules to speak: it must be open at that
    /// moment. Then comes the check of the voter's signature, then the
    /// storage: the candidate must exist, and the voter may have no receipt
    /// under the poll's number.
    pub open spec fn cast_vote_outcome(
        self,
        voter: Signer,
        poll_id: u64,
        creator: Address,
        candidate_id: nat,
        now: i64,
    ) -> Result<(), LedgerError> {
        if !self.has_poll(poll_id, creator) {
            Err(LedgerError::NotFound)
        } else if !self.poll(poll_id, creator).is_open_at(now) {
            Err(LedgerError::Voting(VotingError::VotingPeriodInvalid))
        } else if !voter.verified {
            Err(LedgerError::Unauthorized)
        } else if !self.has_candidate(poll_id, candidate_id) {
            Err(LedgerError::NotFound)
        } else if self.has_receipt(poll_id, voter.address) {
            Err(LedgerError::AlreadyExists)
        } else {
            Ok(())
        }
    }

    /// The ledger after a request to vote: with the receipt, and the
    /// candidate's count of votes one higher, where the request is granted,
    /// unchanged where it is refused.
    pub open spec fn cast_vote(
        self,
        voter: Signer,
        poll_id: u64,
        creator: Address,
        candidate_id: nat,
        now: i64,
    ) -> LedgerView {
        if self.cast_vote_outcome(voter, poll_id, creator, candidate_id, now) is Ok {
            LedgerView {
                polls: self.polls,
                candidates: self.candidates.map_values(
                    |c: CandidateView|
                        if c.is_candidate(poll_id, candidate_id) {
                            CandidateView { vote_count: c.vote_count + 1, ..c }
                        } else {
                            c
                        },
                ),
                receipts: self.receipts.push(
                    VoteReceiptView {
                        voter: voter.address,
                        candidate_id,
                        poll_id,
                        timestamp: now,
                    },
                ),
            }
        } else {
            self
        }
    }
}

/// A request for one of the three operations.
pub enum Request {
    /// `signer` asks for a poll numbered `poll_id`, as its creator.
    InitializePoll {
        signer: Signer,
        poll_id: u64,
        description: Seq<char>,
        start_time: i64,
        end_time: i64,
    },
    /// `signer` asks, and pays, for a candidate called `name` in the poll
    /// that `creator` numbered `poll_id`.
    AddCandidate { signer: Signer, poll_id: u64, creator: Address, name: Seq<char> },
    /// `signer` votes, at the moment `now`, for candidate number
    /// `candidate_id` in the poll that `creator` numbered `poll_id`.
    CastVote { signer: Signer, poll_id: u64, creator: Address, candidate_id: nat, now: i64 },
}

impl LedgerView {
    /// The ledger after a request, granted or refused.
    pub open spec fn apply(self, request: Request) -> LedgerView {
        match request {
            Request::InitializePoll { signer, poll_id, description, start_time, end_time } => {
                self.initialize_poll(signer, poll_id, description, start_time, end_time)
            },
            Request::AddCandidate { signer, poll_id, creator, name } => {
                self.add_candidate(signer, poll_id, creator, name)
            },
            Request::CastVote { signer, poll_id, creator, candidate_id, now } => {
                self.cast_vote(signer, poll_id, creator, candidate_id, now)
            },
        }
    }

    /// The ledger after a history of requests, starting without any record.
    pub open spec fn replay(history: Seq<Request>) -> LedgerView
        decreases history.len(),
    {
        if history.len() == 0 {
            LedgerView::empty()
        } else {
            LedgerView::replay(history.drop_last()).apply(history.last())
        }
    }

    /// The ledger after one request to register a candidate for each of
    /// `names`, in their order, in the poll that `creator` numbered
    /// `poll_id`.
    pub open spec fn add_candidates(
        self,
        payer: Signer,
        poll_id: u64,
        creator: Address,
        names: Seq<Seq<char>>,
    ) -> LedgerView
        decreases names.len(),
    {
        if names.len() == 0 {
            self
        } else {
            self.add_candidates(payer, poll_id, creator, names.drop_last()).add_candidate(
                payer,
                poll_id,
                creator,
                names.last(),
            )
        }
    }

    /// Whether each of the requests of `add_candidates` is granted.
    pub open spec fn all_added(
        self,
        payer: Signer,
        poll_id: u64,
        creator: Address,
        names: Seq<Seq<char>>,
    ) -> bool
        decreases names.len(),
    {
        names.len() > 0 ==> {
            &&& self.all_added(payer, poll_id, creator, names.drop_last())
            &&& self.add_candidates(
                payer,
                poll_id,
                creator,
                names.drop_last(),
            ).add_candidate_outcome(payer, poll_id, creator, names.last()) is Ok
        }
    }

    /// Whether no poll numbered `poll_id` counts more candidates than the one
    /// that `creator` numbered so. It holds of every poll whose number no
    /// other creator has used.
    pub open spec fn leads_its_number(self, poll_id: u64, creator: Address) -> bool {
        forall|i: int|
            0 <= i < self.polls.len() && (#[trigger] self.polls[i]).poll_id == poll_id
                ==> self.polls[i].candidate_count <= self.poll(poll_id, creator).candidate_count
    }
}

} // verus!

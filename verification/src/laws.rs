//! What holds of every ledger that the three operations can bring about.

use vstd::prelude::*;
use crate::address::{Address, Signer};
use crate::errors::LedgerError;
use crate::model::{count_votes, LedgerView, Request};
use crate::states::{name_is_valid, VoteReceiptView};

verus! {

/// Receipts that hold no vote for a candidate count no vote for it.
pub proof fn lemma_no_votes(receipts: Seq<VoteReceiptView>, poll_id: u64, candidate_id: nat)
    requires
        forall|k: int|
            0 <= k < receipts.len() ==> !(#[trigger] receipts[k]).is_vote_for(
                poll_id,
                candidate_id,
            ),
    ensures
        count_votes(receipts, poll_id, candidate_id) == 0,
    decreases receipts.len(),
{
    if receipts.len() > 0 {
        assert(!receipts[receipts.len() - 1].is_vote_for(poll_id, candidate_id));
        lemma_no_votes(receipts.drop_last(), poll_id, candidate_id);
    }
}

/// No candidate has more votes than there are receipts.
pub proof fn lemma_votes_bounded(receipts: Seq<VoteReceiptView>, poll_id: u64, candidate_id: nat)
    ensures
        count_votes(receipts, poll_id, candidate_id) <= receipts.len(),
    decreases receipts.len(),
{
    if receipts.len() > 0 {
        lemma_votes_bounded(receipts.drop_last(), poll_id, candidate_id);
    }
}

/// One more receipt is one more vote for the candidate it names, and none for
/// any other.
pub proof fn lemma_votes_after_push(
    receipts: Seq<VoteReceiptView>,
    receipt: VoteReceiptView,
    poll_id: u64,
    candidate_id: nat,
)
    ensures
        count_votes(receipts.push(receipt), poll_id, candidate_id) == count_votes(
            receipts,
            poll_id,
            candidate_id,
        ) + if receipt.is_vote_for(poll_id, candidate_id) {
            1nat
        } else {
            0nat
        },
{
    assert(receipts.push(receipt).drop_last() =~= receipts);
    assert(receipts.push(receipt).last() == receipt);
}

/// In a well-formed ledger the poll that a creator numbered is the only
/// record that answers to the creator and the number.
pub proof fn lemma_poll_is_unique(ledger: LedgerView, i: int)
    requires
        ledger.polls_distinct(),
        0 <= i < ledger.polls.len(),
    ensures
        ledger.has_poll(ledger.polls[i].poll_id, ledger.polls[i].creator),
        ledger.poll(ledger.polls[i].poll_id, ledger.polls[i].creator) == ledger.polls[i],
{
    let poll_id = ledger.polls[i].poll_id;
    let creator = ledger.polls[i].creator;
    assert(ledger.polls[i].is_poll(poll_id, creator));
    let c = choose|c: int|
        0 <= c < ledger.polls.len() && (#[trigger] ledger.polls[c]).is_poll(poll_id, creator);
    if c < i {
        assert(!ledger.polls[c].is_poll(ledger.polls[i].poll_id, ledger.polls[i].creator));
    } else if i < c {
        assert(!ledger.polls[i].is_poll(ledger.polls[c].poll_id, ledger.polls[c].creator));
    }
}

/// In a well-formed ledger the candidate with a number under a poll number is
/// the only record that answers to the two numbers.
pub proof fn lemma_candidate_is_unique(ledger: LedgerView, j: int)
    requires
        ledger.candidates_distinct(),
        0 <= j < ledger.candidates.len(),
    ensures
        ledger.has_candidate(ledger.candidates[j].poll_id, ledger.candidates[j].candidate_id),
        ledger.candidate(ledger.candidates[j].poll_id, ledger.candidates[j].candidate_id)
            == ledger.candidates[j],
{
    let poll_id = ledger.candidates[j].poll_id;
    let candidate_id = ledger.candidates[j].candidate_id;
    assert(ledger.candidates[j].is_candidate(poll_id, candidate_id));
    let c = choose|c: int|
        0 <= c < ledger.candidates.len() && (#[trigger] ledger.candidates[c]).is_candidate(
            poll_id,
            candidate_id,
        );
    if c < j {
        assert(!ledger.candidates[c].is_candidate(
            ledger.candidates[j].poll_id,
            ledger.candidates[j].candidate_id,
        ));
    } else if j < c {
        assert(!ledger.candidates[j].is_candidate(
            ledger.candidates[c].poll_id,
            ledger.candidates[c].candidate_id,
        ));
    }
}

/// In a well-formed ledger the receipt of a voter under a poll number is the
/// only record that answers to the voter and the number.
pub proof fn lemma_receipt_is_unique(ledger: LedgerView, k: int)
    requires
        ledger.receipts_distinct(),
        0 <= k < ledger.receipts.len(),
    ensures
        ledger.has_receipt(ledger.receipts[k].poll_id, ledger.receipts[k].voter),
        ledger.receipt(ledger.receipts[k].poll_id, ledger.receipts[k].voter) == ledger.receipts[k],
{
    let poll_id = ledger.receipts[k].poll_id;
    let voter = ledger.receipts[k].voter;
    assert(ledger.receipts[k].is_receipt(poll_id, voter));
    let c = choose|c: int|
        0 <= c < ledger.receipts.len() && (#[trigger] ledger.receipts[c]).is_receipt(
            poll_id,
            voter,
        );
    if c < k {
        assert(!ledger.receipts[c].is_receipt(
            ledger.receipts[k].poll_id,
            ledger.receipts[k].voter,
        ));
    } else if k < c {
        assert(!ledger.receipts[k].is_receipt(
            ledger.receipts[c].poll_id,
            ledger.receipts[c].voter,
        ));
    }
}

/// The ledger without records is well-formed.
pub proof fn lemma_empty_is_wf()
    ensures
        LedgerView::empty().wf(),
{
}

/// Creating a poll keeps the ledger well-formed, whether the request is
/// granted or refused.
pub proof fn lemma_initialize_poll_keeps_wf(
    ledger: LedgerView,
    creator: Signer,
    poll_id: u64,
    description: Seq<char>,
    start_time: i64,
    end_time: i64,
)
    requires
        ledger.wf(),
    ensures
        ledger.initialize_poll(creator, poll_id, description, start_time, end_time).wf(),
{
    let after = ledger.initialize_poll(creator, poll_id, description, start_time, end_time);
    if ledger.initialize_poll_outcome(creator, poll_id, description, start_time, end_time) is Ok {
        let n = ledger.polls.len() as int;
        assert forall|i: int| 0 <= i < n implies after.polls[i] == ledger.polls[i] by {}
        assert(after.polls_distinct()) by {
            assert forall|i: int, j: int| 0 <= i < j < after.polls.len() implies !(
            #[trigger] after.polls[i]).is_poll(
                (#[trigger] after.polls[j]).poll_id,
                after.polls[j].creator,
            ) by {
                if j == n {
                    assert(!ledger.polls[i].is_poll(poll_id, creator.address));
                } else {
                    assert(!ledger.polls[i].is_poll(ledger.polls[j].poll_id, ledger.polls[j].creator));
                }
            }
        }
        assert(after.records_valid());
        assert(after.candidates_dense()) by {
            assert forall|i: int, c: nat|
                0 <= i < after.polls.len() && c < after.polls[i].candidate_count implies
                #[trigger] after.has_candidate(after.polls[i].poll_id, c) by {
                if i < n {
                    assert(ledger.has_candidate(ledger.polls[i].poll_id, c));
                    assert(after.candidates == ledger.candidates);
                }
            }
            assert forall|j: int| 0 <= j < after.candidates.len() implies after.counts_candidate(
                (#[trigger] after.candidates[j]).poll_id,
                after.candidates[j].candidate_id,
            ) by {
                let c = ledger.candidates[j];
                assert(ledger.counts_candidate(c.poll_id, c.candidate_id));
                let i = choose|i: int|
                    0 <= i < ledger.polls.len() && (#[trigger] ledger.polls[i]).poll_id
                        == c.poll_id && c.candidate_id < ledger.polls[i].candidate_count;
                assert(after.polls[i].poll_id == c.poll_id);
            }
        }
        assert(after.receipts_grounded()) by {
            assert forall|k: int| 0 <= k < after.receipts.len() implies after.was_open(
                (#[trigger] after.receipts[k]).poll_id,
                after.receipts[k].timestamp,
            ) by {
                let r = ledger.receipts[k];
                assert(ledger.was_open(r.poll_id, r.timestamp));
                let i = choose|i: int|
                    0 <= i < ledger.polls.len() && (#[trigger] ledger.polls[i]).poll_id
                        == r.poll_id && ledger.polls[i].is_open_at(r.timestamp);
                assert(after.polls[i].poll_id == r.poll_id);
            }
        }
    }
}

/// Registering a candidate keeps the ledger well-formed, whether the request
/// is granted or refused.
pub proof fn lemma_add_candidate_keeps_wf(
    ledger: LedgerView,
    payer: Signer,
    poll_id: u64,
    creator: Address,
    name: Seq<char>,
)
    requires
        ledger.wf(),
    ensures
        ledger.add_candidate(payer, poll_id, creator, name).wf(),
{
    let after = ledger.add_candidate(payer, poll_id, creator, name);
    if ledger.add_candidate_outcome(payer, poll_id, creator, name) is Ok {
        let n = ledger.candidates.len() as int;
        let poll = ledger.poll(poll_id, creator);
        let number = poll.candidate_count;
        let at = choose|i: int|
            0 <= i < ledger.polls.len() && (#[trigger] ledger.polls[i]).is_poll(poll_id, creator);
        assert(ledger.polls[at] == poll);
        assert(after.candidates =~= ledger.candidates.push(poll.next_candidate(name)));
        assert(after.receipts == ledger.receipts);
        assert(after.polls.len() == ledger.polls.len());
        assert forall|i: int| 0 <= i < ledger.polls.len() implies {
            &&& (#[trigger] after.polls[i]).poll_id == ledger.polls[i].poll_id
            &&& after.polls[i].creator == ledger.polls[i].creator
            &&& after.polls[i].start_time == ledger.polls[i].start_time
            &&& after.polls[i].end_time == ledger.polls[i].end_time
            &&& after.polls[i].description == ledger.polls[i].description
            &&& after.polls[i].candidate_count >= ledger.polls[i].candidate_count
            &&& after.polls[i].candidate_count <= ledger.polls[i].candidate_count + 1
            &&& after.polls[i].candidate_count > ledger.polls[i].candidate_count ==> i == at
        } by {
            if i != at && ledger.polls[i].is_poll(poll_id, creator) {
                lemma_poll_is_unique(ledger, i);
            }
        }
        assert forall|j: int| 0 <= j < n implies after.candidates[j] == ledger.candidates[j] by {}
        assert(after.candidates[n] == poll.next_candidate(name));
        assert(after.polls_distinct()) by {
            assert forall|i: int, j: int| 0 <= i < j < after.polls.len() implies !(
            #[trigger] after.polls[i]).is_poll(
                (#[trigger] after.polls[j]).poll_id,
                after.polls[j].creator,
            ) by {
                assert(!ledger.polls[i].is_poll(ledger.polls[j].poll_id, ledger.polls[j].creator));
            }
        }
        assert(after.candidates_distinct()) by {
            assert forall|i: int, j: int| 0 <= i < j < after.candidates.len() implies !(
            #[trigger] after.candidates[i]).is_candidate(
                (#[trigger] after.candidates[j]).poll_id,
                after.candidates[j].candidate_id,
            ) by {
                if j == n {
                    assert(!ledger.candidates[i].is_candidate(poll_id, number));
                } else {
                    assert(!ledger.candidates[i].is_candidate(
                        ledger.candidates[j].poll_id,
                        ledger.candidates[j].candidate_id,
                    ));
                }
            }
        }
        assert(after.receipts_distinct());
        assert(after.records_valid()) by {
            assert forall|i: int| 0 <= i < after.polls.len() implies (
            #[trigger] after.polls[i]).valid() by {
                assert(ledger.polls[i].valid());
            }
            assert forall|j: int| 0 <= j < after.candidates.len() implies name_is_valid(
                (#[trigger] after.candidates[j]).name,
            ) by {
                if j < n {
                    assert(name_is_valid(ledger.candidates[j].name));
                }
            }
        }
        assert(after.candidates_dense()) by {
            assert forall|i: int, c: nat|
                0 <= i < after.polls.len() && c < after.polls[i].candidate_count implies
                #[trigger] after.has_candidate(after.polls[i].poll_id, c) by {
                if c < ledger.polls[i].candidate_count {
                    assert(ledger.has_candidate(ledger.polls[i].poll_id, c));
                    let j = choose|j: int|
                        0 <= j < ledger.candidates.len() && (
                        #[trigger] ledger.candidates[j]).is_candidate(ledger.polls[i].poll_id, c);
                    assert(after.candidates[j].is_candidate(after.polls[i].poll_id, c));
                } else {
                    assert(i == at);
                    assert(after.candidates[n].is_candidate(after.polls[i].poll_id, c));
                }
            }
            assert forall|j: int| 0 <= j < after.candidates.len() implies after.counts_candidate(
                (#[trigger] after.candidates[j]).poll_id,
                after.candidates[j].candidate_id,
            ) by {
                if j < n {
                    let c = ledger.candidates[j];
                    assert(ledger.counts_candidate(c.poll_id, c.candidate_id));
                    let i = choose|i: int|
                        0 <= i < ledger.polls.len() && (#[trigger] ledger.polls[i]).poll_id
                            == c.poll_id && c.candidate_id < ledger.polls[i].candidate_count;
                    assert(after.polls[i].poll_id == c.poll_id);
                } else {
                    assert(after.polls[at].poll_id == poll_id);
                    assert(after.polls[at].candidate_count == number + 1);
                }
            }
            assert forall|i: int| 0 <= i < after.polls.len() implies (
            #[trigger] after.polls[i]).candidate_count <= after.candidates.len() by {
                assert(ledger.polls[i].candidate_count <= ledger.candidates.len());
            }
        }
        assert(after.tallies_match()) by {
            assert forall|j: int| 0 <= j < after.candidates.len() implies (
            #[trigger] after.candidates[j]).vote_count == after.votes_for(
                after.candidates[j].poll_id,
                after.candidates[j].candidate_id,
            ) by {
                if j < n {
                    assert(ledger.candidates[j].vote_count == ledger.votes_for(
                        ledger.candidates[j].poll_id,
                        ledger.candidates[j].candidate_id,
                    ));
                } else {
                    assert forall|k: int| 0 <= k < ledger.receipts.len() implies !(
                    #[trigger] ledger.receipts[k]).is_vote_for(poll_id, number) by {
                        assert(ledger.has_candidate(
                            ledger.receipts[k].poll_id,
                            ledger.receipts[k].candidate_id,
                        ));
                    }
                    lemma_no_votes(ledger.receipts, poll_id, number);
                }
            }
        }
        assert(after.receipts_grounded()) by {
            assert forall|k: int| 0 <= k < after.receipts.len() implies {
                &&& after.has_candidate(
                    (#[trigger] after.receipts[k]).poll_id,
                    after.receipts[k].candidate_id,
                )
                &&& after.was_open(after.receipts[k].poll_id, after.receipts[k].timestamp)
            } by {
                let r = ledger.receipts[k];
                assert(ledger.has_candidate(r.poll_id, r.candidate_id));
                let j = choose|j: int|
                    0 <= j < ledger.candidates.len() && (
                    #[trigger] ledger.candidates[j]).is_candidate(r.poll_id, r.candidate_id);
                assert(after.candidates[j].is_candidate(r.poll_id, r.candidate_id));
                assert(ledger.was_open(r.poll_id, r.timestamp));
                let i = choose|i: int|
                    0 <= i < ledger.polls.len() && (#[trigger] ledger.polls[i]).poll_id
                        == r.poll_id && ledger.polls[i].is_open_at(r.timestamp);
                assert(after.polls[i].poll_id == r.poll_id);
                assert(after.polls[i].is_open_at(r.timestamp));
            }
        }
    }
}

/// Casting a vote keeps the ledger well-formed, whether the request is
/// granted or refused.
pub proof fn lemma_cast_vote_keeps_wf(
    ledger: LedgerView,
    voter: Signer,
    poll_id: u64,
    creator: Address,
    candidate_id: nat,
    now: i64,
)
    requires
        ledger.wf(),
    ensures
        ledger.cast_vote(voter, poll_id, creator, candidate_id, now).wf(),
{
    let after = ledger.cast_vote(voter, poll_id, creator, candidate_id, now);
    if ledger.cast_vote_outcome(voter, poll_id, creator, candidate_id, now) is Ok {
        let n = ledger.receipts.len() as int;
        let receipt = VoteReceiptView {
            voter: voter.address,
            candidate_id,
            poll_id,
            timestamp: now,
        };
        let at = choose|i: int|
            0 <= i < ledger.polls.len() && (#[trigger] ledger.polls[i]).is_poll(poll_id, creator);
        assert(after.polls == ledger.polls);
        assert(after.receipts =~= ledger.receipts.push(receipt));
        assert(after.candidates.len() == ledger.candidates.len());
        assert forall|j: int| 0 <= j < ledger.candidates.len() implies {
            &&& (#[trigger] after.candidates[j]).poll_id == ledger.candidates[j].poll_id
            &&& after.candidates[j].candidate_id == ledger.candidates[j].candidate_id
            &&& after.candidates[j].name == ledger.candidates[j].name
            &&& after.candidates[j].vote_count == ledger.candidates[j].vote_count + if
                ledger.candidates[j].is_candidate(poll_id, candidate_id) {
                1nat
            } else {
                0nat
            }
        } by {}
        assert forall|k: int| 0 <= k < n implies after.receipts[k] == ledger.receipts[k] by {}
        assert(after.receipts[n] == receipt);
        assert(after.polls_distinct());
        assert(after.candidates_distinct()) by {
            assert forall|i: int, j: int| 0 <= i < j < after.candidates.len() implies !(
            #[trigger] after.candidates[i]).is_candidate(
                (#[trigger] after.candidates[j]).poll_id,
                after.candidates[j].candidate_id,
            ) by {
                assert(!ledger.candidates[i].is_candidate(
                    ledger.candidates[j].poll_id,
                    ledger.candidates[j].candidate_id,
                ));
            }
        }
        assert(after.receipts_distinct()) by {
            assert forall|i: int, j: int| 0 <= i < j < after.receipts.len() implies !(
            #[trigger] after.receipts[i]).is_receipt(
                (#[trigger] after.receipts[j]).poll_id,
                after.receipts[j].voter,
            ) by {
                if j == n {
                    assert(!ledger.receipts[i].is_receipt(poll_id, voter.address));
                } else {
                    assert(!ledger.receipts[i].is_receipt(
                        ledger.receipts[j].poll_id,
                        ledger.receipts[j].voter,
                    ));
                }
            }
        }
        assert(after.records_valid()) by {
            assert forall|j: int| 0 <= j < after.candidates.len() implies name_is_valid(
                (#[trigger] after.candidates[j]).name,
            ) by {
                assert(name_is_valid(ledger.candidates[j].name));
            }
        }
        assert(after.candidates_dense()) by {
            assert forall|i: int, c: nat|
                0 <= i < after.polls.len() && c < after.polls[i].candidate_count implies
                #[trigger] after.has_candidate(after.polls[i].poll_id, c) by {
                assert(ledger.has_candidate(ledger.polls[i].poll_id, c));
                let j = choose|j: int|
                    0 <= j < ledger.candidates.len() && (
                    #[trigger] ledger.candidates[j]).is_candidate(ledger.polls[i].poll_id, c);
                assert(after.candidates[j].is_candidate(after.polls[i].poll_id, c));
            }
            assert forall|j: int| 0 <= j < after.candidates.len() implies after.counts_candidate(
                (#[trigger] after.candidates[j]).poll_id,
                after.candidates[j].candidate_id,
            ) by {
                let c = ledger.candidates[j];
                assert(ledger.counts_candidate(c.poll_id, c.candidate_id));
            }
            assert forall|i: int| 0 <= i < after.polls.len() implies (
            #[trigger] after.polls[i]).candidate_count <= after.candidates.len() by {
                assert(ledger.polls[i].candidate_count <= ledger.candidates.len());
            }
        }
        assert(after.tallies_match()) by {
            assert forall|j: int| 0 <= j < after.candidates.len() implies (
            #[trigger] after.candidates[j]).vote_count == after.votes_for(
                after.candidates[j].poll_id,
                after.candidates[j].candidate_id,
            ) by {
                let c = ledger.candidates[j];
                assert(c.vote_count == ledger.votes_for(c.poll_id, c.candidate_id));
                lemma_votes_after_push(ledger.receipts, receipt, c.poll_id, c.candidate_id);
            }
        }
        assert(after.receipts_grounded()) by {
            assert forall|k: int| 0 <= k < after.receipts.len() implies {
                &&& after.has_candidate(
                    (#[trigger] after.receipts[k]).poll_id,
                    after.receipts[k].candidate_id,
                )
                &&& after.was_open(after.receipts[k].poll_id, after.receipts[k].timestamp)
            } by {
                let r = after.receipts[k];
                if k < n {
                    assert(ledger.has_candidate(
                        ledger.receipts[k].poll_id,
                        ledger.receipts[k].candidate_id,
                    ));
                    assert(ledger.was_open(ledger.receipts[k].poll_id, ledger.receipts[k].timestamp));
                } else {
                    assert(ledger.has_candidate(poll_id, candidate_id));
                    assert(ledger.polls[at].poll_id == poll_id);
                    assert(ledger.polls[at].is_open_at(now));
                    assert(ledger.was_open(poll_id, now));
                }
                assert(ledger.has_candidate(r.poll_id, r.candidate_id));
                let j = choose|j: int|
                    0 <= j < ledger.candidates.len() && (
                    #[trigger] ledger.candidates[j]).is_candidate(r.poll_id, r.candidate_id);
                assert(after.candidates[j].is_candidate(r.poll_id, r.candidate_id));
            }
        }
    }
}

/// Records are never deleted, and a request changes little of what exists:
/// it creates at most one record of each kind, it leaves every receipt as it
/// is, it changes nothing of a poll but its count of candidates and nothing
/// of a candidate but its count of votes, and a count never goes down nor up
/// by more than one.
pub proof fn lemma_apply_keeps_records(ledger: LedgerView, request: Request)
    ensures
        ({
            let after = ledger.apply(request);
            &&& ledger.polls.len() <= after.polls.len() <= ledger.polls.len() + 1
            &&& ledger.candidates.len() <= after.candidates.len() <= ledger.candidates.len() + 1
            &&& ledger.receipts.len() <= after.receipts.len() <= ledger.receipts.len() + 1
            &&& forall|i: int|
                0 <= i < ledger.polls.len() ==> {
                    &&& (#[trigger] after.polls[i]).poll_id == ledger.polls[i].poll_id
                    &&& after.polls[i].creator == ledger.polls[i].creator
                    &&& after.polls[i].description == ledger.polls[i].description
                    &&& after.polls[i].start_time == ledger.polls[i].start_time
                    &&& after.polls[i].end_time == ledger.polls[i].end_time
                    &&& ledger.polls[i].candidate_count <= after.polls[i].candidate_count
                        <= ledger.polls[i].candidate_count + 1
                }
            &&& forall|j: int|
                0 <= j < ledger.candidates.len() ==> {
                    &&& (#[trigger] after.candidates[j]).poll_id == ledger.candidates[j].poll_id
                    &&& after.candidates[j].candidate_id == ledger.candidates[j].candidate_id
                    &&& after.candidates[j].name == ledger.candidates[j].name
                    &&& ledger.candidates[j].vote_count <= after.candidates[j].vote_count
                        <= ledger.candidates[j].vote_count + 1
                }
            &&& forall|k: int|
                0 <= k < ledger.receipts.len() ==> #[trigger] after.receipts[k]
                    == ledger.receipts[k]
        }),
{
}

/// Every request keeps the ledger well-formed.
pub proof fn lemma_apply_keeps_wf(ledger: LedgerView, request: Request)
    requires
        ledger.wf(),
    ensures
        ledger.apply(request).wf(),
{
    match request {
        Request::InitializePoll { signer, poll_id, description, start_time, end_time } => {
            lemma_initialize_poll_keeps_wf(
                ledger,
                signer,
                poll_id,
                description,
                start_time,
                end_time,
            );
        },
        Request::AddCandidate { signer, poll_id, creator, name } => {
            lemma_add_candidate_keeps_wf(ledger, signer, poll_id, creator, name);
        },
        Request::CastVote { signer, poll_id, creator, candidate_id, now } => {
            lemma_cast_vote_keeps_wf(ledger, signer, poll_id, creator, candidate_id, now);
        },
    }
}

/// Whatever was asked of the ledger since it was empty, in whatever order,
/// it is well-formed.
pub proof fn lemma_every_history_is_wf(history: Seq<Request>)
    ensures
        LedgerView::replay(history).wf(),
    decreases history.len(),
{
    if history.len() == 0 {
        lemma_empty_is_wf();
    } else {
        lemma_every_history_is_wf(history.drop_last());
        lemma_apply_keeps_wf(LedgerView::replay(history.drop_last()), history.last());
    }
}

/// A granted registration gives the candidate the poll's count as its
/// number, creates the candidate without votes, and raises the poll's count
/// by exactly one.
pub proof fn lemma_add_candidate_takes_next_number(
    ledger: LedgerView,
    payer: Signer,
    poll_id: u64,
    creator: Address,
    name: Seq<char>,
)
    requires
        ledger.wf(),
        ledger.add_candidate_outcome(payer, poll_id, creator, name) is Ok,
    ensures
        ({
            let number = ledger.poll(poll_id, creator).candidate_count;
            let after = ledger.add_candidate(payer, poll_id, creator, name);
            &&& ledger.add_candidate_outcome(payer, poll_id, creator, name) == Ok::<
                nat,
                LedgerError,
            >(number)
            &&& !ledger.has_candidate(poll_id, number)
            &&& after.has_poll(poll_id, creator)
            &&& after.poll(poll_id, creator) == ledger.poll(poll_id, creator).counted()
            &&& after.has_candidate(poll_id, number)
            &&& after.candidate(poll_id, number) == ledger.poll(poll_id, creator).next_candidate(
                name,
            )
        }),
{
    let number = ledger.poll(poll_id, creator).candidate_count;
    let after = ledger.add_candidate(payer, poll_id, creator, name);
    lemma_add_candidate_keeps_wf(ledger, payer, poll_id, creator, name);
    let at = choose|i: int|
        0 <= i < ledger.polls.len() && (#[trigger] ledger.polls[i]).is_poll(poll_id, creator);
    assert(after.polls[at] == ledger.polls[at].counted());
    assert(after.polls[at].is_poll(poll_id, creator));
    lemma_poll_is_unique(after, at);
    let n = ledger.candidates.len() as int;
    assert(after.candidates[n] == ledger.poll(poll_id, creator).next_candidate(name));
    assert(after.candidates[n].is_candidate(poll_id, number));
    lemma_candidate_is_unique(after, n);
}

/// A registration leaves every candidate that exists as it is.
pub proof fn lemma_add_candidate_keeps_candidates(
    ledger: LedgerView,
    payer: Signer,
    poll_id: u64,
    creator: Address,
    name: Seq<char>,
    other_poll_id: u64,
    other_candidate_id: nat,
)
    requires
        ledger.wf(),
        ledger.has_candidate(other_poll_id, other_candidate_id),
    ensures
        ({
            let after = ledger.add_candidate(payer, poll_id, creator, name);
            &&& after.has_candidate(other_poll_id, other_candidate_id)
            &&& after.candidate(other_poll_id, other_candidate_id) == ledger.candidate(
                other_poll_id,
                other_candidate_id,
            )
        }),
{
    let after = ledger.add_candidate(payer, poll_id, creator, name);
    lemma_add_candidate_keeps_wf(ledger, payer, poll_id, creator, name);
    let j = choose|j: int|
        0 <= j < ledger.candidates.len() && (#[trigger] ledger.candidates[j]).is_candidate(
            other_poll_id,
            other_candidate_id,
        );
    lemma_candidate_is_unique(ledger, j);
    assert(after.candidates[j] == ledger.candidates[j]);
    lemma_candidate_is_unique(after, j);
}

/// Candidate numbers are dense. In a well-formed ledger every number below
/// a poll's count is the number of a candidate under the poll's number.
/// Where no poll of that number counts more, these are all of them: the
/// candidates under the poll's number are exactly those numbered from zero to
/// one below the poll's count.
pub proof fn lemma_candidate_numbers_are_dense(ledger: LedgerView, poll_id: u64, creator: Address)
    requires
        ledger.wf(),
        ledger.has_poll(poll_id, creator),
    ensures
        forall|c: nat|
            c < ledger.poll(poll_id, creator).candidate_count ==> #[trigger] ledger.has_candidate(
                poll_id,
                c,
            ),
        ledger.leads_its_number(poll_id, creator) ==> forall|c: nat| #[trigger]
            ledger.has_candidate(poll_id, c) <==> c < ledger.poll(poll_id, creator).candidate_count,
{
    let at = choose|i: int|
        0 <= i < ledger.polls.len() && (#[trigger] ledger.polls[i]).is_poll(poll_id, creator);
    assert forall|c: nat| c < ledger.poll(poll_id, creator).candidate_count implies #[trigger]
        ledger.has_candidate(poll_id, c) by {
        assert(ledger.has_candidate(ledger.polls[at].poll_id, c));
    }
    if ledger.leads_its_number(poll_id, creator) {
        assert forall|c: nat| #[trigger] ledger.has_candidate(poll_id, c) implies c < ledger.poll(
            poll_id,
            creator,
        ).candidate_count by {
            let j = choose|j: int|
                0 <= j < ledger.candidates.len() && (#[trigger] ledger.candidates[j]).is_candidate(
                    poll_id,
                    c,
                );
            assert(ledger.counts_candidate(
                ledger.candidates[j].poll_id,
                ledger.candidates[j].candidate_id,
            ));
        }
    }
}

/// A poll whose number no other creator has used counts no fewer candidates
/// than any poll of its number.
pub proof fn lemma_unshared_number_leads(ledger: LedgerView, poll_id: u64, creator: Address)
    requires
        ledger.polls_distinct(),
        ledger.has_poll(poll_id, creator),
        forall|i: int|
            0 <= i < ledger.polls.len() && (#[trigger] ledger.polls[i]).poll_id == poll_id
                ==> ledger.polls[i].creator == creator,
    ensures
        ledger.leads_its_number(poll_id, creator),
{
    assert forall|i: int|
        0 <= i < ledger.polls.len() && (#[trigger] ledger.polls[i]).poll_id
            == poll_id implies ledger.polls[i].candidate_count <= ledger.poll(
        poll_id,
        creator,
    ).candidate_count by {
        lemma_poll_is_unique(ledger, i);
    }
}

/// After any number of granted registrations in one poll, the poll's count
/// has grown by that number, and the candidates registered have the numbers
/// from the count that the poll began with onwards, in the order of the
/// requests: from zero, in a poll that began without candidates.
pub proof fn lemma_add_candidates_numbers(
    ledger: LedgerView,
    payer: Signer,
    poll_id: u64,
    creator: Address,
    names: Seq<Seq<char>>,
)
    requires
        ledger.wf(),
        ledger.has_poll(poll_id, creator),
        ledger.all_added(payer, poll_id, creator, names),
    ensures
        ({
            let first = ledger.poll(poll_id, creator).candidate_count;
            let after = ledger.add_candidates(payer, poll_id, creator, names);
            &&& after.wf()
            &&& after.has_poll(poll_id, creator)
            &&& after.poll(poll_id, creator).candidate_count == first + names.len()
            &&& forall|c: nat|
                first <= c < first + names.len() ==> {
                    &&& #[trigger] after.has_candidate(poll_id, c)
                    &&& after.candidate(poll_id, c).name == names[c - first]
                }
            &&& after.leads_its_number(poll_id, creator) ==> forall|c: nat| #[trigger]
                after.has_candidate(poll_id, c) <==> c < first + names.len()
        }),
    decreases names.len(),
{
    let first = ledger.poll(poll_id, creator).candidate_count;
    let after = ledger.add_candidates(payer, poll_id, creator, names);
    if names.len() > 0 {
        let earlier = names.drop_last();
        let before = ledger.add_candidates(payer, poll_id, creator, earlier);
        lemma_add_candidates_numbers(ledger, payer, poll_id, creator, earlier);
        lemma_add_candidate_takes_next_number(before, payer, poll_id, creator, names.last());
        lemma_add_candidate_keeps_wf(before, payer, poll_id, creator, names.last());
        assert(after == before.add_candidate(payer, poll_id, creator, names.last()));
        let number = before.poll(poll_id, creator).candidate_count;
        assert(number == first + earlier.len());
        assert(earlier.len() == names.len() - 1);
        assert forall|c: nat| first <= c < first + names.len() implies {
            &&& #[trigger] after.has_candidate(poll_id, c)
            &&& after.candidate(poll_id, c).name == names[c - first]
        } by {
            if c < number {
                assert(before.has_candidate(poll_id, c));
                assert(before.candidate(poll_id, c).name == earlier[c - first]);
                lemma_add_candidate_keeps_candidates(
                    before,
                    payer,
                    poll_id,
                    creator,
                    names.last(),
                    poll_id,
                    c,
                );
                assert(earlier[c - first] == names[c - first]);
            } else {
                assert(c == number);
                assert(after.candidate(poll_id, number).name == names.last());
                assert(names.last() == names[c - first]);
            }
        }
    }
    assert(after.leads_its_number(poll_id, creator) ==> forall|c: nat| #[trigger]
        after.has_candidate(poll_id, c) <==> c < first + names.len()) by {
        lemma_candidate_numbers_are_dense(after, poll_id, creator);
    }
}

/// One vote for each voter and poll number. Once a vote was granted, no
/// further vote of the same voter under the same poll number is: where
/// nothing else stands against it, it is refused because the receipt exists.
pub proof fn lemma_second_vote_is_refused(
    ledger: LedgerView,
    voter: Signer,
    poll_id: u64,
    creator: Address,
    candidate_id: nat,
    now: i64,
    again: Signer,
    other_creator: Address,
    other_candidate_id: nat,
    later: i64,
)
    requires
        ledger.cast_vote_outcome(voter, poll_id, creator, candidate_id, now) is Ok,
        again.address == voter.address,
    ensures
        ({
            let after = ledger.cast_vote(voter, poll_id, creator, candidate_id, now);
            let second = after.cast_vote_outcome(
                again,
                poll_id,
                other_creator,
                other_candidate_id,
                later,
            );
            &&& after.has_receipt(poll_id, voter.address)
            &&& second is Err
            &&& after.has_poll(poll_id, other_creator) && after.poll(
                poll_id,
                other_creator,
            ).is_open_at(later) && again.verified && after.has_candidate(
                poll_id,
                other_candidate_id,
            ) ==> second == Err::<(), LedgerError>(LedgerError::AlreadyExists)
        }),
{
    let after = ledger.cast_vote(voter, poll_id, creator, candidate_id, now);
    let n = ledger.receipts.len() as int;
    assert(after.receipts[n].is_receipt(poll_id, voter.address));
}

/// A vote changes nothing for a vote under another poll number, nor for the
/// vote of another voter: who could vote before can vote after. So the voter
/// who has voted under one poll number can still vote under another.
pub proof fn lemma_vote_elsewhere_is_unaffected(
    ledger: LedgerView,
    voter: Signer,
    poll_id: u64,
    creator: Address,
    candidate_id: nat,
    now: i64,
    other_voter: Signer,
    other_poll_id: u64,
    other_creator: Address,
    other_candidate_id: nat,
    later: i64,
)
    requires
        poll_id != other_poll_id || voter.address != other_voter.address,
    ensures
        ledger.cast_vote(voter, poll_id, creator, candidate_id, now).cast_vote_outcome(
            other_voter,
            other_poll_id,
            other_creator,
            other_candidate_id,
            later,
        ) == ledger.cast_vote_outcome(
            other_voter,
            other_poll_id,
            other_creator,
            other_candidate_id,
            later,
        ),
{
    let after = ledger.cast_vote(voter, poll_id, creator, candidate_id, now);
    if ledger.cast_vote_outcome(voter, poll_id, creator, candidate_id, now) is Ok {
        let n = ledger.receipts.len() as int;
        assert(after.polls == ledger.polls);
        assert(after.candidates.len() == ledger.candidates.len());
        assert(after.has_candidate(other_poll_id, other_candidate_id) == ledger.has_candidate(
            other_poll_id,
            other_candidate_id,
        )) by {
            if ledger.has_candidate(other_poll_id, other_candidate_id) {
                let j = choose|j: int|
                    0 <= j < ledger.candidates.len() && (
                    #[trigger] ledger.candidates[j]).is_candidate(other_poll_id, other_candidate_id);
                assert(after.candidates[j].is_candidate(other_poll_id, other_candidate_id));
            }
            if after.has_candidate(other_poll_id, other_candidate_id) {
                let j = choose|j: int|
                    0 <= j < after.candidates.len() && (
                    #[trigger] after.candidates[j]).is_candidate(other_poll_id, other_candidate_id);
                assert(ledger.candidates[j].is_candidate(other_poll_id, other_candidate_id));
            }
        }
        assert(after.has_receipt(other_poll_id, other_voter.address) == ledger.has_receipt(
            other_poll_id,
            other_voter.address,
        )) by {
            if ledger.has_receipt(other_poll_id, other_voter.address) {
                let k = choose|k: int|
                    0 <= k < ledger.receipts.len() && (#[trigger] ledger.receipts[k]).is_receipt(
                        other_poll_id,
                        other_voter.address,
                    );
                assert(after.receipts[k].is_receipt(other_poll_id, other_voter.address));
            }
            if after.has_receipt(other_poll_id, other_voter.address) {
                let k = choose|k: int|
                    0 <= k < after.receipts.len() && (#[trigger] after.receipts[k]).is_receipt(
                        other_poll_id,
                        other_voter.address,
                    );
                assert(k < n);
                assert(ledger.receipts[k].is_receipt(other_poll_id, other_voter.address));
            }
        }
    }
}

/// The count kept for votes is the number of the receipts that name the
/// candidate and its poll number.
pub proof fn lemma_count_votes_is_filter_len(
    receipts: Seq<VoteReceiptView>,
    poll_id: u64,
    candidate_id: nat,
)
    ensures
        count_votes(receipts, poll_id, candidate_id) == receipts.filter(
            |r: VoteReceiptView| r.is_vote_for(poll_id, candidate_id),
        ).len(),
    decreases receipts.len(),
{
    reveal(Seq::filter);
    if receipts.len() > 0 {
        lemma_count_votes_is_filter_len(receipts.drop_last(), poll_id, candidate_id);
    }
}

/// Tallies are correct. In a well-formed ledger, and so after any history of
/// requests, every candidate's count of votes is the number of receipts
/// whose candidate number and poll number are the candidate's.
pub proof fn lemma_tally_is_receipt_count(ledger: LedgerView, poll_id: u64, candidate_id: nat)
    requires
        ledger.wf(),
        ledger.has_candidate(poll_id, candidate_id),
    ensures
        ledger.candidate(poll_id, candidate_id).vote_count == ledger.receipts.filter(
            |r: VoteReceiptView| r.is_vote_for(poll_id, candidate_id),
        ).len(),
{
    let j = choose|j: int|
        0 <= j < ledger.candidates.len() && (#[trigger] ledger.candidates[j]).is_candidate(
            poll_id,
            candidate_id,
        );
    assert(ledger.candidates[j].vote_count == ledger.votes_for(poll_id, candidate_id));
    lemma_count_votes_is_filter_len(ledger.receipts, poll_id, candidate_id);
}

/// Tallies are correct after any history: whatever was asked of the ledger
/// since it was empty, every candidate's count of votes is the number of
/// receipts whose candidate number and poll number are the candidate's.
pub proof fn lemma_tally_after_any_history(history: Seq<Request>, poll_id: u64, candidate_id: nat)
    requires
        LedgerView::replay(history).has_candidate(poll_id, candidate_id),
    ensures
        LedgerView::replay(history).candidate(poll_id, candidate_id).vote_count
            == LedgerView::replay(history).receipts.filter(
            |r: VoteReceiptView| r.is_vote_for(poll_id, candidate_id),
        ).len(),
{
    lemma_every_history_is_wf(history);
    lemma_tally_is_receipt_count(LedgerView::replay(history), poll_id, candidate_id);
}

/// A granted vote writes the receipt and raises the candidate's count of
/// votes by exactly one; no other candidate's count changes.
pub proof fn lemma_cast_vote_counts_once(
    ledger: LedgerView,
    voter: Signer,
    poll_id: u64,
    creator: Address,
    candidate_id: nat,
    now: i64,
)
    requires
        ledger.wf(),
        ledger.cast_vote_outcome(voter, poll_id, creator, candidate_id, now) is Ok,
    ensures
        ({
            let after = ledger.cast_vote(voter, poll_id, creator, candidate_id, now);
            &&& after.has_candidate(poll_id, candidate_id)
            &&& after.candidate(poll_id, candidate_id).vote_count == ledger.candidate(
                poll_id,
                candidate_id,
            ).vote_count + 1
            &&& after.has_receipt(poll_id, voter.address)
            &&& after.receipt(poll_id, voter.address) == (VoteReceiptView {
                voter: voter.address,
                candidate_id,
                poll_id,
                timestamp: now,
            })
            &&& forall|p: u64, c: nat|
                !(p == poll_id && c == candidate_id) ==> #[trigger] after.votes_for(p, c)
                    == ledger.votes_for(p, c)
        }),
{
    let after = ledger.cast_vote(voter, poll_id, creator, candidate_id, now);
    lemma_cast_vote_keeps_wf(ledger, voter, poll_id, creator, candidate_id, now);
    let receipt = VoteReceiptView { voter: voter.address, candidate_id, poll_id, timestamp: now };
    let j = choose|j: int|
        0 <= j < ledger.candidates.len() && (#[trigger] ledger.candidates[j]).is_candidate(
            poll_id,
            candidate_id,
        );
    lemma_candidate_is_unique(ledger, j);
    assert(after.candidates[j].is_candidate(poll_id, candidate_id));
    lemma_candidate_is_unique(after, j);
    let n = ledger.receipts.len() as int;
    assert(after.receipts[n] == receipt);
    assert(after.receipts[n].is_receipt(poll_id, voter.address));
    lemma_receipt_is_unique(after, n);
    assert forall|p: u64, c: nat| !(p == poll_id && c == candidate_id) implies #[trigger]
        after.votes_for(p, c) == ledger.votes_for(p, c) by {
        lemma_votes_after_push(ledger.receipts, receipt, p, c);
        assert(after.receipts =~= ledger.receipts.push(receipt));
    }
}

} // verus!

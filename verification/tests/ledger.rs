use solana_voting::address::{Address, Signer};
use solana_voting::errors::{LedgerError, VotingError};
use solana_voting::identity::RecordId;
use solana_voting::ledger::Ledger;
use solana_voting::states::{Candidate, Poll, VoteReceipt};

fn address(tag: u8) -> Address {
    Address::new([tag; 32])
}

fn signed(tag: u8) -> Signer {
    Signer { address: address(tag), verified: true }
}

fn unsigned(tag: u8) -> Signer {
    Signer { address: address(tag), verified: false }
}

const CREATOR: u8 = 0xc0;
const VOTER_A: u8 = 0x0a;
const VOTER_B: u8 = 0x0b;

fn ledger_with_poll() -> Ledger {
    let mut ledger = Ledger::new();
    let created =
        ledger.initialize_poll(&signed(CREATOR), 1, String::from("Best language"), 1000, 2000);
    assert_eq!(created, Ok(()));
    ledger
}

fn ledger_with_candidates() -> Ledger {
    let mut ledger = ledger_with_poll();
    let creator = address(CREATOR);
    assert_eq!(ledger.add_candidate(&signed(CREATOR), 1, &creator, String::from("Rust")), Ok(0));
    assert_eq!(ledger.add_candidate(&signed(CREATOR), 1, &creator, String::from("Go")), Ok(1));
    ledger
}

#[test]
fn new_ledger_is_empty() {
    let ledger = Ledger::new();
    assert_eq!(ledger.poll(1, &address(CREATOR)), None);
    assert_eq!(ledger.candidate(1, 0), None);
    assert_eq!(ledger.receipt(1, &address(VOTER_A)), None);
    assert!(ledger.room_for_candidate());
    assert!(ledger.room_for_receipt());
}

#[test]
fn create_poll_records_the_request() {
    let ledger = ledger_with_poll();
    assert_eq!(
        ledger.poll(1, &address(CREATOR)),
        Some(Poll {
            poll_id: 1,
            description: String::from("Best language"),
            start_time: 1000,
            end_time: 2000,
            candidate_count: 0,
            creator: address(CREATOR),
        })
    );
    assert_eq!(ledger.poll(2, &address(CREATOR)), None);
    assert_eq!(ledger.poll(1, &address(VOTER_A)), None);
}

#[test]
fn create_poll_fails_for_every_start_not_before_end() {
    let mut ledger = ledger_with_poll();
    for (start, end) in [(5i64, 5i64), (6, 5), (i64::MAX, i64::MIN), (0, -1)] {
        let fresh = ledger.initialize_poll(&signed(CREATOR), 2, String::from("d"), start, end);
        assert_eq!(fresh, Err(LedgerError::Voting(VotingError::InvalidTimeRange)));
        let taken = ledger.initialize_poll(&signed(CREATOR), 1, String::from("d"), start, end);
        assert_eq!(taken, Err(LedgerError::Voting(VotingError::InvalidTimeRange)));
        let unsigned = ledger.initialize_poll(&unsigned(CREATOR), 2, "d".repeat(281), start, end);
        assert_eq!(unsigned, Err(LedgerError::Voting(VotingError::InvalidTimeRange)));
    }
    assert_eq!(ledger.poll(2, &address(CREATOR)), None);
}

#[test]
fn create_poll_description_bound() {
    let mut ledger = Ledger::new();
    assert_eq!(ledger.initialize_poll(&signed(CREATOR), 1, "d".repeat(280), 1, 2), Ok(()));
    assert_eq!(
        ledger.initialize_poll(&signed(CREATOR), 2, "d".repeat(281), 1, 2),
        Err(LedgerError::Voting(VotingError::DescriptionTooLong))
    );
    assert_eq!(ledger.poll(1, &address(CREATOR)).unwrap().description, "d".repeat(280));
    assert_eq!(ledger.poll(2, &address(CREATOR)), None);
}

#[test]
fn create_poll_needs_the_creators_signature() {
    let mut ledger = Ledger::new();
    assert_eq!(
        ledger.initialize_poll(&unsigned(CREATOR), 1, String::from("d"), 1, 2),
        Err(LedgerError::Unauthorized)
    );
    assert_eq!(ledger.poll(1, &address(CREATOR)), None);
}

#[test]
fn create_poll_twice_already_exists() {
    let mut ledger = ledger_with_poll();
    assert_eq!(
        ledger.initialize_poll(&signed(CREATOR), 1, String::from("Another"), 5, 6),
        Err(LedgerError::AlreadyExists)
    );
    assert_eq!(ledger.poll(1, &address(CREATOR)).unwrap().description, "Best language");
    assert_eq!(ledger.initialize_poll(&signed(CREATOR), 2, String::from("Another"), 5, 6), Ok(()));
    assert_eq!(ledger.initialize_poll(&signed(VOTER_A), 1, String::from("Mine"), 5, 6), Ok(()));
}

#[test]
fn add_candidate_name_bound() {
    let mut ledger = ledger_with_poll();
    let creator = address(CREATOR);
    let refused = Err(LedgerError::Voting(VotingError::InvalidCandidateName));
    assert_eq!(ledger.add_candidate(&signed(CREATOR), 1, &creator, String::new()), refused);
    assert_eq!(ledger.add_candidate(&signed(CREATOR), 1, &creator, "n".repeat(1)), Ok(0));
    assert_eq!(ledger.add_candidate(&signed(CREATOR), 1, &creator, "n".repeat(50)), Ok(1));
    assert_eq!(ledger.add_candidate(&signed(CREATOR), 1, &creator, "n".repeat(51)), refused);
    assert_eq!(ledger.poll(1, &creator).unwrap().candidate_count, 2);
    assert_eq!(ledger.candidate(1, 2), None);
}

#[test]
fn add_candidate_numbers_are_zero_to_k_minus_one() {
    let mut ledger = ledger_with_poll();
    let creator = address(CREATOR);
    for k in 0u64..25 {
        assert_eq!(ledger.poll(1, &creator).unwrap().candidate_count, k);
        assert_eq!(ledger.candidate(1, k), None);
        let number = ledger.add_candidate(&signed(VOTER_A), 1, &creator, format!("option {}", k));
        assert_eq!(number, Ok(k));
    }
    assert_eq!(ledger.poll(1, &creator).unwrap().candidate_count, 25);
    for k in 0u64..25 {
        assert_eq!(
            ledger.candidate(1, k),
            Some(Candidate {
                candidate_id: k,
                poll_id: 1,
                name: format!("option {}", k),
                vote_count: 0,
            })
        );
    }
    assert_eq!(ledger.candidate(1, 25), None);
}

#[test]
fn add_candidate_refusals() {
    let mut ledger = ledger_with_poll();
    let creator = address(CREATOR);
    assert_eq!(
        ledger.add_candidate(&unsigned(CREATOR), 1, &creator, String::from("Rust")),
        Err(LedgerError::Unauthorized)
    );
    assert_eq!(
        ledger.add_candidate(&signed(CREATOR), 2, &creator, String::from("Rust")),
        Err(LedgerError::NotFound)
    );
    assert_eq!(
        ledger.add_candidate(&signed(CREATOR), 1, &address(VOTER_A), String::from("Rust")),
        Err(LedgerError::NotFound)
    );
    assert_eq!(
        ledger.add_candidate(&unsigned(CREATOR), 2, &creator, String::new()),
        Err(LedgerError::Voting(VotingError::InvalidCandidateName))
    );
    assert_eq!(ledger.poll(1, &creator).unwrap().candidate_count, 0);
    assert_eq!(ledger.candidate(1, 0), None);
}

#[test]
fn add_candidate_is_open_to_any_signer_at_any_time() {
    let mut ledger = ledger_with_poll();
    let creator = address(CREATOR);
    assert_eq!(ledger.add_candidate(&signed(VOTER_B), 1, &creator, String::from("Zig")), Ok(0));
}

#[test]
fn candidate_numbers_are_shared_by_polls_of_one_number() {
    let mut ledger = ledger_with_candidates();
    let twin = ledger.initialize_poll(&signed(VOTER_A), 1, String::from("Same number"), 1, 2);
    assert_eq!(twin, Ok(()));
    assert_eq!(
        ledger.add_candidate(&signed(VOTER_A), 1, &address(VOTER_A), String::from("C")),
        Err(LedgerError::AlreadyExists)
    );
    assert_eq!(ledger.poll(1, &address(VOTER_A)).unwrap().candidate_count, 0);
    assert_eq!(ledger.candidate(1, 0).unwrap().name, "Rust");
}

#[test]
fn vote_window_is_inclusive() {
    let mut ledger = ledger_with_candidates();
    let creator = address(CREATOR);
    let refused = Err(LedgerError::Voting(VotingError::VotingPeriodInvalid));
    assert_eq!(ledger.cast_vote(&signed(1), 1, &creator, 0, 999), refused);
    assert_eq!(ledger.cast_vote(&signed(1), 1, &creator, 0, 2001), refused);
    assert_eq!(ledger.cast_vote(&signed(1), 1, &creator, 0, i64::MIN), refused);
    assert_eq!(ledger.cast_vote(&signed(1), 1, &creator, 0, i64::MAX), refused);
    assert_eq!(ledger.receipt(1, &address(1)), None);
    assert_eq!(ledger.candidate(1, 0).unwrap().vote_count, 0);
    assert_eq!(ledger.cast_vote(&signed(1), 1, &creator, 0, 1000), Ok(()));
    assert_eq!(ledger.cast_vote(&signed(2), 1, &creator, 0, 2000), Ok(()));
    assert_eq!(ledger.candidate(1, 0).unwrap().vote_count, 2);
}

#[test]
fn vote_outside_the_window_is_refused_whoever_asks() {
    let mut ledger = ledger_with_candidates();
    let creator = address(CREATOR);
    let refused = Err(LedgerError::Voting(VotingError::VotingPeriodInvalid));
    assert_eq!(ledger.cast_vote(&signed(VOTER_A), 1, &creator, 0, 1500), Ok(()));
    assert_eq!(ledger.cast_vote(&signed(VOTER_A), 1, &creator, 0, 2500), refused);
    assert_eq!(ledger.cast_vote(&unsigned(VOTER_B), 1, &creator, 0, 2500), refused);
    assert_eq!(ledger.cast_vote(&signed(VOTER_B), 1, &creator, 9, 2500), refused);
}

#[test]
fn vote_refusals() {
    let mut ledger = ledger_with_candidates();
    let creator = address(CREATOR);
    assert_eq!(
        ledger.cast_vote(&signed(VOTER_A), 2, &creator, 0, 1500),
        Err(LedgerError::NotFound)
    );
    assert_eq!(
        ledger.cast_vote(&signed(VOTER_A), 1, &address(VOTER_B), 0, 1500),
        Err(LedgerError::NotFound)
    );
    assert_eq!(
        ledger.cast_vote(&unsigned(VOTER_A), 1, &creator, 0, 1500),
        Err(LedgerError::Unauthorized)
    );
    assert_eq!(
        ledger.cast_vote(&signed(VOTER_A), 1, &creator, 2, 1500),
        Err(LedgerError::NotFound)
    );
    assert_eq!(ledger.receipt(1, &address(VOTER_A)), None);
    assert_eq!(ledger.candidate(1, 0).unwrap().vote_count, 0);
    assert_eq!(ledger.candidate(1, 1).unwrap().vote_count, 0);
}

#[test]
fn second_vote_in_the_same_poll_already_exists() {
    let mut ledger = ledger_with_candidates();
    let creator = address(CREATOR);
    assert_eq!(ledger.cast_vote(&signed(VOTER_A), 1, &creator, 0, 1500), Ok(()));
    assert_eq!(
        ledger.cast_vote(&signed(VOTER_A), 1, &creator, 0, 1501),
        Err(LedgerError::AlreadyExists)
    );
    assert_eq!(
        ledger.cast_vote(&signed(VOTER_A), 1, &creator, 1, 1502),
        Err(LedgerError::AlreadyExists)
    );
    assert_eq!(ledger.candidate(1, 0).unwrap().vote_count, 1);
    assert_eq!(ledger.candidate(1, 1).unwrap().vote_count, 0);
    assert_eq!(ledger.receipt(1, &address(VOTER_A)).unwrap().timestamp, 1500);
}

#[test]
fn same_voter_votes_in_a_different_poll() {
    let mut ledger = ledger_with_candidates();
    let creator = address(CREATOR);
    let second =
        ledger.initialize_poll(&signed(CREATOR), 2, String::from("Best editor"), 1000, 2000);
    assert_eq!(second, Ok(()));
    assert_eq!(ledger.add_candidate(&signed(CREATOR), 2, &creator, String::from("vi")), Ok(0));
    assert_eq!(ledger.cast_vote(&signed(VOTER_A), 1, &creator, 0, 1500), Ok(()));
    assert_eq!(ledger.cast_vote(&signed(VOTER_A), 2, &creator, 0, 1500), Ok(()));
    assert_eq!(ledger.candidate(1, 0).unwrap().vote_count, 1);
    assert_eq!(ledger.candidate(2, 0).unwrap().vote_count, 1);
    assert_eq!(
        ledger.receipt(2, &address(VOTER_A)),
        Some(VoteReceipt { voter: address(VOTER_A), candidate_id: 0, poll_id: 2, timestamp: 1500 })
    );
}

#[test]
fn tally_equals_the_number_of_receipts() {
    let mut ledger = ledger_with_candidates();
    let creator = address(CREATOR);
    let mut expected = [0u64; 2];
    for tag in 1u8..=30 {
        let choice = u64::from(tag % 3 == 0);
        let cast = ledger.cast_vote(&signed(tag), 1, &creator, choice, 1000 + i64::from(tag));
        assert_eq!(cast, Ok(()));
        expected[choice as usize] += 1;
        let again = ledger.cast_vote(&signed(tag), 1, &creator, 1 - choice, 1500);
        assert_eq!(again, Err(LedgerError::AlreadyExists));
    }
    assert_eq!(expected, [20, 10]);
    for number in 0u64..2 {
        let mut receipts = 0u64;
        for tag in 0u8..=255 {
            if let Some(receipt) = ledger.receipt(1, &address(tag)) {
                assert_eq!(receipt.voter, address(tag));
                assert_eq!(receipt.poll_id, 1);
                assert_eq!(receipt.timestamp, 1000 + i64::from(tag));
                if receipt.candidate_id == number {
                    receipts += 1;
                }
            }
        }
        assert_eq!(receipts, expected[number as usize]);
        assert_eq!(ledger.candidate(1, number).unwrap().vote_count, receipts);
    }
}

#[test]
fn ledger_holds_what_was_created() {
    let mut ledger = ledger_with_candidates();
    let creator = address(CREATOR);
    assert!(ledger.holds(&RecordId::Poll { poll_id: 1, creator }));
    assert!(!ledger.holds(&RecordId::Poll { poll_id: 2, creator }));
    assert!(!ledger.holds(&RecordId::Poll { poll_id: 1, creator: address(VOTER_A) }));
    assert!(ledger.holds(&RecordId::Candidate { poll_id: 1, candidate_id: 0 }));
    assert!(ledger.holds(&RecordId::Candidate { poll_id: 1, candidate_id: 1 }));
    assert!(!ledger.holds(&RecordId::Candidate { poll_id: 1, candidate_id: 2 }));
    assert!(!ledger.holds(&RecordId::Candidate { poll_id: 0, candidate_id: 1 }));
    assert!(!ledger.holds(&RecordId::VoteReceipt { poll_id: 1, voter: address(VOTER_A) }));
    assert_eq!(ledger.cast_vote(&signed(VOTER_A), 1, &creator, 1, 1500), Ok(()));
    assert!(ledger.holds(&RecordId::VoteReceipt { poll_id: 1, voter: address(VOTER_A) }));
    assert!(!ledger.holds(&RecordId::VoteReceipt { poll_id: 1, voter: address(VOTER_B) }));
    assert!(!ledger.holds(&RecordId::VoteReceipt { poll_id: 2, voter: address(VOTER_A) }));
}

#[test]
fn votes_are_shared_by_polls_of_one_number() {
    let mut ledger = ledger_with_candidates();
    let other = address(VOTER_B);
    let twin = ledger.initialize_poll(&signed(VOTER_B), 1, String::from("Twin"), 1400, 3000);
    assert_eq!(twin, Ok(()));
    assert_eq!(ledger.cast_vote(&signed(VOTER_A), 1, &address(CREATOR), 0, 1500), Ok(()));
    assert_eq!(
        ledger.cast_vote(&signed(VOTER_A), 1, &other, 1, 1500),
        Err(LedgerError::AlreadyExists)
    );
    assert_eq!(ledger.cast_vote(&signed(7), 1, &other, 1, 2500), Ok(()));
    assert_eq!(ledger.candidate(1, 1).unwrap().vote_count, 1);
    assert_eq!(ledger.receipt(1, &address(7)).unwrap().timestamp, 2500);
}

#[test]
fn scenario_best_language() {
    let mut ledger = Ledger::new();
    let creator = address(CREATOR);
    assert_eq!(
        ledger.initialize_poll(&signed(CREATOR), 1, String::from("Best language"), 1000, 2000),
        Ok(())
    );
    assert_eq!(ledger.add_candidate(&signed(CREATOR), 1, &creator, String::from("Rust")), Ok(0));
    assert_eq!(ledger.add_candidate(&signed(CREATOR), 1, &creator, String::from("Go")), Ok(1));
    assert_eq!(ledger.cast_vote(&signed(VOTER_A), 1, &creator, 0, 1500), Ok(()));
    assert_eq!(ledger.candidate(1, 0).unwrap().vote_count, 1);
    assert_eq!(
        ledger.cast_vote(&signed(VOTER_A), 1, &creator, 1, 1600),
        Err(LedgerError::AlreadyExists)
    );
    assert_eq!(
        ledger.cast_vote(&signed(VOTER_B), 1, &creator, 0, 2500),
        Err(LedgerError::Voting(VotingError::VotingPeriodInvalid))
    );
    assert_eq!(ledger.candidate(1, 0).unwrap().vote_count, 1);
    assert_eq!(ledger.candidate(1, 1).unwrap().vote_count, 0);
    assert_eq!(ledger.poll(1, &creator).unwrap().candidate_count, 2);
    assert_eq!(
        ledger.receipt(1, &address(VOTER_A)),
        Some(VoteReceipt { voter: address(VOTER_A), candidate_id: 0, poll_id: 1, timestamp: 1500 })
    );
    assert_eq!(ledger.receipt(1, &address(VOTER_B)), None);
}

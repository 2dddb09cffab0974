use solana_voting::address::Address;
use solana_voting::errors::VotingError;
use solana_voting::identity::RecordId;
use solana_voting::instructions::{
    add_candidate, cast_vote, initialize_poll, AddCandidate, CastVote, InitializePoll,
};
use solana_voting::states::{Candidate, Poll, VoteReceipt};

fn creator() -> Address {
    Address::new([0xc0u8; 32])
}

fn voter() -> Address {
    Address::new([0x11u8; 32])
}

fn open_poll() -> Poll {
    Poll {
        poll_id: 1,
        description: String::from("Best language"),
        start_time: 1000,
        end_time: 2000,
        candidate_count: 0,
        creator: creator(),
    }
}

fn rust_candidate() -> Candidate {
    Candidate { candidate_id: 0, poll_id: 1, name: String::from("Rust"), vote_count: 0 }
}

#[test]
fn initialize_poll_writes_every_field() {
    let mut ctx = InitializePoll::new(creator());
    let result = initialize_poll(&mut ctx, 1, String::from("Best language"), 1000, 2000);
    assert_eq!(result, Ok(()));
    assert_eq!(ctx.poll, open_poll());
    assert_eq!(ctx.creator, creator());
}

#[test]
fn initialize_poll_refuses_start_not_before_end() {
    for (start, end) in [(2000i64, 1000i64), (1000, 1000), (0, 0), (i64::MAX, i64::MIN), (1, 0)] {
        let mut ctx = InitializePoll::new(creator());
        let result = initialize_poll(&mut ctx, 1, String::from("d"), start, end);
        assert_eq!(result, Err(VotingError::InvalidTimeRange));
        assert_eq!(ctx.poll, Poll::default());
    }
}

#[test]
fn initialize_poll_accepts_any_start_before_end() {
    for (start, end) in [(0i64, 1i64), (-1, 0), (i64::MIN, i64::MAX), (1000, 2000)] {
        let mut ctx = InitializePoll::new(creator());
        let result = initialize_poll(&mut ctx, 7, String::new(), start, end);
        assert_eq!(result, Ok(()));
        assert_eq!(ctx.poll.start_time, start);
        assert_eq!(ctx.poll.end_time, end);
        assert_eq!(ctx.poll.candidate_count, 0);
    }
}

#[test]
fn initialize_poll_description_of_280_succeeds() {
    let mut ctx = InitializePoll::new(creator());
    let description = "x".repeat(280);
    assert_eq!(initialize_poll(&mut ctx, 1, description.clone(), 1, 2), Ok(()));
    assert_eq!(ctx.poll.description, description);
}

#[test]
fn initialize_poll_description_of_281_fails() {
    let mut ctx = InitializePoll::new(creator());
    let result = initialize_poll(&mut ctx, 1, "x".repeat(281), 1, 2);
    assert_eq!(result, Err(VotingError::DescriptionTooLong));
    assert_eq!(ctx.poll, Poll::default());
}

#[test]
fn initialize_poll_looks_at_the_window_first() {
    let mut ctx = InitializePoll::new(creator());
    let result = initialize_poll(&mut ctx, 1, "x".repeat(281), 2, 1);
    assert_eq!(result, Err(VotingError::InvalidTimeRange));
}

#[test]
fn initialize_poll_identity_is_number_and_creator() {
    let ctx = InitializePoll::new(creator());
    assert_eq!(ctx.poll_identity(4), RecordId::Poll { poll_id: 4, creator: creator() });
}

#[test]
fn add_candidate_takes_the_count_as_number() {
    let mut poll = open_poll();
    poll.candidate_count = 5;
    let mut ctx = AddCandidate::new(poll);
    assert_eq!(ctx.candidate, Candidate::default());
    assert_eq!(ctx.candidate_identity(), RecordId::Candidate { poll_id: 1, candidate_id: 5 });
    assert_eq!(add_candidate(&mut ctx, String::from("Go")), Ok(()));
    assert_eq!(
        ctx.candidate,
        Candidate { candidate_id: 5, poll_id: 1, name: String::from("Go"), vote_count: 0 }
    );
    assert_eq!(ctx.poll.candidate_count, 6);
    assert_eq!(ctx.poll.description, "Best language");
    assert_eq!(ctx.poll.start_time, 1000);
    assert_eq!(ctx.poll.end_time, 2000);
    assert_eq!(ctx.poll.creator, creator());
}

#[test]
fn add_candidate_name_of_0_fails() {
    let mut ctx = AddCandidate::new(open_poll());
    assert_eq!(add_candidate(&mut ctx, String::new()), Err(VotingError::InvalidCandidateName));
    assert_eq!(ctx.poll, open_poll());
    assert_eq!(ctx.candidate, Candidate::default());
}

#[test]
fn add_candidate_name_of_1_and_of_50_succeed() {
    let mut ctx = AddCandidate::new(open_poll());
    assert_eq!(add_candidate(&mut ctx, "a".repeat(1)), Ok(()));
    let mut ctx = AddCandidate::new(open_poll());
    assert_eq!(add_candidate(&mut ctx, "a".repeat(50)), Ok(()));
    assert_eq!(ctx.candidate.name, "a".repeat(50));
}

#[test]
fn add_candidate_name_of_51_fails() {
    let mut ctx = AddCandidate::new(open_poll());
    assert_eq!(add_candidate(&mut ctx, "a".repeat(51)), Err(VotingError::InvalidCandidateName));
    assert_eq!(ctx.poll.candidate_count, 0);
}

#[test]
fn add_candidate_numbers_are_dense() {
    let mut poll = open_poll();
    for expected in 0u64..20 {
        let mut ctx = AddCandidate::new(poll);
        assert_eq!(add_candidate(&mut ctx, format!("candidate {}", expected)), Ok(()));
        assert_eq!(ctx.candidate.candidate_id, expected);
        assert_eq!(ctx.poll.candidate_count, expected + 1);
        poll = ctx.poll;
    }
}

#[test]
fn add_candidate_refusal_uses_no_number() {
    let mut ctx = AddCandidate::new(open_poll());
    assert_eq!(add_candidate(&mut ctx, String::new()), Err(VotingError::InvalidCandidateName));
    let mut ctx = AddCandidate::new(ctx.poll);
    assert_eq!(add_candidate(&mut ctx, String::from("Rust")), Ok(()));
    assert_eq!(ctx.candidate.candidate_id, 0);
}

#[test]
fn cast_vote_writes_receipt_and_counts() {
    let mut ctx = CastVote::new(open_poll(), rust_candidate(), voter());
    assert_eq!(ctx.vote_receipt, VoteReceipt::default());
    assert_eq!(cast_vote(&mut ctx, 1500), Ok(()));
    assert_eq!(
        ctx.vote_receipt,
        VoteReceipt { voter: voter(), candidate_id: 0, poll_id: 1, timestamp: 1500 }
    );
    assert_eq!(ctx.candidate.vote_count, 1);
    assert_eq!(ctx.candidate.name, "Rust");
    assert_eq!(ctx.poll, open_poll());
}

#[test]
fn cast_vote_at_start_and_at_end_succeeds() {
    let mut ctx = CastVote::new(open_poll(), rust_candidate(), voter());
    assert_eq!(cast_vote(&mut ctx, 1000), Ok(()));
    assert_eq!(ctx.vote_receipt.timestamp, 1000);
    let mut ctx = CastVote::new(open_poll(), rust_candidate(), voter());
    assert_eq!(cast_vote(&mut ctx, 2000), Ok(()));
    assert_eq!(ctx.vote_receipt.timestamp, 2000);
}

#[test]
fn cast_vote_before_start_or_after_end_fails() {
    for now in [999i64, 2001, 0, -1, i64::MIN, i64::MAX] {
        let mut ctx = CastVote::new(open_poll(), rust_candidate(), voter());
        assert_eq!(cast_vote(&mut ctx, now), Err(VotingError::VotingPeriodInvalid));
        assert_eq!(ctx.candidate, rust_candidate());
        assert_eq!(ctx.vote_receipt, VoteReceipt::default());
    }
}

#[test]
fn cast_vote_adds_one_to_any_count() {
    let mut candidate = rust_candidate();
    candidate.vote_count = u64::MAX - 1;
    let mut ctx = CastVote::new(open_poll(), candidate, voter());
    assert_eq!(cast_vote(&mut ctx, 1500), Ok(()));
    assert_eq!(ctx.candidate.vote_count, u64::MAX);
}

#[test]
fn cast_vote_identities_come_from_the_poll_number() {
    let mut candidate = rust_candidate();
    candidate.candidate_id = 3;
    let ctx = CastVote::new(open_poll(), candidate, voter());
    assert_eq!(ctx.candidate_identity(), RecordId::Candidate { poll_id: 1, candidate_id: 3 });
    assert_eq!(ctx.vote_receipt_identity(), RecordId::VoteReceipt { poll_id: 1, voter: voter() });
}

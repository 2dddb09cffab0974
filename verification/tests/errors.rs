use solana_voting::errors::{LedgerError, VotingError};

#[test]
fn invalid_time_range_message() {
    assert_eq!(VotingError::InvalidTimeRange.message(), "Start time must be before end time");
}

#[test]
fn description_too_long_message() {
    assert_eq!(
        VotingError::DescriptionTooLong.message(),
        "Description must be 280 characters or less"
    );
}

#[test]
fn invalid_candidate_name_message() {
    assert_eq!(
        VotingError::InvalidCandidateName.message(),
        "Candidate name must be between 1 and 50 characters"
    );
}

#[test]
fn voting_period_invalid_message() {
    assert_eq!(VotingError::VotingPeriodInvalid.message(), "Voting is not active for this poll");
}

#[test]
fn errors_compare_by_variant() {
    assert_eq!(VotingError::InvalidTimeRange, VotingError::InvalidTimeRange);
    assert_ne!(VotingError::InvalidTimeRange, VotingError::DescriptionTooLong);
    assert_eq!(
        LedgerError::Voting(VotingError::VotingPeriodInvalid),
        LedgerError::Voting(VotingError::VotingPeriodInvalid)
    );
    assert_ne!(LedgerError::AlreadyExists, LedgerError::NotFound);
    assert_ne!(LedgerError::Unauthorized, LedgerError::Voting(VotingError::InvalidTimeRange));
}

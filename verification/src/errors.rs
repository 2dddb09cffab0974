//! What an operation on a poll can be refused for.

use vstd::prelude::*;

verus! {

/// A request that the voting rules themselves refuse.
#[derive(Clone, Copy, Debug, PartialEq, Eq, Structural)]
pub enum VotingError {
    /// A poll must start strictly before it ends.
    InvalidTimeRange,
    /// A poll's description is longer than the limit.
    DescriptionTooLong,
    /// A candidate's name is empty or longer than the limit.
    InvalidCandidateName,
    /// A vote arrived before the poll opened or after it closed.
    VotingPeriodInvalid,
}

impl VotingError {
    /// The text shown to a person for this error.
    pub open spec fn message_text(self) -> Seq<char> {
        match self {
            VotingError::InvalidTimeRange => "Start time must be before end time"@,
            VotingError::DescriptionTooLong => "Description must be 280 characters or less"@,
            VotingError::InvalidCandidateName => {
                "Candidate name must be between 1 and 50 characters"@
            },
            VotingError::VotingPeriodInvalid => "Voting is not active for this poll"@,
        }
    }

    /// Returns the text shown to a person for this error.
    pub fn message(&self) -> (text: String)
        ensures
            text@ == self.message_text(),
    {
        match self {
            VotingError::InvalidTimeRange => "Start time must be before end time".to_owned(),
            VotingError::DescriptionTooLong => {
                "Description must be 280 characters or less".to_owned()
            },
            VotingError::InvalidCandidateName => {
                "Candidate name must be between 1 and 50 characters".to_owned()
            },
            VotingError::VotingPeriodInvalid => "Voting is not active for this poll".to_owned(),
        }
    }
}

/// Why an operation on the ledger was refused: by the voting rules, or by one
/// of the collaborators that stand before the records.
#[derive(Clone, Copy, Debug, PartialEq, Eq, Structural)]
pub enum LedgerError {
    /// The voting rules refuse the request.
    Voting(VotingError),
    /// A record already exists at the identity where one was to be created.
    AlreadyExists,
    /// No record exists at the identity that the request refers to.
    NotFound,
    /// The one in whose name the request is made has not signed it.
    Unauthorized,
}

} // verus!

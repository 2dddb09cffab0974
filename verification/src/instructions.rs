//! The three operations, each on the records that it was handed.
//!
//! An operation checks what it was asked before it writes anything: when it
//! refuses, the records are as they were.

pub mod add_candidate;
pub mod cast_vote;
pub mod initialize_poll;

pub use self::add_candidate::{add_candidate, AddCandidate};
pub use self::cast_vote::{cast_vote, CastVote};
pub use self::initialize_poll::{initialize_poll, InitializePoll};

//! A poll on a ledger of keyed records: polls, the candidates registered under
//! them, and one vote receipt per voter and poll.
//!
//! Every record lives at an identity derived from what it is about, so that
//! "this candidate number is taken" and "this voter has voted" are facts of
//! the storage layer and need no index of their own.
//!
//! - [`states`] holds the three kinds of record, [`address`] the addresses
//!   that name signers and records, [`errors`] what a request is refused for.
//! - [`identity`] derives the identity of a record and the address at which a
//!   program keeps it.
//! - [`instructions`] holds the three operations, each on the records that it
//!   was handed.
//! - [`ledger`] holds all records and carries the operations out on them;
//!   [`model`] is the ledger as a mathematical value, and [`laws`] proves what
//!   holds of it whatever is asked.

pub mod address;
pub mod errors;
pub mod identity;
pub mod instructions;
pub mod laws;
pub mod ledger;
pub mod model;
pub mod states;

pub use crate::address::{Address, Signer};
pub use crate::errors::{LedgerError, VotingError};
pub use crate::identity::RecordId;
pub use crate::ledger::Ledger;
pub use crate::states::{Candidate, Poll, VoteReceipt};

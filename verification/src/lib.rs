//! A poll/voting state machine: create a poll, record at most one vote per
//! voter, and close a poll, with running tallies kept consistent.
//!
//! The [`ledger`] module models the addressed storage that holds every poll
//! (keyed by its `poll_id`) and every vote record (keyed by the pair of poll
//! key and voter identity), so that duplicate polls and double votes fail by
//! construction of the keys. The [`poll`] module holds the per-poll
//! validation and tally transitions, and [`laws`] states and proves the
//! properties that hold of every reachable state: tallies always sum, votes
//! are unique per voter and poll, the window is inclusive, closing is gated
//! on the authority, and a closed poll stays closed.

pub mod error;
pub mod laws;
pub mod ledger;
pub mod poll;
pub mod pubkey;

pub use error::VotingError;
pub use ledger::Ledger;
pub use poll::Poll;
pub use poll::VoteRecord;
pub use pubkey::Pubkey;

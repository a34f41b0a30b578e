//! The error taxonomy: terminal, non-retryable validation failures. The first
//! violated check aborts a transition with no state change.

use vstd::prelude::*;

verus! {

/// Why a transition was rejected.
#[derive(Clone, Copy, PartialEq, Eq, Structural, Debug)]
pub enum VotingError {
    /// `is_active` was false at vote time.
    PollNotActive,
    /// The current time was before the poll's `start_time`.
    PollNotStarted,
    /// The current time was after the poll's `end_time`.
    PollEnded,
    /// The chosen `option_index` was out of range.
    InvalidOption,
    /// The closer's identity was not the poll's authority.
    Unauthorized,
    /// A record already existed under the derived key: a duplicate `poll_id`,
    /// or a voter who had already voted on this poll.
    AllocationConflict,
}

} // verus!

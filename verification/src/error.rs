//! Why an operation on a DAO is refused.

use vstd::prelude::*;

verus! {

/// The reason an operation was refused. A refused operation leaves the DAO
/// as it was.
#[derive(Debug, Clone, Copy, PartialEq, Eq, Structural)]
pub enum DaoError {
    /// A text or a collection would grow past its declared maximum, or an
    /// amount past what the record can hold.
    CapacityExceeded,
    /// The threshold is not a percentage from 1 to 100, or the window is the
    /// one kept for tests.
    InvalidConfiguration,
    /// The member has already voted on the poll.
    DuplicateVote,
    /// The DAO already has a member with this identity.
    DuplicateUser,
    /// The member's voting power is below what creating a poll takes.
    InsufficientVotingPower,
    /// The poll is not in the state the operation needs.
    InvalidPollState,
    /// The deposit is not in the state the operation needs.
    InvalidDepositState,
    /// The deactivation window has not yet passed.
    WithdrawalWindowNotElapsed,
    /// There is no such poll, member or deposit.
    NotFound,
}

} // verus!

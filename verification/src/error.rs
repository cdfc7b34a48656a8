use vstd::prelude::*;

verus! {

/// Every way an operation can be refused. Each failure is total: the state is
/// left exactly as it was.
#[derive(Clone, Copy, Debug, PartialEq, Eq, Structural)]
pub enum ContractError {
    /// The configured threshold rule was rejected at validation time.
    Threshold,
    /// The caller lacks the required role or membership.
    Unauthorized,
    /// The record asked for does not exist.
    NotFound,
    /// The proposal no longer accepts ballots.
    NotOpen,
    /// The proposal's submission window has elapsed.
    Expired,
    /// The proposal can only be closed after it expires.
    NotExpired,
    /// The requested expiration cannot be compared with the configured
    /// maximum (mixed height and time units).
    WrongExpiration,
    /// The submitted values do not match the configured price keys.
    WrongVoteData,
    /// The caller already holds a ballot on this proposal.
    AlreadyVoted,
    /// Completed or passing proposals cannot be closed.
    WrongCloseStatus,
    /// The most recent proposal must complete before a new one opens.
    CanNotPropose,
    /// The required proposal deposit was absent or insufficient.
    Payment,
}

} // verus!

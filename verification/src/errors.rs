//! The kinds of failure an operation can report.

use vstd::prelude::*;

verus! {

/// Why an operation was rejected. A rejected operation changes nothing.
#[derive(Clone, Copy, Debug, PartialEq, Eq, Structural)]
pub enum ErrorCode {
    /// A pool was configured outside the accepted ranges.
    InvalidConfiguration,
    /// The pool no longer admits participants.
    PoolNotJoinable,
    /// The pool already holds its maximum number of participants.
    PoolFull,
    /// The wallet already has a participant record in this pool.
    AlreadyJoined,
    /// The caller is not the identity the operation is reserved for.
    Unauthorized,
    /// The pool or the participant is not in the state the operation needs.
    InvalidState,
    /// The pool is not running.
    PoolNotActive,
    /// The participant's outcome is already final.
    ParticipantNotActive,
    /// The day lies outside the pool's duration.
    InvalidDay,
    /// The pool's end time has not been reached.
    PoolNotYetExpired,
    /// The pool has not been closed.
    PoolNotEnded,
    /// A competitive pool ended without a single winner.
    NoWinners,
}

impl ErrorCode {
    /// The text shown to a caller for each kind of failure.
    pub open spec fn message_text(self) -> Seq<char> {
        match self {
            ErrorCode::InvalidConfiguration => "Invalid pool configuration"@,
            ErrorCode::PoolNotJoinable => "Pool is not open for joining"@,
            ErrorCode::PoolFull => "Pool is full"@,
            ErrorCode::AlreadyJoined => "Wallet has already joined this pool"@,
            ErrorCode::Unauthorized => "Unauthorized action"@,
            ErrorCode::InvalidState => "Operation not allowed in the current state"@,
            ErrorCode::PoolNotActive => "Pool is not active"@,
            ErrorCode::ParticipantNotActive => "Participant is not active"@,
            ErrorCode::InvalidDay => "Invalid day number"@,
            ErrorCode::PoolNotYetExpired => "Pool has not expired yet"@,
            ErrorCode::PoolNotEnded => "Pool has not ended yet"@,
            ErrorCode::NoWinners => "No winners to distribute rewards to"@,
        }
    }

    /// Returns the text for this kind of failure.
    pub fn message(&self) -> (text: &'static str)
        ensures
            text@ == self.message_text(),
    {
        match self {
            ErrorCode::InvalidConfiguration => "Invalid pool configuration",
            ErrorCode::PoolNotJoinable => "Pool is not open for joining",
            ErrorCode::PoolFull => "Pool is full",
            ErrorCode::AlreadyJoined => "Wallet has already joined this pool",
            ErrorCode::Unauthorized => "Unauthorized action",
            ErrorCode::InvalidState => "Operation not allowed in the current state",
            ErrorCode::PoolNotActive => "Pool is not active",
            ErrorCode::ParticipantNotActive => "Participant is not active",
            ErrorCode::InvalidDay => "Invalid day number",
            ErrorCode::PoolNotYetExpired => "Pool has not expired yet",
            ErrorCode::PoolNotEnded => "Pool has not ended yet",
            ErrorCode::NoWinners => "No winners to distribute rewards to",
        }
    }
}

} // verus!

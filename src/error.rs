use vstd::prelude::*;

verus! {

/// Why a round cannot be closed.
#[derive(Debug, Clone, Copy, PartialEq, Eq, Structural)]
pub enum CloseError {
    /// An amount of the next state cannot be held as a resource amount.
    ResourceOverflow,
    /// The round number cannot be advanced.
    RoundNumberOverflow,
}

/// Why a move cannot be made.
#[derive(Debug, Clone, Copy, PartialEq, Eq, Structural)]
pub enum MoveError {
    /// The caller is not a player of the session the round belongs to.
    NotAPlayer,
}

/// Why more than one record is linked where at most one may be.
#[derive(Debug, Clone, Copy, PartialEq, Eq, Structural)]
pub enum LinkError {
    /// `count` records are linked.
    MoreThanOne { count: usize },
}

/// Why a committed record is not accepted.
#[derive(Debug, Clone, Copy, PartialEq, Eq, Structural)]
pub enum Rejection {
    /// A move takes a negative amount.
    NegativeResources { resources: i32 },
    /// A move's owner is not a player of the session it was made in.
    OwnerNotAPlayer,
    /// Moves cannot be updated.
    MoveUpdated,
    /// Moves cannot be deleted.
    MoveDeleted,
    /// A round number exceeds the session's number of rounds.
    RoundBeyondLimit { round_num: u32, num_rounds: u32 },
    /// A round version that does not update an earlier version.
    NotAnUpdate,
    /// A round version whose number does not follow its predecessor's.
    RoundNotConsecutive { round_num: u32, previous: u32 },
}

} // verus!

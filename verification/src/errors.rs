use vstd::prelude::*;

verus! {

/// Why an operation was refused. Every operation that returns one of these
/// leaves all ledger state exactly as it was before the call.
#[derive(Clone, Copy, Debug, PartialEq, Eq, Structural)]
pub enum LaunchError {
    AlreadyInitialized,
    NotInitialized,
    Unauthorized,
    InvalidAmount,
    InvalidAllocation,
    InvalidTimeRange,
    InvalidPrice,
    NotFound,
    ProjectNotActive,
    OutOfTimeWindow,
    BelowMinimum,
    AboveMaximum,
    InsufficientPoints,
    NotFinalized,
    AlreadyFinalized,
    ProjectNotEnded,
    CliffNotEnded,
    NothingToClaim,
    MismatchedArrays,
}

} // verus!

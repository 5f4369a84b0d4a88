use vstd::prelude::*;

verus! {

/// Everything that can go wrong in the ledger or in the surrounding
/// protocol glue. Every failure is terminal for the current request: the
/// caller observes the error and no state change.
#[derive(Clone, Copy, Debug, PartialEq, Eq, Structural)]
pub enum ContractError {
    /// The caller is not allowed to perform the operation.
    Unauthorized,
    /// No allocation record exists for the given account.
    AllocationNotFound,
    /// An allocation record already exists for the given account.
    DuplicateAllocation,
    /// The allocation was terminated; no further increases or terminations.
    AllocationCanceled,
    /// The requested grant exceeds the remaining undistributed balance.
    InsufficientFunds,
    /// Nothing is withdrawable at the given time.
    NothingToWithdraw,
    /// A schedule or new allocation record is malformed: a cliff longer
    /// than its duration, tokens already withdrawn at creation, or
    /// already canceled at creation.
    InvalidAllocation,
    /// A registry key is absent.
    NotFound,
    /// A stored registry value does not match the expected shape.
    Deserialization,
}

} // verus!

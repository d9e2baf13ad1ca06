//! Failure conditions of the accounting engine.

use vstd::prelude::*;

verus! {

/// Why an operation was refused. Every operation returns the first error it
/// encounters and leaves all records at their pre-operation values; no error
/// is retried internally and none leaves a partial update behind.
#[derive(Clone, Copy, Debug, PartialEq, Eq, Structural)]
pub enum FarmError {
    /// Only the deployment owner may perform this operation.
    OnlyOwner,
    /// A positive amount was required but zero was supplied.
    AmountIsZero,
    /// The source balance is smaller than the requested amount.
    InsufficientFunds,
    /// An arithmetic step could not be represented exactly in the working
    /// width (including division by zero in an intermediate step).
    NumericalOverflowError,
    /// A fee rate exceeds the maximum representable rate (100%).
    InvalidFee,
    /// A withdrawal asked for more than the position holds.
    AmountIsTooLarge,
}

} // verus!

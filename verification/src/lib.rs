//! Accounting core of a staking / yield-distribution engine.
//!
//! Participants deposit a fungible asset into a shared pool (a `Crop`) that
//! emits a reward asset at a configured rate until an end time. The library
//! tracks, with fixed-point integer arithmetic only, how much reward has
//! accrued to the pool as a whole (`rewards_per_share`) and to each
//! participant's position (a `Plot`), under arbitrary interleavings of
//! deposits, withdrawals and clock readings.
//!
//! Everything that touches the outside world -- account creation and
//! signature checks, the ledger that actually moves tokens, and the clock --
//! is the caller's responsibility. Operations here take the current
//! timestamp and any external balances as plain arguments, mutate the
//! records, and report how much the caller must transfer.

pub mod errors;
pub mod laws;
pub mod ops;
pub mod state;
pub mod utils;

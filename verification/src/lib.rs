//! A token vesting and unlocking ledger.
//!
//! The ledger keeps one allocation record per beneficiary account. Each
//! record carries a total grant, the amount already withdrawn, a vesting
//! schedule, an optional unlocking schedule (falling back to a process-wide
//! default), and a cancellation flag. The schedule evaluator computes, at an
//! arbitrary timestamp, how much of a grant has been released under a
//! linear-with-cliff schedule, in exact integer arithmetic; the ledger
//! composes the two schedules to decide how much a beneficiary may withdraw.
//!
//! All amounts are plain 128-bit integers and all timestamps are seconds as
//! 64-bit integers; the surrounding host environment is expected to decode
//! its wire formats into these values before calling in.

pub mod error;
pub mod schedule;
pub mod msg;
pub mod allocation;
pub mod ledger;
pub mod registry;

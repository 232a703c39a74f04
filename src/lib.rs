//! A toy payments ledger: replays an ordered stream of deposits, withdrawals and
//! dispute-family records against per-client accounts.
//!
//! Amounts are fixed-point integers counting ten-thousandths of a currency unit.

pub mod laws;
pub mod process;
pub mod record;
pub mod report;
pub mod types;

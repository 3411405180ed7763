//! The settlement and ranking core of a multi-party trading competition.
//!
//! Participants lock an entry fee, trade within an allowed-asset graph
//! during a fixed window, and are ranked by the USD-equivalent value of
//! their final holdings. This crate holds the verified ledger: per-token
//! balances, the tie-aware placement groups, the leftover-safe prize
//! arithmetic, and the deadline-driven judge rotation. Token custody, the
//! swap router and the price oracle stay outside, behind the
//! [`traits::Collaborators`] trait; the caller, the clock and the paid-in
//! value arrive as plain arguments.

pub mod accessors;
pub mod account;
pub mod errors;
pub mod events;
pub mod init;
pub mod judging;
pub mod laws;
pub mod lifecycle;
pub mod placement;
pub mod registration;
pub mod settlement;
pub mod store;
pub mod trading;
pub mod traits;
pub mod types;
pub mod valuation;
pub mod vecmap;
pub mod wide;

use vstd::prelude::*;

verus! {

/// Milliseconds in one day.
pub const DAY_IN_MS: u64 = 86_400_000;

/// Default admin fee: 10% of the entry fee.
pub const DEFAULT_ADMIN_FEE_PERCENTAGE_NUMERATOR: u16 = 1_000;

pub const DIA_USD_DECIMALS_FACTOR: u128 = 1_000_000_000_000_000_000;

/// Minimum competition duration: one hour.
pub const MINIMUM_DURATION: u64 = 3_600_000;

pub const PERCENTAGE_CALCULATION_DENOMINATOR: u16 = 10_000;

/// Share of the processing fee paid to whoever computes a final value.
pub const FINAL_VALUE_UPDATE_FEE_PERCENTAGE_NUMERATOR: u16 = 1_000;

} // verus!

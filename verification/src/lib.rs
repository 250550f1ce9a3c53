//! A verified core for a candle-stream trading signal engine.
//!
//! The library models prices as scaled integers (a caller-chosen number of
//! fractional digits folded into an `i64`), and builds on that model:
//! candle geometry, moving averages, Wilder-smoothed indicators, a status
//! codebook, signal rulebooks, and the money management of a trading lot.

pub mod analysis;
pub mod candle;
pub mod codebook;
pub mod generator;
pub mod indicators;
pub mod ma;
pub mod money;
pub mod num;
pub mod records;
pub mod rulebook;
pub mod scan;
pub mod session;

use vstd::prelude::*;

verus! {

/// Upper bound on any price handled by the library, in scaled units.
/// Keeping prices below this bound lets every intermediate product of the
/// indicator pipeline fit comfortably in the machine integers used here.
pub const PRICE_MAX: i64 = 1_000_000_000_000;

/// Upper bound on any indicator period accepted by the options.
pub const PERIOD_MAX: usize = 1000;

} // verus!

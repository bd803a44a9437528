//! Verified core of a stock-charting tool: fixed-point quote data,
//! RSI and MACD indicator engines, a volatility classifier, and
//! chart-series preparation, with calendar date labels derived
//! through `chrono`.

use vstd::prelude::*;

pub mod indicators;
pub mod prepare;
pub mod quotes;
pub mod timeline;
pub mod volatility;

verus! {

/// All prices and indicator values are fixed-point integers: a real
/// value `v` is stored as `v * SCALE`, rounded.
pub const SCALE: i64 = 10_000;

/// Largest magnitude a fixed-point price may have; keeps every
/// intermediate product of the indicator pipeline inside `i64`.
pub const PRICE_MAX: i64 = 1_000_000_000_000;

/// Largest indicator period the engines accept; with `PRICE_MAX` it
/// keeps every smoothing product inside `i64`.
pub const PERIOD_MAX: i64 = 10_000;

} // verus!

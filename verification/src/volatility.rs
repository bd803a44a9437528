//! The volatility classifier: one boolean per quote.
//!
//! A day is volatile when its intraday spread exceeds two per cent of
//! the close: `(high - low) / close * 100 > 2`.  Over the integers
//! (with `close > 0`) that inequality is exactly
//! `100 * (high - low) > 2 * close`, so no division is needed and no
//! division by zero can arise: a day whose close is zero is not
//! volatile, by definition.

use vstd::prelude::*;
use crate::quotes::{Quote, QuoteSeries};

verus! {

/// What it means for a day to be volatile.
pub open spec fn spec_is_volatile(q: Quote) -> bool {
    q.close > 0 && 100 * (q.high - q.low) > 2 * q.close
}

pub struct VolatilityClassifier {}

impl VolatilityClassifier {
    /// Classify one day.  Never fails: `close == 0` simply yields
    /// `false`.
    pub fn is_volatile(q: &Quote) -> (r: bool)
        requires
            q.fits(),
        ensures
            r == spec_is_volatile(*q),
            q.close == 0 ==> r == false,
    {
        if q.close == 0 {
            false
        } else {
            100i64 * (q.high - q.low) > 2i64 * q.close
        }
    }

    /// One flag per quote, aligned by index with the series.
    pub fn flags(series: &QuoteSeries) -> (r: Vec<bool>)
        requires
            series.fits(),
        ensures
            r@.len() == series@.len(),
            forall|i: int|
                0 <= i < series@.len() ==> r@[i] == spec_is_volatile(#[trigger] series@[i]),
    {
        let mut r: Vec<bool> = Vec::new();
        let n = series.len();
        let mut k: usize = 0;
        while k < n
            invariant
                series.fits(),
                n == series@.len(),
                k <= n,
                r@.len() == k,
                forall|i: int| 0 <= i < k ==> r@[i] == spec_is_volatile(#[trigger] series@[i]),
            decreases n - k,
        {
            let q = series.get(k);
            r.push(Self::is_volatile(&q));
            k += 1;
        }
        r
    }
}

} // verus!

//! Calendar date labels and the lookback window.
//!
//! Every quote gets exactly one label, derived from its timestamp by
//! truncation to the UTC calendar day.  A timestamp that cannot be
//! converted yields the empty string as a sentinel, so the label
//! sequence always has the length of the quote series and all series
//! share one index space (a deliberate correction: dropping such
//! labels would silently misalign labels and prices).

use vstd::prelude::*;
use crate::quotes::QuoteSeries;

verus! {

/// The last second of calendar year 9999 in UTC; timestamps up to
/// here are always convertible.
pub const LABEL_TS_MAX: i64 = 253_402_300_799;

/// The length of the lookback window: 180 days of 86,400 seconds.
pub const LOOKBACK_SECONDS: i64 = 15_552_000;

/// The `%Y-%m-%d` rendering of a timestamp's UTC calendar day.
pub uninterp spec fn date_string_of(ts: int) -> Seq<char>;

/// Relies on chrono's `DateTime::<Utc>::from_timestamp` (with zero
/// nanoseconds) and its `%Y-%m-%d` formatter: the result is the UTC
/// calendar date, a function of the timestamp alone, and
/// `from_timestamp` documents `None` only for an out-of-range number
/// of seconds, so every timestamp from the epoch through year 9999
/// converts.
#[verifier::external_body]
fn format_date_label(ts: i64) -> (r: Option<String>)
    ensures
        0 <= ts <= LABEL_TS_MAX ==> r is Some,
        r is Some ==> r->Some_0@ == date_string_of(ts as int),
{
    match chrono::DateTime::<chrono::Utc>::from_timestamp(ts, 0) {
        Some(dt) => Some(dt.format("%Y-%m-%d").to_string()),
        None => None,
    }
}

/// One label per quote, in order: the quote's UTC calendar date, or
/// the empty string where the timestamp cannot be converted.
pub fn date_labels(series: &QuoteSeries) -> (r: Vec<String>)
    ensures
        r@.len() == series@.len(),
        forall|i: int|
            0 <= i < series@.len() && 0 <= (#[trigger] series@[i]).timestamp <= LABEL_TS_MAX
                ==> r@[i]@ == date_string_of(series@[i].timestamp as int),
        forall|i: int|
            0 <= i < series@.len() ==> (#[trigger] r@[i])@ == date_string_of(
                series@[i].timestamp as int,
            ) || r@[i]@ == Seq::<char>::empty(),
{
    let mut r: Vec<String> = Vec::new();
    let n = series.len();
    let mut k: usize = 0;
    while k < n
        invariant
            n == series@.len(),
            k <= n,
            r@.len() == k,
            forall|i: int|
                0 <= i < k && 0 <= (#[trigger] series@[i]).timestamp <= LABEL_TS_MAX ==> r@[i]@
                    == date_string_of(series@[i].timestamp as int),
            forall|i: int|
                0 <= i < k ==> (#[trigger] r@[i])@ == date_string_of(series@[i].timestamp as int)
                    || r@[i]@ == Seq::<char>::empty(),
        decreases n - k,
    {
        let q = series.get(k);
        match format_date_label(q.timestamp) {
            Some(s) => r.push(s),
            None => r.push(String::new()),
        }
        k += 1;
    }
    r
}

/// The six-month lookback window ending at `now_ts`: 180 days back,
/// as the fetch window is computed before the pipeline runs.
pub fn lookback_window(now_ts: i64) -> (r: (i64, i64))
    requires
        i64::MIN + LOOKBACK_SECONDS <= now_ts,
    ensures
        r.0 == now_ts - LOOKBACK_SECONDS,
        r.1 == now_ts,
{
    (now_ts - LOOKBACK_SECONDS, now_ts)
}

} // verus!

//! Chart-series preparation: the three render-ready bundles and the
//! shared label-thinning policy.
//!
//! The MACD y-axis is deliberately scaled by the *histogram's* range
//! even though the histogram itself is not plotted: the range is
//! `[histogram_min - span, histogram_max + span]` with
//! `span = histogram_max - histogram_min`.  That quirk is part of the
//! contract and is preserved, not corrected.

use vstd::prelude::*;
use crate::indicators::IndicatorSample;
use crate::quotes::{Quote, QuoteSeries};
use crate::volatility::{spec_is_volatile, VolatilityClassifier};
use crate::{PRICE_MAX, SCALE};

verus! {

/// A straight line segment in chart coordinates: index on the x axis,
/// fixed-point price on the y axis.
#[derive(Clone, Copy, PartialEq, Eq, Structural, Debug)]
pub struct Segment {
    pub x0: usize,
    pub y0: i64,
    pub x1: usize,
    pub y1: i64,
}

/// The three annotation segments of one volatile day `i` of a series
/// of length `len`: the high-low error bar, and the high and low
/// envelope lines spanning one index before the day to one index
/// after it, clamped at both sequence boundaries.
pub open spec fn day_segments(i: int, len: int, q: Quote) -> Seq<Segment> {
    let start = if i > 1 {
        i - 1
    } else {
        0
    };
    let end = if i + 1 < len {
        i + 1
    } else {
        len - 1
    };
    seq![
        (Segment { x0: i as usize, y0: q.low, x1: i as usize, y1: q.high }),
        (Segment { x0: start as usize, y0: q.high, x1: end as usize, y1: q.high }),
        (Segment { x0: start as usize, y0: q.low, x1: end as usize, y1: q.low }),
    ]
}

/// The annotation segments of a whole series of length `len`: those
/// of each volatile day, in index order.
pub open spec fn all_segments(quotes: Seq<Quote>, len: int) -> Seq<Segment>
    decreases quotes.len(),
{
    if quotes.len() == 0 {
        Seq::empty()
    } else {
        let pre = all_segments(quotes.drop_last(), len);
        if spec_is_volatile(quotes.last()) {
            pre + day_segments(quotes.len() - 1, len, quotes.last())
        } else {
            pre
        }
    }
}

/// The price chart bundle: closes, volatility flags and annotation
/// segments, the padded x extent, and the close-price range.
pub struct PriceBundle {
    pub closes: Vec<i64>,
    pub flags: Vec<bool>,
    pub segments: Vec<Segment>,
    pub x_count: usize,
    pub y_range: Option<(i64, i64)>,
}

/// The RSI chart bundle: the values and the two constant reference
/// lines.
pub struct RsiBundle {
    pub rsi: Vec<i64>,
    pub overbought: i64,
    pub oversold: i64,
}

/// The spread of the MACD histogram and the y-range derived from it.
#[derive(Clone, Copy, PartialEq, Eq, Structural, Debug)]
pub struct MacdRange {
    pub hist_min: i64,
    pub hist_max: i64,
    pub min: i64,
    pub max: i64,
}

/// The MACD chart bundle: the line, its signal, and the y-range.
pub struct MacdBundle {
    pub macd: Vec<i64>,
    pub signal: Vec<i64>,
    pub range: Option<MacdRange>,
}

/// What the y-range of the MACD chart must be, given the histogram
/// extremes over the samples: each extreme is attained, bounds every
/// histogram value, and the axis is padded by the full span on both
/// sides.
pub open spec fn macd_range_matches(m: MacdRange, samples: Seq<IndicatorSample>) -> bool {
    &&& forall|j: int|
        0 <= j < samples.len() ==> m.hist_min <= (#[trigger] samples[j]).macd_histogram
            <= m.hist_max
    &&& exists|j: int| 0 <= j < samples.len() && (#[trigger] samples[j]).macd_histogram == m.hist_min
    &&& exists|j: int| 0 <= j < samples.len() && (#[trigger] samples[j]).macd_histogram == m.hist_max
    &&& m.min == m.hist_min - (m.hist_max - m.hist_min)
    &&& m.max == m.hist_max + (m.hist_max - m.hist_min)
}

/// The step of the label-thinning policy: every `count / 6`-th label
/// is shown.  Below six labels the step is one, so every label is
/// shown (a defined boundary rather than a division by zero).
pub open spec fn spec_label_step(count: int) -> int {
    if count / 6 >= 1 {
        count / 6
    } else {
        1
    }
}

pub struct SeriesPreparer {}

impl SeriesPreparer {
    /// The x extent of the price chart: the series length padded by a
    /// twentieth.
    pub fn price_x_count(len: usize) -> (r: usize)
        requires
            len + len / 20 <= usize::MAX,
        ensures
            r == len + len as int / 20,
    {
        len + len / 20
    }

    /// The exec side of the thinning policy.
    pub fn label_step(count: usize) -> (r: usize)
        ensures
            r == spec_label_step(count as int),
            r >= 1,
    {
        let s = count / 6;
        if s == 0 {
            1
        } else {
            s
        }
    }

    /// The label shown at slot `idx`: the stored label on every
    /// step-th slot, and the empty string on all others.
    pub fn label_at(labels: &Vec<String>, idx: usize) -> (r: String)
        ensures
            r@ == (if idx as int % spec_label_step(labels@.len() as int) == 0 && idx
                < labels@.len() {
                labels@[idx as int]@
            } else {
                Seq::<char>::empty()
            }),
    {
        let step = Self::label_step(labels.len());
        if idx % step == 0 && idx < labels.len() {
            labels[idx].clone()
        } else {
            String::new()
        }
    }

    /// The annotation segments of every volatile day, in index order.
    pub fn volatile_segments(series: &QuoteSeries) -> (r: Vec<Segment>)
        requires
            series.fits(),
            series@.len() < usize::MAX,
        ensures
            r@ == all_segments(series@, series@.len() as int),
    {
        let mut r: Vec<Segment> = Vec::new();
        let n = series.len();
        let mut k: usize = 0;
        while k < n
            invariant
                series.fits(),
                series@.len() < usize::MAX,
                n == series@.len(),
                k <= n,
                r@ == all_segments(series@.take(k as int), n as int),
            decreases n - k,
        {
            let q = series.get(k);
            proof {
                assert(series@.take(k + 1).drop_last() =~= series@.take(k as int));
                assert(series@.take(k + 1).last() == series@[k as int]);
            }
            if VolatilityClassifier::is_volatile(&q) {
                let start: usize = if k > 1 {
                    k - 1
                } else {
                    0
                };
                let end: usize = if k + 1 < n {
                    k + 1
                } else {
                    n - 1
                };
                r.push(Segment { x0: k, y0: q.low, x1: k, y1: q.high });
                r.push(Segment { x0: start, y0: q.high, x1: end, y1: q.high });
                r.push(Segment { x0: start, y0: q.low, x1: end, y1: q.low });
                proof {
                    assert(r@ =~= all_segments(series@.take(k as int), n as int) + day_segments(
                        k as int,
                        n as int,
                        series@[k as int],
                    ));
                }
            }
            k += 1;
        }
        proof {
            assert(series@.take(n as int) =~= series@);
        }
        r
    }

    /// The price bundle.  An empty series yields empty vectors and no
    /// y-range.
    pub fn prepare_price(series: &QuoteSeries) -> (r: PriceBundle)
        requires
            series.fits(),
            series@.len() + series@.len() / 20 <= usize::MAX,
        ensures
            r.closes@.len() == series@.len(),
            forall|i: int| 0 <= i < series@.len() ==> r.closes@[i] == #[trigger] series@[i].close,
            r.flags@.len() == series@.len(),
            forall|i: int|
                0 <= i < series@.len() ==> r.flags@[i] == spec_is_volatile(#[trigger] series@[i]),
            r.segments@ == all_segments(series@, series@.len() as int),
            r.x_count == series@.len() + series@.len() as int / 20,
            r.y_range is Some <==> series@.len() > 0,
            r.y_range is Some ==> {
                let (lo, hi) = r.y_range->Some_0;
                &&& forall|i: int| 0 <= i < series@.len() ==> lo <= (#[trigger] series@[i]).close <= hi
                &&& exists|i: int| 0 <= i < series@.len() && (#[trigger] series@[i]).close == lo
                &&& exists|i: int| 0 <= i < series@.len() && (#[trigger] series@[i]).close == hi
            },
    {
        let closes = series.closes();
        let flags = VolatilityClassifier::flags(series);
        let segments = Self::volatile_segments(series);
        let x_count = Self::price_x_count(series.len());
        let n = series.len();
        let y_range: Option<(i64, i64)> = if n == 0 {
            None
        } else {
            let mut lo: i64 = series.get(0).close;
            let mut hi: i64 = series.get(0).close;
            let mut k: usize = 1;
            while k < n
                invariant
                    series.fits(),
                    n == series@.len(),
                    1 <= k <= n,
                    forall|i: int| 0 <= i < k ==> lo <= (#[trigger] series@[i]).close <= hi,
                    exists|i: int| 0 <= i < k && (#[trigger] series@[i]).close == lo,
                    exists|i: int| 0 <= i < k && (#[trigger] series@[i]).close == hi,
                decreases n - k,
            {
                let c = series.get(k).close;
                if c < lo {
                    lo = c;
                }
                if c > hi {
                    hi = c;
                }
                k += 1;
            }
            Some((lo, hi))
        };
        PriceBundle { closes, flags, segments, x_count, y_range }
    }

    /// The RSI bundle: the values with the overbought and oversold
    /// reference lines at (scaled) 70 and 30.
    pub fn prepare_rsi(samples: &Vec<IndicatorSample>) -> (r: RsiBundle)
        ensures
            r.rsi@.len() == samples@.len(),
            forall|i: int| 0 <= i < samples@.len() ==> r.rsi@[i] == (#[trigger] samples@[i]).rsi,
            r.overbought == 70 * SCALE,
            r.oversold == 30 * SCALE,
    {
        let mut rsi: Vec<i64> = Vec::new();
        let n = samples.len();
        let mut k: usize = 0;
        while k < n
            invariant
                n == samples@.len(),
                k <= n,
                rsi@.len() == k,
                forall|i: int| 0 <= i < k ==> rsi@[i] == (#[trigger] samples@[i]).rsi,
            decreases n - k,
        {
            rsi.push(samples[k].rsi);
            k += 1;
        }
        RsiBundle { rsi, overbought: 70 * SCALE, oversold: 30 * SCALE }
    }

    /// The y-range of the MACD chart, from the histogram extremes.
    /// An empty sample sequence has no range.
    pub fn macd_range(samples: &Vec<IndicatorSample>) -> (r: Option<MacdRange>)
        requires
            forall|i: int|
                0 <= i < samples@.len() ==> -2 * PRICE_MAX <= (
                #[trigger] samples@[i]).macd_histogram <= 2 * PRICE_MAX,
        ensures
            r is Some <==> samples@.len() > 0,
            r is Some ==> macd_range_matches(r->Some_0, samples@),
    {
        let n = samples.len();
        if n == 0 {
            return None;
        }
        let mut hist_min: i64 = samples[0].macd_histogram;
        let mut hist_max: i64 = samples[0].macd_histogram;
        let mut k: usize = 1;
        while k < n
            invariant
                n == samples@.len(),
                1 <= k <= n,
                forall|i: int|
                    0 <= i < samples@.len() ==> -2 * PRICE_MAX <= (
                    #[trigger] samples@[i]).macd_histogram <= 2 * PRICE_MAX,
                -2 * PRICE_MAX <= hist_min <= 2 * PRICE_MAX,
                -2 * PRICE_MAX <= hist_max <= 2 * PRICE_MAX,
                forall|i: int|
                    0 <= i < k ==> hist_min <= (#[trigger] samples@[i]).macd_histogram <= hist_max,
                exists|i: int| 0 <= i < k && (#[trigger] samples@[i]).macd_histogram == hist_min,
                exists|i: int| 0 <= i < k && (#[trigger] samples@[i]).macd_histogram == hist_max,
            decreases n - k,
        {
            let h = samples[k].macd_histogram;
            if h < hist_min {
                hist_min = h;
            }
            if h > hist_max {
                hist_max = h;
            }
            k += 1;
        }
        let span: i64 = hist_max - hist_min;
        Some(MacdRange { hist_min, hist_max, min: hist_min - span, max: hist_max + span })
    }

    /// The MACD bundle.  An empty sample sequence yields empty
    /// vectors and no range.
    pub fn prepare_macd(samples: &Vec<IndicatorSample>) -> (r: MacdBundle)
        requires
            forall|i: int|
                0 <= i < samples@.len() ==> -2 * PRICE_MAX <= (
                #[trigger] samples@[i]).macd_histogram <= 2 * PRICE_MAX,
        ensures
            r.macd@.len() == samples@.len(),
            forall|i: int| 0 <= i < samples@.len() ==> r.macd@[i] == (#[trigger] samples@[i]).macd,
            r.signal@.len() == samples@.len(),
            forall|i: int|
                0 <= i < samples@.len() ==> r.signal@[i] == (#[trigger] samples@[i]).macd_signal,
            r.range is Some <==> samples@.len() > 0,
            r.range is Some ==> macd_range_matches(r.range->Some_0, samples@),
    {
        let mut macd: Vec<i64> = Vec::new();
        let mut signal: Vec<i64> = Vec::new();
        let n = samples.len();
        let mut k: usize = 0;
        while k < n
            invariant
                n == samples@.len(),
                k <= n,
                macd@.len() == k,
                signal@.len() == k,
                forall|i: int| 0 <= i < k ==> macd@[i] == (#[trigger] samples@[i]).macd,
                forall|i: int| 0 <= i < k ==> signal@[i] == (#[trigger] samples@[i]).macd_signal,
            decreases n - k,
        {
            macd.push(samples[k].macd);
            signal.push(samples[k].macd_signal);
            k += 1;
        }
        let range = Self::macd_range(samples);
        MacdBundle { macd, signal, range }
    }
}

} // verus!

//! The indicator engines: RSI and MACD as streaming transforms.
//!
//! Both engines consume one closing price at a time and keep only a
//! fixed-size smoothing state.  All arithmetic is fixed-point over
//! `i64`; every division rounds toward negative infinity (Euclidean
//! division by a positive divisor), which is the one rounding rule of
//! this library.
//!
//! Seeding rules, fixed here once:
//! - RSI: the first sample has no delta; both running averages start
//!   at zero, so with `avg_loss == 0` the first RSI value is 100.
//! - MACD: the two price EMAs are seeded with the first price, hence
//!   the first MACD value is 0; the signal EMA is seeded with that
//!   first MACD value, 0.

use vstd::prelude::*;
use vstd::arithmetic::div_mod::{
    lemma_div_is_ordered, lemma_div_multiples_vanish, lemma_div_nonincreasing,
    lemma_div_of0, lemma_div_pos_is_pos, lemma_fundamental_div_mod,
    lemma_fundamental_div_mod_converse, lemma_mod_division_less_than_divisor,
};
use vstd::arithmetic::mul::lemma_mul_inequality;
use crate::{PERIOD_MAX, PRICE_MAX, SCALE};

verus! {

/// Invalid engine configuration, rejected at construction.
#[derive(Clone, Copy, PartialEq, Eq, Structural, Debug)]
pub enum ConfigError {
    /// Some period parameter is zero or negative.
    NonPositivePeriod,
    /// The fast MACD period does not lie below the slow one.
    FastNotBelowSlow,
}

/// Largest magnitude the division helpers accept.
const DIV_BOUND: i64 = 2_000_000_000_000_000_000;

/// The gain of one step: how far the price rose, and 0 otherwise.
pub open spec fn gain_of(prev: int, x: int) -> int {
    if x >= prev {
        x - prev
    } else {
        0
    }
}

/// The loss of one step: how far the price fell, and 0 otherwise.
pub open spec fn loss_of(prev: int, x: int) -> int {
    if x < prev {
        prev - x
    } else {
        0
    }
}

/// Wilder's smoothing: `avg * (n-1) + v` averaged back over `n`.
pub open spec fn wilder_step(avg: int, v: int, n: int) -> int {
    (avg * (n - 1) + v) / n
}

/// One exponential-moving-average step with smoothing factor
/// `2 / (p + 1)`: `ema + 2/(p+1) * (x - ema)` over a common
/// denominator.
pub open spec fn ema_step(prev: int, x: int, p: int) -> int {
    (prev * (p - 1) + 2 * x) / (p + 1)
}

/// The RSI formula over the two running averages.  `avg_loss == 0`
/// (which includes the warm-up sample) yields 100; otherwise
/// `100 * avg_gain / (avg_gain + avg_loss)`, the form of
/// `100 - 100 / (1 + avg_gain / avg_loss)` that needs one division.
/// Values carry the fixed-point scale.
pub open spec fn rsi_of(g: int, l: int) -> int {
    if l == 0 {
        100 * SCALE
    } else {
        (100 * SCALE * g) / (g + l)
    }
}

/// The RSI smoothing state: the two running averages.
pub struct RsiState {
    pub avg_gain: int,
    pub avg_loss: int,
}

/// One RSI update from the previous price to the next.
pub open spec fn rsi_step_state(st: RsiState, prev: int, x: int, n: int) -> RsiState {
    RsiState {
        avg_gain: wilder_step(st.avg_gain, gain_of(prev, x), n),
        avg_loss: wilder_step(st.avg_loss, loss_of(prev, x), n),
    }
}

/// The RSI state after consuming a whole price sequence.  The first
/// price only primes the engine: both averages stay zero.
pub open spec fn rsi_state(prices: Seq<i64>, n: int) -> RsiState
    decreases prices.len(),
{
    if prices.len() <= 1 {
        RsiState { avg_gain: 0, avg_loss: 0 }
    } else {
        rsi_step_state(
            rsi_state(prices.drop_last(), n),
            prices[prices.len() - 2] as int,
            prices.last() as int,
            n,
        )
    }
}

/// The RSI value reported at index `i` of a price sequence.
pub open spec fn rsi_at(prices: Seq<i64>, n: int, i: int) -> int {
    let st = rsi_state(prices.take(i + 1), n);
    rsi_of(st.avg_gain, st.avg_loss)
}

/// The MACD smoothing state: the two price EMAs and the signal EMA.
pub struct MacdState {
    pub ema_fast: int,
    pub ema_slow: int,
    pub ema_signal: int,
}

/// The MACD state after consuming a whole price sequence.
pub open spec fn macd_state(prices: Seq<i64>, f: int, sl: int, sp: int) -> MacdState
    decreases prices.len(),
{
    if prices.len() == 0 {
        MacdState { ema_fast: 0, ema_slow: 0, ema_signal: 0 }
    } else if prices.len() == 1 {
        MacdState { ema_fast: prices[0] as int, ema_slow: prices[0] as int, ema_signal: 0 }
    } else {
        let prior = macd_state(prices.drop_last(), f, sl, sp);
        let x = prices.last() as int;
        let ef = ema_step(prior.ema_fast, x, f);
        let es = ema_step(prior.ema_slow, x, sl);
        MacdState { ema_fast: ef, ema_slow: es, ema_signal: ema_step(prior.ema_signal, ef - es, sp) }
    }
}

/// The MACD line value at index `i`.
pub open spec fn macd_at(prices: Seq<i64>, f: int, sl: int, sp: int, i: int) -> int {
    let st = macd_state(prices.take(i + 1), f, sl, sp);
    st.ema_fast - st.ema_slow
}

/// The MACD signal value at index `i`.
pub open spec fn macd_signal_at(prices: Seq<i64>, f: int, sl: int, sp: int, i: int) -> int {
    macd_state(prices.take(i + 1), f, sl, sp).ema_signal
}

/// `lo * b <= a <= hi * b` with `b > 0` confines `a / b` to
/// `[lo, hi]`.
proof fn lemma_div_range(a: int, b: int, lo: int, hi: int)
    requires
        1 <= b,
        lo * b <= a,
        a <= hi * b,
    ensures
        lo <= a / b <= hi,
{
    lemma_div_is_ordered(lo * b, a, b);
    lemma_div_is_ordered(a, hi * b, b);
    lemma_div_multiples_vanish(lo, b);
    lemma_div_multiples_vanish(hi, b);
    assert(lo * b == b * lo) by (nonlinear_arith);
    assert(hi * b == b * hi) by (nonlinear_arith);
}

/// A Wilder update keeps the average within `[0, bnd]` when the
/// average and the new value are.
proof fn lemma_wilder_bounds(avg: int, v: int, n: int, bnd: int)
    requires
        1 <= n,
        0 <= bnd,
        0 <= avg <= bnd,
        0 <= v <= bnd,
    ensures
        0 <= wilder_step(avg, v, n) <= bnd,
{
    let num = avg * (n - 1) + v;
    lemma_mul_inequality(avg, bnd, n - 1);
    lemma_mul_inequality(0, avg, n - 1);
    assert(0 * (n - 1) == 0) by (nonlinear_arith);
    assert(bnd * (n - 1) + bnd == bnd * n) by (nonlinear_arith);
    lemma_div_range(num, n, 0, bnd);
}

/// An EMA update keeps the average within `[-bnd, bnd]` when the
/// average and the new value are.
proof fn lemma_ema_step_bounds(prev: int, x: int, p: int, bnd: int)
    requires
        1 <= p,
        0 <= bnd,
        -bnd <= prev <= bnd,
        -bnd <= x <= bnd,
    ensures
        -bnd <= ema_step(prev, x, p) <= bnd,
{
    let num = prev * (p - 1) + 2 * x;
    lemma_mul_inequality(prev, bnd, p - 1);
    lemma_mul_inequality(-bnd, prev, p - 1);
    assert(bnd * (p - 1) + 2 * bnd == bnd * (p + 1)) by (nonlinear_arith);
    assert((-bnd) * (p - 1) - 2 * bnd == (-bnd) * (p + 1)) by (nonlinear_arith);
    lemma_div_range(num, p + 1, -bnd, bnd);
}

/// An EMA update of two nonnegative quantities stays nonnegative.
proof fn lemma_ema_step_nonneg(prev: int, x: int, p: int)
    requires
        1 <= p,
        0 <= prev,
        0 <= x,
    ensures
        0 <= ema_step(prev, x, p),
{
    lemma_mul_inequality(0, prev, p - 1);
    assert(0 * (p - 1) == 0) by (nonlinear_arith);
    lemma_div_pos_is_pos(prev * (p - 1) + 2 * x, p + 1);
}

/// The RSI formula stays within the scaled `[0, 100]` band.
pub proof fn lemma_rsi_of_bounds(g: int, l: int)
    requires
        0 <= g,
        0 <= l,
    ensures
        0 <= rsi_of(g, l) <= 100 * SCALE,
{
    if l != 0 {
        lemma_mul_inequality(g, g + l, 100 * SCALE);
        assert(g * (100 * SCALE) == 100 * SCALE * g) by (nonlinear_arith);
        assert((g + l) * (100 * SCALE) == 100 * SCALE * (g + l)) by (nonlinear_arith);
        lemma_div_pos_is_pos(100 * SCALE * g, g + l);
        lemma_div_is_ordered(100 * SCALE * g, 100 * SCALE * (g + l), g + l);
        lemma_div_multiples_vanish(100 * SCALE, g + l);
    }
}

/// Division of a nonnegative value by a positive one, performed over
/// `u64`; the result is the Euclidean quotient.
fn div_nonneg(a: i64, b: i64) -> (r: i64)
    requires
        0 <= a,
        1 <= b,
    ensures
        r == a as int / b as int,
        0 <= r <= a,
{
    proof {
        lemma_div_pos_is_pos(a as int, b as int);
        lemma_div_nonincreasing(a as int, b as int);
    }
    ((a as u64) / (b as u64)) as i64
}

/// Division by a positive divisor, rounding toward negative infinity
/// (the Euclidean quotient).
fn div_floor(a: i64, b: i64) -> (r: i64)
    requires
        1 <= b,
        -DIV_BOUND <= a <= DIV_BOUND,
    ensures
        r == a as int / b as int,
{
    if a >= 0 {
        div_nonneg(a, b)
    } else {
        let m: i64 = -a;
        let q1 = div_nonneg(m - 1, b);
        proof {
            let qq = (m - 1) as int / b as int;
            let rr = (m - 1) as int % b as int;
            lemma_fundamental_div_mod((m - 1) as int, b as int);
            lemma_mod_division_less_than_divisor((m - 1) as int, b as int);
            assert((-qq - 1) * b == -(b * qq) - b) by (nonlinear_arith);
            assert(a as int == (-qq - 1) * b + (b - 1 - rr));
            lemma_fundamental_div_mod_converse(a as int, b as int, -qq - 1, b - 1 - rr);
        }
        -q1 - 1
    }
}

/// The streaming RSI engine: Wilder-smoothed average gain and loss
/// over a fixed period.
#[derive(Debug)]
pub struct RsiEngine {
    pub period: i64,
    pub avg_gain: i64,
    pub avg_loss: i64,
    pub prev: i64,
    pub primed: bool,
}

impl RsiEngine {
    /// The engine's invariant: the period is in range and the state
    /// fits the fixed-point bounds.
    pub open spec fn wf(self) -> bool {
        &&& 1 <= self.period <= PERIOD_MAX
        &&& 0 <= self.avg_gain <= PRICE_MAX
        &&& 0 <= self.avg_loss <= PRICE_MAX
        &&& 0 <= self.prev <= PRICE_MAX
    }

    /// A freshly built engine: nothing consumed yet.
    pub open spec fn fresh(self) -> bool {
        &&& !self.primed
        &&& self.avg_gain == 0
        &&& self.avg_loss == 0
    }

    /// The abstract smoothing state.
    pub open spec fn state(self) -> RsiState {
        RsiState { avg_gain: self.avg_gain as int, avg_loss: self.avg_loss as int }
    }

    /// Build an engine; a non-positive period is a configuration
    /// error.
    pub fn new(period: i64) -> (r: Result<RsiEngine, ConfigError>)
        requires
            period <= PERIOD_MAX,
        ensures
            r is Ok <==> period >= 1,
            r is Err ==> r->Err_0 == ConfigError::NonPositivePeriod,
            r is Ok ==> r->Ok_0.wf() && r->Ok_0.fresh() && r->Ok_0.period == period,
    {
        if period < 1 {
            Err(ConfigError::NonPositivePeriod)
        } else {
            Ok(RsiEngine { period, avg_gain: 0, avg_loss: 0, prev: 0, primed: false })
        }
    }

    /// Consume one price and report the RSI value at that point.
    pub fn step(&mut self, price: i64) -> (r: i64)
        requires
            old(self).wf(),
            0 <= price <= PRICE_MAX,
        ensures
            final(self).wf(),
            final(self).primed,
            final(self).period == old(self).period,
            final(self).prev == price,
            !old(self).primed ==> final(self).state() == (RsiState { avg_gain: 0, avg_loss: 0 }),
            old(self).primed ==> final(self).state() == rsi_step_state(
                old(self).state(),
                old(self).prev as int,
                price as int,
                old(self).period as int,
            ),
            r == rsi_of(final(self).state().avg_gain, final(self).state().avg_loss),
            0 <= r <= 100 * SCALE,
    {
        if !self.primed {
            self.primed = true;
            self.avg_gain = 0;
            self.avg_loss = 0;
        } else {
            let gain: i64 = if price >= self.prev { price - self.prev } else { 0 };
            let loss: i64 = if price < self.prev { self.prev - price } else { 0 };
            proof {
                lemma_wilder_bounds(
                    self.avg_gain as int,
                    gain as int,
                    self.period as int,
                    PRICE_MAX as int,
                );
                lemma_wilder_bounds(
                    self.avg_loss as int,
                    loss as int,
                    self.period as int,
                    PRICE_MAX as int,
                );
                assert(self.avg_gain as int * (self.period as int - 1) <= 10_000_000_000_000_000)
                    by (nonlinear_arith)
                    requires
                        0 <= self.avg_gain as int <= 1_000_000_000_000,
                        1 <= self.period as int <= 10_000,
                ;
                assert(self.avg_loss as int * (self.period as int - 1) <= 10_000_000_000_000_000)
                    by (nonlinear_arith)
                    requires
                        0 <= self.avg_loss as int <= 1_000_000_000_000,
                        1 <= self.period as int <= 10_000,
                ;
                assert(0 <= self.avg_gain as int * (self.period as int - 1)) by (nonlinear_arith)
                    requires
                        0 <= self.avg_gain as int,
                        1 <= self.period as int,
                ;
                assert(0 <= self.avg_loss as int * (self.period as int - 1)) by (nonlinear_arith)
                    requires
                        0 <= self.avg_loss as int,
                        1 <= self.period as int,
                ;
            }
            self.avg_gain = div_nonneg(self.avg_gain * (self.period - 1) + gain, self.period);
            self.avg_loss = div_nonneg(self.avg_loss * (self.period - 1) + loss, self.period);
        }
        self.prev = price;
        proof {
            lemma_rsi_of_bounds(self.avg_gain as int, self.avg_loss as int);
        }
        if self.avg_loss == 0 {
            100 * SCALE
        } else {
            div_nonneg(100 * SCALE * self.avg_gain, self.avg_gain + self.avg_loss)
        }
    }
}

/// One MACD output: the line, its signal, and their difference.
#[derive(Clone, Copy, PartialEq, Eq, Structural, Debug)]
pub struct MacdSample {
    pub macd: i64,
    pub signal: i64,
    pub histogram: i64,
}

/// The streaming MACD engine: a fast and a slow price EMA and a
/// signal EMA of their difference.
#[derive(Debug)]
pub struct MacdEngine {
    pub fast: i64,
    pub slow: i64,
    pub signal_period: i64,
    pub ema_fast: i64,
    pub ema_slow: i64,
    pub ema_signal: i64,
    pub primed: bool,
}

impl MacdEngine {
    /// The engine's invariant: periods in range, fast below slow, and
    /// the state within the fixed-point bounds.
    pub open spec fn wf(self) -> bool {
        &&& 1 <= self.fast
        &&& self.fast < self.slow <= PERIOD_MAX
        &&& 1 <= self.signal_period <= PERIOD_MAX
        &&& 0 <= self.ema_fast <= PRICE_MAX
        &&& 0 <= self.ema_slow <= PRICE_MAX
        &&& -PRICE_MAX <= self.ema_signal <= PRICE_MAX
    }

    /// A freshly built engine: nothing consumed yet.
    pub open spec fn fresh(self) -> bool {
        &&& !self.primed
        &&& self.ema_fast == 0
        &&& self.ema_slow == 0
        &&& self.ema_signal == 0
    }

    /// The abstract smoothing state.
    pub open spec fn state(self) -> MacdState {
        MacdState {
            ema_fast: self.ema_fast as int,
            ema_slow: self.ema_slow as int,
            ema_signal: self.ema_signal as int,
        }
    }

    /// Build an engine; non-positive periods, or a fast period not
    /// below the slow one, are configuration errors.
    pub fn new(fast: i64, slow: i64, signal_period: i64) -> (r: Result<MacdEngine, ConfigError>)
        requires
            slow <= PERIOD_MAX,
            signal_period <= PERIOD_MAX,
        ensures
            r is Ok <==> fast >= 1 && slow >= 1 && signal_period >= 1 && fast < slow,
            !(fast >= 1 && slow >= 1 && signal_period >= 1) ==> r == Result::<
                MacdEngine,
                ConfigError,
            >::Err(ConfigError::NonPositivePeriod),
            fast >= 1 && slow >= 1 && signal_period >= 1 && fast >= slow ==> r == Result::<
                MacdEngine,
                ConfigError,
            >::Err(ConfigError::FastNotBelowSlow),
            r is Ok ==> r->Ok_0.wf() && r->Ok_0.fresh() && r->Ok_0.fast == fast
                && r->Ok_0.slow == slow && r->Ok_0.signal_period == signal_period,
    {
        if fast < 1 || slow < 1 || signal_period < 1 {
            Err(ConfigError::NonPositivePeriod)
        } else if fast >= slow {
            Err(ConfigError::FastNotBelowSlow)
        } else {
            Ok(
                MacdEngine {
                    fast,
                    slow,
                    signal_period,
                    ema_fast: 0,
                    ema_slow: 0,
                    ema_signal: 0,
                    primed: false,
                },
            )
        }
    }

    /// One EMA update of a nonnegative price average.
    fn ema_update_price(prev: i64, x: i64, p: i64) -> (r: i64)
        requires
            1 <= p <= PERIOD_MAX,
            0 <= prev <= PRICE_MAX,
            0 <= x <= PRICE_MAX,
        ensures
            r == ema_step(prev as int, x as int, p as int),
            0 <= r <= PRICE_MAX,
    {
        proof {
            lemma_ema_step_bounds(prev as int, x as int, p as int, PRICE_MAX as int);
            lemma_ema_step_nonneg(prev as int, x as int, p as int);
            assert(0 <= prev as int * (p as int - 1) <= 10_000_000_000_000_000)
                by (nonlinear_arith)
                requires
                    0 <= prev as int <= 1_000_000_000_000,
                    1 <= p as int <= 10_000,
            ;
        }
        div_nonneg(prev * (p - 1) + 2 * x, p + 1)
    }

    /// Consume one price and report the MACD triple at that point.
    pub fn step(&mut self, price: i64) -> (r: MacdSample)
        requires
            old(self).wf(),
            0 <= price <= PRICE_MAX,
        ensures
            final(self).wf(),
            final(self).primed,
            final(self).fast == old(self).fast,
            final(self).slow == old(self).slow,
            final(self).signal_period == old(self).signal_period,
            !old(self).primed ==> final(self).state() == (MacdState {
                ema_fast: price as int,
                ema_slow: price as int,
                ema_signal: 0,
            }),
            old(self).primed ==> {
                let ef = ema_step(old(self).ema_fast as int, price as int, old(self).fast as int);
                let es = ema_step(old(self).ema_slow as int, price as int, old(self).slow as int);
                final(self).state() == (MacdState {
                    ema_fast: ef,
                    ema_slow: es,
                    ema_signal: ema_step(
                        old(self).ema_signal as int,
                        ef - es,
                        old(self).signal_period as int,
                    ),
                })
            },
            r.macd == final(self).ema_fast - final(self).ema_slow,
            r.signal == final(self).ema_signal,
            r.histogram == r.macd - r.signal,
            -PRICE_MAX <= r.macd <= PRICE_MAX,
            -PRICE_MAX <= r.signal <= PRICE_MAX,
            -2 * PRICE_MAX <= r.histogram <= 2 * PRICE_MAX,
    {
        if !self.primed {
            self.primed = true;
            self.ema_fast = price;
            self.ema_slow = price;
            self.ema_signal = 0;
        } else {
            let nf = Self::ema_update_price(self.ema_fast, price, self.fast);
            let ns = Self::ema_update_price(self.ema_slow, price, self.slow);
            self.ema_fast = nf;
            self.ema_slow = ns;
            let m: i64 = nf - ns;
            proof {
                lemma_ema_step_bounds(
                    self.ema_signal as int,
                    m as int,
                    self.signal_period as int,
                    PRICE_MAX as int,
                );
                assert(-10_000_000_000_000_000 <= self.ema_signal as int * (
                self.signal_period as int - 1) <= 10_000_000_000_000_000) by (nonlinear_arith)
                    requires
                        -1_000_000_000_000 <= self.ema_signal as int <= 1_000_000_000_000,
                        1 <= self.signal_period as int <= 10_000,
                ;
            }
            self.ema_signal = div_floor(
                self.ema_signal * (self.signal_period - 1) + 2 * m,
                self.signal_period + 1,
            );
        }
        let macd_now: i64 = self.ema_fast - self.ema_slow;
        MacdSample {
            macd: macd_now,
            signal: self.ema_signal,
            histogram: macd_now - self.ema_signal,
        }
    }
}

/// One derived record per quote, carrying its index explicitly.
#[derive(Clone, Copy, PartialEq, Eq, Structural, Debug)]
pub struct IndicatorSample {
    pub index: usize,
    pub rsi: i64,
    pub macd: i64,
    pub macd_signal: i64,
    pub macd_histogram: i64,
}

/// What the sample at index `i` of the output must be, for a given
/// price sequence and set of periods.
pub open spec fn sample_matches(
    s: IndicatorSample,
    prices: Seq<i64>,
    i: int,
    n: int,
    f: int,
    sl: int,
    sp: int,
) -> bool {
    &&& s.index == i
    &&& s.rsi == rsi_at(prices, n, i)
    &&& s.macd == macd_at(prices, f, sl, sp, i)
    &&& s.macd_signal == macd_signal_at(prices, f, sl, sp, i)
    &&& s.macd_histogram == s.macd - s.macd_signal
    &&& 0 <= s.rsi <= 100 * SCALE
    &&& -PRICE_MAX <= s.macd <= PRICE_MAX
    &&& -PRICE_MAX <= s.macd_signal <= PRICE_MAX
    &&& -2 * PRICE_MAX <= s.macd_histogram <= 2 * PRICE_MAX
}

/// The combined engine: one forward pass producing the RSI value and
/// the MACD triple for every closing price.
#[derive(Debug)]
pub struct IndicatorEngine {
    pub rsi: RsiEngine,
    pub macd: MacdEngine,
}

impl IndicatorEngine {
    /// Build both engines; any bad period is a configuration error.
    pub fn new(rsi_period: i64, fast: i64, slow: i64, signal_period: i64) -> (r: Result<
        IndicatorEngine,
        ConfigError,
    >)
        requires
            rsi_period <= PERIOD_MAX,
            slow <= PERIOD_MAX,
            signal_period <= PERIOD_MAX,
        ensures
            r is Ok <==> rsi_period >= 1 && fast >= 1 && slow >= 1 && signal_period >= 1 && fast
                < slow,
            !(rsi_period >= 1 && fast >= 1 && slow >= 1 && signal_period >= 1) ==> r == Result::<
                IndicatorEngine,
                ConfigError,
            >::Err(ConfigError::NonPositivePeriod),
            rsi_period >= 1 && fast >= 1 && slow >= 1 && signal_period >= 1 && fast >= slow ==> r
                == Result::<IndicatorEngine, ConfigError>::Err(ConfigError::FastNotBelowSlow),
            r is Ok ==> r->Ok_0.rsi.wf() && r->Ok_0.rsi.fresh() && r->Ok_0.rsi.period == rsi_period
                && r->Ok_0.macd.wf() && r->Ok_0.macd.fresh() && r->Ok_0.macd.fast == fast
                && r->Ok_0.macd.slow == slow && r->Ok_0.macd.signal_period == signal_period,
    {
        if rsi_period < 1 {
            return Err(ConfigError::NonPositivePeriod);
        }
        let rsi = match RsiEngine::new(rsi_period) {
            Ok(e) => e,
            Err(e) => { return Err(e); },
        };
        let macd = match MacdEngine::new(fast, slow, signal_period) {
            Ok(e) => e,
            Err(e) => { return Err(e); },
        };
        Ok(IndicatorEngine { rsi, macd })
    }

    /// Consume the whole price sequence once, producing one sample
    /// per price, aligned by index.  An empty input yields an empty
    /// output.
    pub fn compute(self, closes: &Vec<i64>) -> (r: Vec<IndicatorSample>)
        requires
            self.rsi.wf(),
            self.rsi.fresh(),
            self.macd.wf(),
            self.macd.fresh(),
            forall|i: int| 0 <= i < closes@.len() ==> 0 <= #[trigger] closes@[i] <= PRICE_MAX,
        ensures
            r@.len() == closes@.len(),
            forall|i: int|
                0 <= i < closes@.len() ==> sample_matches(
                    #[trigger] r@[i],
                    closes@,
                    i,
                    self.rsi.period as int,
                    self.macd.fast as int,
                    self.macd.slow as int,
                    self.macd.signal_period as int,
                ),
    {
        let ghost n_p: int = self.rsi.period as int;
        let ghost f_p: int = self.macd.fast as int;
        let ghost sl_p: int = self.macd.slow as int;
        let ghost sp_p: int = self.macd.signal_period as int;
        let IndicatorEngine { rsi: mut rsi_eng, macd: mut macd_eng } = self;
        let mut r: Vec<IndicatorSample> = Vec::new();
        let n = closes.len();
        let mut k: usize = 0;
        while k < n
            invariant
                n == closes@.len(),
                k <= n,
                r@.len() == k,
                forall|i: int| 0 <= i < closes@.len() ==> 0 <= #[trigger] closes@[i] <= PRICE_MAX,
                rsi_eng.wf(),
                rsi_eng.period == n_p,
                rsi_eng.primed <==> k >= 1,
                k >= 1 ==> rsi_eng.prev == closes@[k - 1],
                rsi_eng.state() == rsi_state(closes@.take(k as int), n_p),
                macd_eng.wf(),
                macd_eng.fast == f_p,
                macd_eng.slow == sl_p,
                macd_eng.signal_period == sp_p,
                macd_eng.primed <==> k >= 1,
                macd_eng.state() == macd_state(closes@.take(k as int), f_p, sl_p, sp_p),
                forall|i: int|
                    0 <= i < k ==> sample_matches(#[trigger] r@[i], closes@, i, n_p, f_p, sl_p, sp_p),
            decreases n - k,
        {
            let price = closes[k];
            let rv = rsi_eng.step(price);
            let ms = macd_eng.step(price);
            proof {
                let t = closes@.take(k + 1);
                assert(t.drop_last() =~= closes@.take(k as int));
                assert(t.last() == closes@[k as int]);
                if k >= 1 {
                    assert(t[k - 1] == closes@[k - 1]);
                }
                assert(rsi_eng.state() == rsi_state(t, n_p));
                assert(macd_eng.state() == macd_state(t, f_p, sl_p, sp_p));
            }
            r.push(
                IndicatorSample {
                    index: k,
                    rsi: rv,
                    macd: ms.macd,
                    macd_signal: ms.signal,
                    macd_histogram: ms.histogram,
                },
            );
            k += 1;
        }
        proof {
            assert(closes@.take(n as int) =~= closes@);
        }
        r
    }
}

/// Law: over monotonically non-decreasing prices the running average
/// loss stays zero, and the RSI stays at (scaled) 100 from the
/// warm-up sample on.
pub proof fn lemma_rsi_monotone(prices: Seq<i64>, n: int)
    requires
        n >= 1,
        forall|i: int| 1 <= i < prices.len() ==> prices[i - 1] <= #[trigger] prices[i],
    ensures
        prices.len() >= 1 ==> rsi_state(prices, n).avg_loss == 0,
        forall|i: int| 0 <= i < prices.len() ==> #[trigger] rsi_at(prices, n, i) == 100 * SCALE,
{
    if prices.len() >= 1 {
        lemma_rsi_state_monotone(prices, n);
    }
    assert forall|i: int| 0 <= i < prices.len() implies #[trigger] rsi_at(prices, n, i) == 100
        * SCALE by {
        let t = prices.take(i + 1);
        assert(forall|j: int| 1 <= j < t.len() ==> t[j - 1] <= #[trigger] t[j]);
        lemma_rsi_state_monotone(t, n);
    }
}

/// Helper induction for [`lemma_rsi_monotone`]: the final average
/// loss over a non-decreasing sequence is zero.
proof fn lemma_rsi_state_monotone(prices: Seq<i64>, n: int)
    requires
        n >= 1,
        prices.len() >= 1,
        forall|i: int| 1 <= i < prices.len() ==> prices[i - 1] <= #[trigger] prices[i],
    ensures
        rsi_state(prices, n).avg_loss == 0,
    decreases prices.len(),
{
    if prices.len() > 1 {
        let pre = prices.drop_last();
        assert(forall|i: int| 1 <= i < pre.len() ==> pre[i - 1] <= #[trigger] pre[i]);
        lemma_rsi_state_monotone(pre, n);
        assert(loss_of(prices[prices.len() - 2] as int, prices.last() as int) == 0);
        assert(0 * (n - 1) == 0) by (nonlinear_arith);
        lemma_div_of0(n);
    }
}

} // verus!

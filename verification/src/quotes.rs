//! The quote data model: one trading day and an ordered series of them.
//!
//! All prices are fixed-point: a real price `v` is stored as the
//! integer `v * SCALE`.  The series is indexed by position; the index
//! is the x-axis coordinate of every chart.

use vstd::prelude::*;
use crate::PRICE_MAX;

verus! {

/// One trading day: a timestamp in seconds since the Unix epoch and
/// the four fixed-point prices.  The usual ordering
/// `low <= open, close <= high` is *not* an invariant here: malformed
/// quotes are passed through unchanged.
#[derive(Clone, Copy, PartialEq, Eq, Structural, Debug)]
pub struct Quote {
    pub timestamp: i64,
    pub open: i64,
    pub high: i64,
    pub low: i64,
    pub close: i64,
}

impl Quote {
    /// The one bound the machine forces: every price fits in the
    /// fixed-point range, so the indicator arithmetic cannot overflow.
    pub open spec fn fits(self) -> bool {
        &&& 0 <= self.open <= PRICE_MAX
        &&& 0 <= self.high <= PRICE_MAX
        &&& 0 <= self.low <= PRICE_MAX
        &&& 0 <= self.close <= PRICE_MAX
    }
}

/// An ordered sequence of quotes, addressed purely by position.
pub struct QuoteSeries {
    pub quotes: Vec<Quote>,
}

impl View for QuoteSeries {
    type V = Seq<Quote>;

    open spec fn view(&self) -> Seq<Quote> {
        self.quotes@
    }
}

impl QuoteSeries {
    /// Every quote of the series is within the fixed-point range.
    pub open spec fn fits(self) -> bool {
        forall|i: int| 0 <= i < self@.len() ==> #[trigger] self@[i].fits()
    }

    pub fn new() -> (r: QuoteSeries)
        ensures
            r@ =~= Seq::<Quote>::empty(),
    {
        QuoteSeries { quotes: Vec::new() }
    }

    pub fn push(&mut self, q: Quote)
        ensures
            final(self)@ =~= old(self)@.push(q),
    {
        self.quotes.push(q);
    }

    pub fn len(&self) -> (r: usize)
        ensures
            r == self@.len(),
    {
        self.quotes.len()
    }

    pub fn get(&self, i: usize) -> (r: Quote)
        requires
            i < self@.len(),
        ensures
            r == self@[i as int],
    {
        self.quotes[i]
    }

    /// The closing prices, one per quote, in order.
    pub fn closes(&self) -> (r: Vec<i64>)
        ensures
            r@.len() == self@.len(),
            forall|i: int| 0 <= i < self@.len() ==> r@[i] == #[trigger] self@[i].close,
    {
        let mut r: Vec<i64> = Vec::new();
        let n = self.quotes.len();
        let mut k: usize = 0;
        while k < n
            invariant
                n == self@.len(),
                k <= n,
                r@.len() == k,
                forall|i: int| 0 <= i < k ==> r@[i] == #[trigger] self@[i].close,
            decreases n - k,
        {
            r.push(self.quotes[k].close);
            k += 1;
        }
        r
    }
}

} // verus!

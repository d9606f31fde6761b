//! The match predicate: does a trade fall inside a spread?

use crate::data::TradeRecord;
use crate::price::Price;
use vstd::prelude::*;

verus! {

/// The most recently observed ask and bid.
#[derive(Clone, Copy, Debug, PartialEq, Eq)]
pub struct Spread {
    pub ask: Price,
    pub bid: Price,
}

impl Spread {
    /// A spread has been observed: the ask is above zero. The spread that an
    /// engine starts with has a negative ask, so no trade matches before the
    /// first quote is applied.
    pub open spec fn is_set(self) -> bool {
        self.ask.is_positive()
    }

    /// The price lies in the open interval from the bid to the ask.
    pub open spec fn holds(self, price: Price) -> bool {
        self.bid.lt(price) && price.lt(self.ask)
    }

    /// The spread before any quote: ask and bid are minus one.
    pub fn unset() -> (s: Spread)
        ensures
            s == Spread::unset_spec(),
            !s.is_set(),
    {
        Spread { ask: Price::minus_one(), bid: Price::minus_one() }
    }

    /// The spread before any quote.
    pub open spec fn unset_spec() -> Spread {
        Spread {
            ask: Price { bits: crate::price::MINUS_ONE_BITS },
            bid: Price { bits: crate::price::MINUS_ONE_BITS },
        }
    }

    /// Whether a spread has been observed.
    pub fn observed(&self) -> (r: bool)
        ensures
            r == self.is_set(),
    {
        self.ask.above_zero()
    }
}

/// Decides whether a `second` goes with a `first`.
pub trait Matcher<T, U> {
    /// What `is_matched` decides.
    spec fn matches(&self, first: &T, second: &U) -> bool;

    fn is_matched(&self, first: &T, second: &U) -> (r: bool)
        ensures
            r == self.matches(first, second),
    ;
}

/// Matches a trade with a spread where the trade's price lies strictly
/// inside it.
#[derive(Default, Clone, Copy, Debug)]
pub struct QuoteToTradeMatcher;

impl Matcher<Spread, TradeRecord> for QuoteToTradeMatcher {
    /// The price is above the bid and below the ask; a price equal to
    /// either is outside.
    open spec fn matches(&self, first: &Spread, second: &TradeRecord) -> bool {
        first.holds(second.price)
    }

    fn is_matched(&self, first: &Spread, second: &TradeRecord) -> (r: bool) {
        second.price.less_than(&first.ask) && first.bid.less_than(&second.price)
    }
}

/// A spread is an open interval: the ask and the bid themselves lie outside
/// it, a price that is no number lies outside it, and a spread whose bid is
/// not below its ask holds no price at all.
pub proof fn law_spread_is_open(spread: Spread, price: Price)
    ensures
        !spread.holds(spread.ask),
        !spread.holds(spread.bid),
        price.is_nan() ==> !spread.holds(price),
        !spread.bid.lt(spread.ask) ==> !spread.holds(price),
        spread.holds(price) <==> QuoteToTradeMatcher.matches(
            &spread,
            &TradeRecord { timestamp: 0, price },
        ),
{
}

} // verus!

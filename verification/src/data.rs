//! The record converter: one comma-separated line of a quote or trade log,
//! taken apart by configured column offsets.
//!
//! Turning a line into a record has two stages. The first, `convert`, cuts
//! the line into columns, decodes the timestamp in column 0, and picks out
//! the price columns as text, which must write a price. It decides whether
//! the line is corrupt. The value of a price text is a floating-point
//! number, which the caller reads; the second stage, `priced`, puts what was
//! read into the record.

use crate::price::{is_price_text, price_text_in, Price};
use crate::text::{chars_of, split, split_range, Span};
use crate::timestamp::{millis_in, millis_of, representable};
use vstd::prelude::*;
use vstd::string::StrSliceExecFns;

verus! {

/// A quote: the ask and bid prices in effect from `timestamp` on.
#[derive(Clone, Copy, Debug, PartialEq, Eq)]
pub struct QuoteRecord {
    pub timestamp: usize,
    pub ask: Price,
    pub bid: Price,
}

/// A trade: an execution at `price` at `timestamp`.
#[derive(Clone, Copy, Debug, PartialEq, Eq)]
pub struct TradeRecord {
    pub timestamp: usize,
    pub price: Price,
}

/// A quote line taken apart: the timestamp decoded, the two prices as the
/// line wrote them. What `convert` hands out holds two texts that write a
/// price.
#[derive(Clone, Debug, PartialEq, Eq)]
pub struct RawQuote {
    pub timestamp: usize,
    pub ask: String,
    pub bid: String,
}

/// A trade line taken apart: the timestamp decoded, the price as the line
/// wrote it. What `convert` hands out holds a text that writes a price.
#[derive(Clone, Debug, PartialEq, Eq)]
pub struct RawTrade {
    pub timestamp: usize,
    pub price: String,
}

/// What a `RawQuote` holds, as mathematics.
pub struct RawQuoteView {
    pub timestamp: usize,
    pub ask: Seq<char>,
    pub bid: Seq<char>,
}

/// What a `RawTrade` holds, as mathematics.
pub struct RawTradeView {
    pub timestamp: usize,
    pub price: Seq<char>,
}

impl View for RawQuote {
    type V = RawQuoteView;

    open spec fn view(&self) -> RawQuoteView {
        RawQuoteView { timestamp: self.timestamp, ask: self.ask@, bid: self.bid@ }
    }
}

impl View for RawTrade {
    type V = RawTradeView;

    open spec fn view(&self) -> RawTradeView {
        RawTradeView { timestamp: self.timestamp, price: self.price@ }
    }
}

/// Turns one line of text into a record, or reports by `None` that the line
/// is corrupt.
pub trait Converter<T> {
    fn convert(&self, from: String) -> Option<T>;
}

/// The columns of a quote line that hold the ask and the bid price.
#[derive(Clone, Copy, Debug, PartialEq, Eq)]
pub struct QuoteInfo {
    pub ask_offset: usize,
    pub bid_offset: usize,
}

/// The column of a trade line that holds the price.
#[derive(Clone, Copy, Debug, PartialEq, Eq)]
pub struct TradeInfo {
    pub price_offset: usize,
}

impl QuoteInfo {
    /// What a quote line holds. The line is cut at every comma; it must have
    /// a column at both offsets, each of the two must write a price, and
    /// column 0 must be a timestamp that the machine can hold. Every other
    /// line is corrupt.
    pub open spec fn taken_apart(self, line: Seq<char>) -> Option<RawQuoteView> {
        let columns = split(line, ',');
        if columns.len() <= self.ask_offset || columns.len() <= self.bid_offset {
            None
        } else if !is_price_text(columns[self.ask_offset as int]) || !is_price_text(
            columns[self.bid_offset as int],
        ) {
            None
        } else {
            match representable(millis_of(columns[0])) {
                Some(timestamp) => Some(
                    RawQuoteView {
                        timestamp,
                        ask: columns[self.ask_offset as int],
                        bid: columns[self.bid_offset as int],
                    },
                ),
                None => None,
            }
        }
    }
}

impl TradeInfo {
    /// What a trade line holds. The line is cut at every comma; it must have
    /// a column at the price offset, that column must write a price, and
    /// column 0 must be a timestamp that the machine can hold. Every other
    /// line is corrupt.
    pub open spec fn taken_apart(self, line: Seq<char>) -> Option<RawTradeView> {
        let columns = split(line, ',');
        if columns.len() <= self.price_offset {
            None
        } else if !is_price_text(columns[self.price_offset as int]) {
            None
        } else {
            match representable(millis_of(columns[0])) {
                Some(timestamp) => Some(
                    RawTradeView { timestamp, price: columns[self.price_offset as int] },
                ),
                None => None,
            }
        }
    }
}

/// The text that `span` covers in `line`, as a string of its own.
fn column_text(line: &str, span: Span) -> (text: String)
    requires
        span.within(0, line@.len() as int),
    ensures
        text@ == span.of(line@),
{
    line.substring_char(span.start, span.end).to_owned()
}

impl Converter<RawQuote> for QuoteInfo {
    /// Takes a quote line apart. The result is `None` exactly for a corrupt
    /// line: one with fewer columns than either offset asks for, one whose
    /// ask or bid column writes no price, or one whose column 0 is no
    /// timestamp.
    fn convert(&self, from: String) -> (r: Option<RawQuote>)
        ensures
            match r {
                Some(raw) => self.taken_apart(from@) == Some(raw@),
                None => self.taken_apart(from@) is None,
            },
            split(from@, ',').len() < vstd::math::max(self.ask_offset as int, self.bid_offset as int)
                + 1 ==> r is None,
    {
        let line: &str = from.as_str();
        let s: Vec<char> = chars_of(line);
        let columns: Vec<Span> = split_range(&s, 0, s.len(), ',');
        assert(s@.subrange(0, s@.len() as int) == from@);
        if columns.len() <= self.ask_offset || columns.len() <= self.bid_offset {
            return None;
        }
        if !price_text_in(&s, columns[self.ask_offset]) || !price_text_in(
            &s,
            columns[self.bid_offset],
        ) {
            return None;
        }
        let timestamp: usize = match millis_in(&s, columns[0]) {
            Some(t) => t,
            None => { return None; },
        };
        let ask: String = column_text(line, columns[self.ask_offset]);
        let bid: String = column_text(line, columns[self.bid_offset]);
        Some(RawQuote { timestamp, ask, bid })
    }
}

impl Converter<RawTrade> for TradeInfo {
    /// Takes a trade line apart. The result is `None` exactly for a corrupt
    /// line: one with fewer columns than the price offset asks for, one whose
    /// price column writes no price, or one whose column 0 is no timestamp.
    fn convert(&self, from: String) -> (r: Option<RawTrade>)
        ensures
            match r {
                Some(raw) => self.taken_apart(from@) == Some(raw@),
                None => self.taken_apart(from@) is None,
            },
            split(from@, ',').len() < self.price_offset + 1 ==> r is None,
    {
        let line: &str = from.as_str();
        let s: Vec<char> = chars_of(line);
        let columns: Vec<Span> = split_range(&s, 0, s.len(), ',');
        assert(s@.subrange(0, s@.len() as int) == from@);
        if columns.len() <= self.price_offset {
            return None;
        }
        if !price_text_in(&s, columns[self.price_offset]) {
            return None;
        }
        let timestamp: usize = match millis_in(&s, columns[0]) {
            Some(t) => t,
            None => { return None; },
        };
        let price: String = column_text(line, columns[self.price_offset]);
        Some(RawTrade { timestamp, price })
    }
}

impl RawQuote {
    /// The quote record, once both price texts have been read: `ask` and
    /// `bid` are what reading them gave, `None` for a text that could not be
    /// read. A line with such a text is corrupt.
    pub fn priced(&self, ask: Option<Price>, bid: Option<Price>) -> (r: Option<QuoteRecord>)
        ensures
            r == match (ask, bid) {
                (Some(a), Some(b)) => Some(QuoteRecord { timestamp: self.timestamp, ask: a, bid: b }),
                _ => None,
            },
    {
        match (ask, bid) {
            (Some(a), Some(b)) => Some(QuoteRecord { timestamp: self.timestamp, ask: a, bid: b }),
            _ => None,
        }
    }
}

impl RawTrade {
    /// The trade record, once the price text has been read: `price` is what
    /// reading it gave, `None` for a text that could not be read. A line
    /// with such a text is corrupt.
    pub fn priced(&self, price: Option<Price>) -> (r: Option<TradeRecord>)
        ensures
            r == match price {
                Some(p) => Some(TradeRecord { timestamp: self.timestamp, price: p }),
                None => None,
            },
    {
        match price {
            Some(p) => Some(TradeRecord { timestamp: self.timestamp, price: p }),
            None => None,
        }
    }
}

/// 1 where `price` lies strictly between `bid` and `ask`, 0 elsewhere.
pub fn process_price(price: Price, ask: Price, bid: Price) -> (r: usize)
    ensures
        r == if bid.lt(price) && price.lt(ask) {
            1usize
        } else {
            0usize
        },
{
    if bid.less_than(&price) && price.less_than(&ask) {
        1
    } else {
        0
    }
}

} // verus!

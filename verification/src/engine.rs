//! The spread-join engine: a state machine that walks a quote stream and a
//! trade stream in timestamp order, keeps the spread in effect, and counts
//! the trades that fall strictly inside it.
//!
//! One iteration pulls what the current command asks for, and stops the run
//! where a pull yields nothing. Otherwise it takes the join step on the
//! latest quote and the latest trade. A trade older than the quote is judged
//! against the spread in effect before that quote, and a trade is pulled
//! next. In every other case, a tie included, the quote takes effect, and a
//! quote is pulled next.

use crate::data::{QuoteRecord, TradeRecord};
use crate::matcher::{Matcher, Spread};
use crate::price::{Price, MINUS_ONE_BITS};
use vstd::prelude::*;

verus! {

/// What the engine pulls in its next iteration.
#[derive(Clone, Copy, Debug, PartialEq, Eq)]
pub enum Command {
    /// A quote and a trade: the state of a fresh engine.
    GetBoth,
    /// A quote.
    GetQuote,
    /// A trade.
    GetTrade,
}

impl Command {
    /// The next iteration pulls a quote.
    pub open spec fn wants_quote(self) -> bool {
        self is GetBoth || self is GetQuote
    }

    /// The next iteration pulls a trade.
    pub open spec fn wants_trade(self) -> bool {
        self is GetBoth || self is GetTrade
    }
}

/// The spread that a quote puts into effect.
pub open spec fn spread_of(quote: QuoteRecord) -> Spread {
    Spread { ask: quote.ask, bid: quote.bid }
}

/// The join step on the latest quote and the latest trade, under the spread
/// in effect: the spread in effect afterwards, the number of matches counted
/// (0 or 1), and what to pull next.
///
/// `check` is false for the first pair of a run, which primes the engine and
/// is never counted.
pub open spec fn join<M: Matcher<Spread, TradeRecord>>(
    m: &M,
    spread: Spread,
    quote: QuoteRecord,
    trade: TradeRecord,
    check: bool,
) -> (Spread, nat, Command) {
    if trade.timestamp < quote.timestamp {
        (
            spread,
            if check && spread.is_set() && m.matches(&spread, &trade) {
                1nat
            } else {
                0nat
            },
            Command::GetTrade,
        )
    } else {
        (spread_of(quote), 0nat, Command::GetQuote)
    }
}

/// Puts a quote into effect. A quote is pulled next.
pub fn apply_new_quote(last_ask_bid: &mut Spread, last_quote: &QuoteRecord) -> (next: Command)
    ensures
        *final(last_ask_bid) == spread_of(*last_quote),
        next == Command::GetQuote,
{
    *last_ask_bid = Spread { ask: last_quote.ask, bid: last_quote.bid };
    Command::GetQuote
}

/// Judges a trade against the spread in effect: 1 where the check is
/// enabled, a spread has been observed and the matcher accepts the pair, 0
/// elsewhere. A trade is pulled next.
pub fn process_trade<M: Matcher<Spread, TradeRecord>>(
    last_ask_bid: Spread,
    last_trade: TradeRecord,
    qtm: &M,
    check_spread_condition: bool,
) -> (r: (usize, Command))
    ensures
        r.0 == if check_spread_condition && last_ask_bid.is_set() && qtm.matches(
            &last_ask_bid,
            &last_trade,
        ) {
            1usize
        } else {
            0usize
        },
        r.1 == Command::GetTrade,
{
    if check_spread_condition && last_ask_bid.observed() {
        if qtm.is_matched(&last_ask_bid, &last_trade) {
            (1, Command::GetTrade)
        } else {
            (0, Command::GetTrade)
        }
    } else {
        (0, Command::GetTrade)
    }
}

/// The join step. A trade older than the quote is judged against the spread
/// in effect, which stays; otherwise the quote takes effect and nothing is
/// counted.
pub fn apply_logic<M: Matcher<Spread, TradeRecord>>(
    last_ask_bid: &mut Spread,
    last_quote: &QuoteRecord,
    last_trade: TradeRecord,
    qtm: &M,
    check_spread_condition: bool,
) -> (r: (usize, Command))
    ensures
        (*final(last_ask_bid), r.0 as nat, r.1) == join(
            qtm,
            *old(last_ask_bid),
            *last_quote,
            last_trade,
            check_spread_condition,
        ),
{
    if last_trade.timestamp < last_quote.timestamp {
        process_trade(*last_ask_bid, last_trade, qtm, check_spread_condition)
    } else {
        (0, apply_new_quote(last_ask_bid, last_quote))
    }
}

/// The state of a run between two iterations.
#[derive(Clone, Copy, Debug, PartialEq, Eq)]
pub struct Engine {
    /// What the next iteration pulls.
    pub command: Command,
    /// The latest quote pulled.
    pub last_quote: QuoteRecord,
    /// The latest trade pulled.
    pub last_trade: TradeRecord,
    /// The spread in effect.
    pub last_ask_bid: Spread,
    /// The trades counted so far.
    pub count: usize,
}

/// The state of a run as mathematics: the counter is unbounded.
pub struct EngineView {
    pub command: Command,
    pub last_quote: QuoteRecord,
    pub last_trade: TradeRecord,
    pub spread: Spread,
    pub count: nat,
}

impl View for Engine {
    type V = EngineView;

    open spec fn view(&self) -> EngineView {
        EngineView {
            command: self.command,
            last_quote: self.last_quote,
            last_trade: self.last_trade,
            spread: self.last_ask_bid,
            count: self.count as nat,
        }
    }
}

/// What pulling from a stream yields: its first element, and nothing from an
/// exhausted stream. An element that is `None` stands for a corrupt line.
pub open spec fn pulled<T>(stream: Seq<Option<T>>) -> Option<T> {
    if stream.len() > 0 {
        stream[0]
    } else {
        None
    }
}

/// What is left of a stream after an iteration: all but its first element
/// where the iteration pulled from it, and all of it elsewhere.
pub open spec fn rest_after<T>(wanted: bool, stream: Seq<Option<T>>) -> Seq<Option<T>> {
    if wanted {
        stream.skip(1)
    } else {
        stream
    }
}

impl EngineView {
    /// The state before the first iteration: both records are to be pulled,
    /// nothing is counted, and no spread has been observed.
    pub open spec fn initial() -> EngineView {
        let unseen = Price { bits: MINUS_ONE_BITS };
        EngineView {
            command: Command::GetBoth,
            last_quote: QuoteRecord { timestamp: 0, ask: unseen, bid: unseen },
            last_trade: TradeRecord { timestamp: 0, price: unseen },
            spread: Spread::unset_spec(),
            count: 0,
        }
    }

    /// The state after the join step on `quote` and `trade`.
    pub open spec fn joined<M: Matcher<Spread, TradeRecord>>(
        self,
        m: &M,
        quote: QuoteRecord,
        trade: TradeRecord,
        check: bool,
    ) -> EngineView {
        let (spread, matched, command) = join(m, self.spread, quote, trade, check);
        EngineView {
            command,
            last_quote: quote,
            last_trade: trade,
            spread,
            count: self.count + matched,
        }
    }

    /// One iteration. `quote` and `trade` are what the pulls yielded, `None`
    /// for an exhausted stream or a corrupt line; the one that the command
    /// does not ask for is not looked at. The result is `None` where the run
    /// stops: a pull that the command asks for yielded nothing.
    pub open spec fn step<M: Matcher<Spread, TradeRecord>>(
        self,
        m: &M,
        quote: Option<QuoteRecord>,
        trade: Option<TradeRecord>,
    ) -> Option<EngineView> {
        match self.command {
            Command::GetBoth => match (quote, trade) {
                (Some(q), Some(t)) => Some(self.joined(m, q, t, false)),
                _ => None,
            },
            Command::GetTrade => match trade {
                Some(t) => Some(self.joined(m, self.last_quote, t, true)),
                None => None,
            },
            Command::GetQuote => match quote {
                Some(q) => Some(self.joined(m, q, self.last_trade, true)),
                None => None,
            },
        }
    }

    /// The state in which a run from this state stops, over what is left of
    /// the two streams.
    pub open spec fn run<M: Matcher<Spread, TradeRecord>>(
        self,
        m: &M,
        quotes: Seq<Option<QuoteRecord>>,
        trades: Seq<Option<TradeRecord>>,
    ) -> EngineView
        decreases quotes.len() + trades.len(),
    {
        let quote = if self.command.wants_quote() {
            pulled(quotes)
        } else {
            None
        };
        let trade = if self.command.wants_trade() {
            pulled(trades)
        } else {
            None
        };
        match self.step(m, quote, trade) {
            None => self,
            Some(next) => next.run(
                m,
                rest_after(self.command.wants_quote(), quotes),
                rest_after(self.command.wants_trade(), trades),
            ),
        }
    }
}

impl Engine {
    /// An engine before its first iteration.
    pub fn new() -> (e: Engine)
        ensures
            e@ == EngineView::initial(),
    {
        Engine {
            command: Command::GetBoth,
            last_quote: QuoteRecord { timestamp: 0, ask: Price::minus_one(), bid: Price::minus_one() },
            last_trade: TradeRecord { timestamp: 0, price: Price::minus_one() },
            last_ask_bid: Spread::unset(),
            count: 0,
        }
    }

    /// Whether the next iteration pulls a quote.
    pub fn needs_quote(&self) -> (r: bool)
        ensures
            r == self.command.wants_quote(),
    {
        match self.command {
            Command::GetBoth => true,
            Command::GetQuote => true,
            Command::GetTrade => false,
        }
    }

    /// Whether the next iteration pulls a trade.
    pub fn needs_trade(&self) -> (r: bool)
        ensures
            r == self.command.wants_trade(),
    {
        match self.command {
            Command::GetBoth => true,
            Command::GetQuote => false,
            Command::GetTrade => true,
        }
    }

    /// One iteration, given what the pulls yielded. Returns whether the run
    /// goes on; where it stops, the engine is left as it was. The counter
    /// must have room for one more trade.
    pub fn advance<M: Matcher<Spread, TradeRecord>>(
        &mut self,
        quote: Option<QuoteRecord>,
        trade: Option<TradeRecord>,
        matcher: &M,
    ) -> (go: bool)
        requires
            old(self).count < usize::MAX,
        ensures
            match old(self)@.step(matcher, quote, trade) {
                Some(next) => go && final(self)@ == next,
                None => !go && *final(self) == *old(self),
            },
    {
        let mut check_spread_condition: bool = true;
        match self.command {
            Command::GetBoth => {
                match (quote, trade) {
                    (Some(q), Some(t)) => {
                        self.last_quote = q;
                        self.last_trade = t;
                    },
                    _ => { return false; },
                }
                check_spread_condition = false;
            },
            Command::GetTrade => {
                match trade {
                    Some(t) => { self.last_trade = t; },
                    None => { return false; },
                }
            },
            Command::GetQuote => {
                match quote {
                    Some(q) => { self.last_quote = q; },
                    None => { return false; },
                }
            },
        }
        let mut spread: Spread = self.last_ask_bid;
        let (incr, new_cmd) = apply_logic(
            &mut spread,
            &self.last_quote,
            self.last_trade,
            matcher,
            check_spread_condition,
        );
        self.last_ask_bid = spread;
        self.count = self.count + incr;
        self.command = new_cmd;
        true
    }
}

/// Runs the join over two streams held in memory and returns the number of
/// trades counted. Element `i` of a stream is what the pull number `i` from
/// it yields: a record, or `None` for a corrupt line. The run stops at the
/// first pull that yields nothing. On streams in timestamp order without a
/// corrupt line, what is counted is the causal join of the two streams.
pub fn trades_within_spread<M: Matcher<Spread, TradeRecord>>(
    quotes: &Vec<Option<QuoteRecord>>,
    trades: &Vec<Option<TradeRecord>>,
    matcher: &M,
) -> (count: usize)
    ensures
        count == EngineView::initial().run(matcher, quotes@, trades@).count,
{
    let mut engine: Engine = Engine::new();
    let mut qi: usize = 0;
    let mut ti: usize = 0;
    assert(quotes@.skip(0) == quotes@ && trades@.skip(0) == trades@);
    loop
        invariant_except_break
            qi <= quotes.len(),
            ti <= trades.len(),
            engine.count + (if engine.command is GetQuote {
                1int
            } else {
                0int
            }) <= ti,
            EngineView::initial().run(matcher, quotes@, trades@) == engine@.run(
                matcher,
                quotes@.skip(qi as int),
                trades@.skip(ti as int),
            ),
        ensures
            EngineView::initial().run(matcher, quotes@, trades@) == engine@,
        decreases (quotes.len() - qi) + (trades.len() - ti),
    {
        let pulls_quote: bool = engine.needs_quote();
        let pulls_trade: bool = engine.needs_trade();
        let mut quote: Option<QuoteRecord> = None;
        let mut trade: Option<TradeRecord> = None;
        if pulls_quote {
            if qi >= quotes.len() {
                break ;
            }
            quote = quotes[qi];
        }
        if pulls_trade {
            if ti >= trades.len() {
                break ;
            }
            trade = trades[ti];
        }
        if !engine.advance(quote, trade, matcher) {
            break ;
        }
        if pulls_quote {
            assert(quotes@.skip(qi as int).skip(1) == quotes@.skip(qi + 1));
            qi = qi + 1;
        }
        if pulls_trade {
            assert(trades@.skip(ti as int).skip(1) == trades@.skip(ti + 1));
            ti = ti + 1;
        }
    }
    engine.count
}

/// A run over an empty trade stream counts nothing, whatever the quote
/// stream holds.
pub proof fn law_no_trades_no_matches<M: Matcher<Spread, TradeRecord>>(
    m: &M,
    quotes: Seq<Option<QuoteRecord>>,
)
    ensures
        EngineView::initial().run(m, quotes, Seq::empty()).count == 0,
{
}

/// The counter never goes down: neither in one iteration nor over a run.
pub proof fn law_count_only_grows<M: Matcher<Spread, TradeRecord>>(
    e: EngineView,
    m: &M,
    quotes: Seq<Option<QuoteRecord>>,
    trades: Seq<Option<TradeRecord>>,
)
    ensures
        e.step(m, pulled(quotes), pulled(trades)) matches Some(next) ==> e.count <= next.count
            <= e.count + 1,
        e.count <= e.run(m, quotes, trades).count,
    decreases quotes.len() + trades.len(),
{
    let quote = if e.command.wants_quote() {
        pulled(quotes)
    } else {
        None
    };
    let trade = if e.command.wants_trade() {
        pulled(trades)
    } else {
        None
    };
    match e.step(m, quote, trade) {
        None => {},
        Some(next) => {
            law_count_only_grows(
                next,
                m,
                rest_after(e.command.wants_quote(), quotes),
                rest_after(e.command.wants_trade(), trades),
            );
        },
    }
}

/// A run counts each trade at most once: from a fresh engine the count is
/// at most the number of trades; from any state it is at most the count so
/// far plus the trades still to come, and one more where a trade is pending.
pub proof fn law_at_most_one_match_per_trade<M: Matcher<Spread, TradeRecord>>(
    e: EngineView,
    m: &M,
    quotes: Seq<Option<QuoteRecord>>,
    trades: Seq<Option<TradeRecord>>,
)
    ensures
        e.run(m, quotes, trades).count <= e.count + trades.len() + (if e.command is GetQuote {
            1int
        } else {
            0int
        }),
        EngineView::initial().run(m, quotes, trades).count <= trades.len(),
    decreases quotes.len() + trades.len(),
{
    let quote = if e.command.wants_quote() {
        pulled(quotes)
    } else {
        None
    };
    let trade = if e.command.wants_trade() {
        pulled(trades)
    } else {
        None
    };
    match e.step(m, quote, trade) {
        None => {},
        Some(next) => {
            law_at_most_one_match_per_trade(
                next,
                m,
                rest_after(e.command.wants_quote(), quotes),
                rest_after(e.command.wants_trade(), trades),
            );
        },
    }
    let fresh = EngineView::initial();
    let first = fresh.step(m, pulled(quotes), pulled(trades));
    if first is Some {
        law_at_most_one_match_per_trade(first->0, m, quotes.skip(1), trades.skip(1));
    }
}

/// A quote and a trade with the same timestamp: the quote is applied first.
/// Whatever the engine was waiting for, the step that brings the two
/// together puts the quote's spread into effect, counts nothing and asks for
/// a quote. When a later quote then arrives, the trade is judged against the
/// spread of the quote that it tied with, not against the spread before it.
pub proof fn law_tie_applies_quote_first<M: Matcher<Spread, TradeRecord>>(
    e: EngineView,
    m: &M,
    quote: QuoteRecord,
    trade: TradeRecord,
    later: QuoteRecord,
)
    requires
        quote.timestamp == trade.timestamp,
        trade.timestamp < later.timestamp,
        e.command is GetQuote ==> e.last_trade == trade,
        e.command is GetTrade ==> e.last_quote == quote,
    ensures
        e.step(m, Some(quote), Some(trade)) matches Some(tied) && {
            &&& tied.spread == spread_of(quote)
            &&& tied.command == Command::GetQuote
            &&& tied.count == e.count
            &&& tied.step(m, Some(later), None) matches Some(judged) && {
                &&& judged.spread == spread_of(quote)
                &&& judged.count == e.count + (if spread_of(quote).is_set() && m.matches(
                    &spread_of(quote),
                    &trade,
                ) {
                    1int
                } else {
                    0int
                })
            }
        },
{
}

/// The count of a run is a function of the two streams: a second run over
/// the same records gives the same count as the first.
pub proof fn law_rerun_gives_same_count<M: Matcher<Spread, TradeRecord>>(
    m: &M,
    quotes: Seq<Option<QuoteRecord>>,
    trades: Seq<Option<TradeRecord>>,
    quotes_again: Seq<Option<QuoteRecord>>,
    trades_again: Seq<Option<TradeRecord>>,
)
    requires
        quotes_again.len() == quotes.len(),
        trades_again.len() == trades.len(),
        forall|i: int| 0 <= i < quotes.len() ==> quotes_again[i] == quotes[i],
        forall|i: int| 0 <= i < trades.len() ==> trades_again[i] == trades[i],
    ensures
        EngineView::initial().run(m, quotes_again, trades_again).count == EngineView::initial().run(
            m,
            quotes,
            trades,
        ).count,
{
    assert(quotes_again =~= quotes);
    assert(trades_again =~= trades);
}

} // verus!

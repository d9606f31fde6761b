//! What the engine computes on well-formed input: the causal join.
//!
//! On two streams that are in timestamp order and hold no corrupt line, a
//! run counts exactly the trades that lie inside the spread in effect at
//! their timestamp, as far as the quote stream reaches beyond them.

use crate::data::{QuoteRecord, TradeRecord};
use crate::engine::{spread_of, Command, EngineView, pulled, rest_after};
use crate::matcher::{Matcher, Spread};
use vstd::prelude::*;

verus! {

/// The timestamps of the quotes never go down along the stream.
pub open spec fn quotes_in_order(quotes: Seq<QuoteRecord>) -> bool {
    forall|i: int, j: int|
        0 <= i <= j < quotes.len() ==> quotes[i].timestamp <= quotes[j].timestamp
}

/// The timestamps of the trades never go down along the stream.
pub open spec fn trades_in_order(trades: Seq<TradeRecord>) -> bool {
    forall|i: int, j: int|
        0 <= i <= j < trades.len() ==> trades[i].timestamp <= trades[j].timestamp
}

/// The spread in effect at `time`: that of the last quote of the stream
/// whose timestamp is not after `time`, and none before the first such
/// quote.
pub open spec fn spread_at(quotes: Seq<QuoteRecord>, time: int) -> Option<Spread>
    decreases quotes.len(),
{
    if quotes.len() == 0 {
        None
    } else if quotes.last().timestamp <= time {
        Some(spread_of(quotes.last()))
    } else {
        spread_at(quotes.drop_last(), time)
    }
}

/// The quote stream reaches beyond `time`: its last quote is younger. Only
/// then is it known which spread was in effect at `time`.
pub open spec fn reaches_beyond(quotes: Seq<QuoteRecord>, time: int) -> bool {
    quotes.len() > 0 && time < quotes.last().timestamp
}

/// The trade lies inside the spread in effect at its timestamp: the quote
/// stream reaches beyond the trade, a spread has been observed by then, and
/// the matcher accepts the pair.
pub open spec fn inside_spread_in_effect<M: Matcher<Spread, TradeRecord>>(
    m: &M,
    quotes: Seq<QuoteRecord>,
    trade: TradeRecord,
) -> bool {
    reaches_beyond(quotes, trade.timestamp as int) && match spread_at(
        quotes,
        trade.timestamp as int,
    ) {
        Some(spread) => spread.is_set() && m.matches(&spread, &trade),
        None => false,
    }
}

/// The number of trades that lie inside the spread in effect at their
/// timestamp.
pub open spec fn causal_count<M: Matcher<Spread, TradeRecord>>(
    m: &M,
    quotes: Seq<QuoteRecord>,
    trades: Seq<TradeRecord>,
) -> nat
    decreases trades.len(),
{
    if trades.len() == 0 {
        0
    } else {
        (if inside_spread_in_effect(m, quotes, trades[0]) {
            1nat
        } else {
            0nat
        }) + causal_count(m, quotes, trades.drop_first())
    }
}

/// A stream of records without a corrupt line.
pub open spec fn intact<T>(records: Seq<T>) -> Seq<Option<T>> {
    Seq::new(records.len(), |i: int| Some(records[i]))
}

/// In an ordered stream, the spread in effect at `time` is that of quote
/// `k - 1` where quote `k - 1` is not after `time` and quote `k`, if there is
/// one, is; it is none where the first quote is after `time`.
proof fn lemma_spread_at(quotes: Seq<QuoteRecord>, time: int, k: int)
    requires
        quotes_in_order(quotes),
        0 <= k <= quotes.len(),
        k > 0 ==> quotes[k - 1].timestamp <= time,
        k < quotes.len() ==> time < quotes[k].timestamp,
    ensures
        spread_at(quotes, time) == if k > 0 {
            Some(spread_of(quotes[k - 1]))
        } else {
            None
        },
    decreases quotes.len(),
{
    if quotes.len() > 0 && k < quotes.len() {
        assert(quotes[k].timestamp <= quotes.last().timestamp);
        lemma_spread_at(quotes.drop_last(), time, k);
    }
}

/// Trades that the quote stream does not reach beyond are not counted.
proof fn lemma_nothing_beyond_the_quotes<M: Matcher<Spread, TradeRecord>>(
    m: &M,
    quotes: Seq<QuoteRecord>,
    trades: Seq<TradeRecord>,
)
    requires
        forall|j: int|
            0 <= j < trades.len() ==> !reaches_beyond(quotes, (#[trigger] trades[j]).timestamp as int),
    ensures
        causal_count(m, quotes, trades) == 0,
    decreases trades.len(),
{
    if trades.len() > 0 {
        let rest = trades.drop_first();
        assert forall|j: int| 0 <= j < rest.len() implies !reaches_beyond(
            quotes,
            (#[trigger] rest[j]).timestamp as int,
        ) by {
            assert(rest[j] == trades[j + 1]);
        }
        lemma_nothing_beyond_the_quotes(m, quotes, rest);
    }
}

/// The engine waits for a quote: `i` quotes and `j` trades are consumed,
/// quote `i - 1` is in effect, and trade `j - 1`, which is not older, is
/// pending.
spec fn awaits_quote(
    e: EngineView,
    quotes: Seq<QuoteRecord>,
    trades: Seq<TradeRecord>,
    i: int,
    j: int,
) -> bool {
    &&& 1 <= i <= quotes.len()
    &&& 1 <= j <= trades.len()
    &&& e.command == Command::GetQuote
    &&& e.last_trade == trades[j - 1]
    &&& e.spread == spread_of(quotes[i - 1])
    &&& quotes[i - 1].timestamp <= trades[j - 1].timestamp
}

/// The engine waits for a trade: `i` quotes and `j` trades are consumed,
/// quote `i - 1` is younger than trade `j - 1` and not in effect yet, and the
/// quote before it, if there is one, is in effect.
spec fn awaits_trade(
    e: EngineView,
    quotes: Seq<QuoteRecord>,
    trades: Seq<TradeRecord>,
    i: int,
    j: int,
) -> bool {
    &&& 1 <= i <= quotes.len()
    &&& 1 <= j <= trades.len()
    &&& e.command == Command::GetTrade
    &&& e.last_quote == quotes[i - 1]
    &&& trades[j - 1].timestamp < quotes[i - 1].timestamp
    &&& if i >= 2 {
        e.spread == spread_of(quotes[i - 2]) && quotes[i - 2].timestamp <= trades[j - 1].timestamp
    } else {
        e.spread == Spread::unset_spec()
    }
}

/// What is left of an intact stream after `i` pulls.
proof fn lemma_intact_skip<T>(records: Seq<T>, i: int)
    requires
        0 <= i <= records.len(),
    ensures
        pulled(intact(records).skip(i)) == if i < records.len() {
            Some(records[i])
        } else {
            None
        },
        i < records.len() ==> rest_after(true, intact(records).skip(i)) == intact(records).skip(
            i + 1,
        ),
        rest_after(false, intact(records).skip(i)) == intact(records).skip(i),
{
    if i < records.len() {
        assert(intact(records).skip(i).skip(1) == intact(records).skip(i + 1));
    }
}

/// From a state that waits for a quote, the rest of the run counts the
/// pending trade and the trades still to come as the causal join does.
proof fn lemma_run_awaiting_quote<M: Matcher<Spread, TradeRecord>>(
    e: EngineView,
    m: &M,
    quotes: Seq<QuoteRecord>,
    trades: Seq<TradeRecord>,
    i: int,
    j: int,
)
    requires
        quotes_in_order(quotes),
        trades_in_order(trades),
        awaits_quote(e, quotes, trades, i, j),
    ensures
        e.run(m, intact(quotes).skip(i), intact(trades).skip(j)).count == e.count + causal_count(
            m,
            quotes,
            trades.skip(j - 1),
        ),
    decreases (quotes.len() - i) + (trades.len() - j), 0nat,
{
    lemma_intact_skip(quotes, i);
    lemma_intact_skip(trades, j);
    let pending = trades[j - 1];
    let waiting = trades.skip(j - 1);
    if i == quotes.len() {
        assert forall|k: int| 0 <= k < waiting.len() implies !reaches_beyond(
            quotes,
            (#[trigger] waiting[k]).timestamp as int,
        ) by {
            assert(waiting[k] == trades[j - 1 + k]);
        }
        lemma_nothing_beyond_the_quotes(m, quotes, waiting);
    } else {
        let quote = quotes[i];
        let next = e.step(m, Some(quote), None)->0;
        assert(waiting[0] == pending);
        assert(waiting.drop_first() == trades.skip(j));
        if pending.timestamp < quote.timestamp {
            assert(quote.timestamp <= quotes.last().timestamp);
            lemma_spread_at(quotes, pending.timestamp as int, i);
            lemma_run_awaiting_trade(next, m, quotes, trades, i + 1, j);
        } else {
            lemma_run_awaiting_quote(next, m, quotes, trades, i + 1, j);
        }
    }
}

/// From a state that waits for a trade, the rest of the run counts the
/// trades still to come as the causal join does.
proof fn lemma_run_awaiting_trade<M: Matcher<Spread, TradeRecord>>(
    e: EngineView,
    m: &M,
    quotes: Seq<QuoteRecord>,
    trades: Seq<TradeRecord>,
    i: int,
    j: int,
)
    requires
        quotes_in_order(quotes),
        trades_in_order(trades),
        awaits_trade(e, quotes, trades, i, j),
    ensures
        e.run(m, intact(quotes).skip(i), intact(trades).skip(j)).count == e.count + causal_count(
            m,
            quotes,
            trades.skip(j),
        ),
    decreases (quotes.len() - i) + (trades.len() - j), 0nat,
{
    lemma_intact_skip(quotes, i);
    lemma_intact_skip(trades, j);
    let waiting = trades.skip(j);
    if j == trades.len() {
    } else {
        let trade = trades[j];
        let next = e.step(m, None, Some(trade))->0;
        assert(waiting[0] == trade);
        assert(waiting.drop_first() == trades.skip(j + 1));
        assert(trades.skip(j + 1 - 1) == waiting);
        if trade.timestamp < quotes[i - 1].timestamp {
            assert(quotes[i - 1].timestamp <= quotes.last().timestamp);
            lemma_spread_at(quotes, trade.timestamp as int, i - 1);
            lemma_run_awaiting_trade(next, m, quotes, trades, i, j + 1);
        } else {
            lemma_run_awaiting_quote(next, m, quotes, trades, i, j + 1);
        }
    }
}

/// On two streams in timestamp order without a corrupt line, a run computes
/// the causal join: it counts exactly the trades that the quote stream
/// reaches beyond and that lie inside the observed spread of the last quote
/// not younger than the trade.
pub proof fn law_run_is_causal_join<M: Matcher<Spread, TradeRecord>>(
    m: &M,
    quotes: Seq<QuoteRecord>,
    trades: Seq<TradeRecord>,
)
    requires
        quotes_in_order(quotes),
        trades_in_order(trades),
    ensures
        EngineView::initial().run(m, intact(quotes), intact(trades)).count == causal_count(
            m,
            quotes,
            trades,
        ),
{
    let fresh = EngineView::initial();
    lemma_intact_skip(quotes, 0);
    lemma_intact_skip(trades, 0);
    assert(intact(quotes).skip(0) == intact(quotes));
    assert(intact(trades).skip(0) == intact(trades));
    assert(trades.skip(0) == trades);
    if trades.len() == 0 {
    } else if quotes.len() == 0 {
        lemma_nothing_beyond_the_quotes(m, quotes, trades);
    } else {
        let next = fresh.step(m, Some(quotes[0]), Some(trades[0]))->0;
        if trades[0].timestamp < quotes[0].timestamp {
            lemma_spread_at(quotes, trades[0].timestamp as int, 0);
            assert(trades.drop_first() == trades.skip(1));
            lemma_run_awaiting_trade(next, m, quotes, trades, 1, 1);
        } else {
            lemma_run_awaiting_quote(next, m, quotes, trades, 1, 1);
        }
    }
}

} // verus!

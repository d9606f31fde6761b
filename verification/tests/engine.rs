use spread_join::data::{Converter, QuoteInfo, QuoteRecord, TradeInfo, TradeRecord};
use spread_join::engine::{
    apply_logic, apply_new_quote, process_trade, trades_within_spread, Command, Engine,
};
use spread_join::matcher::{QuoteToTradeMatcher, Spread};
use spread_join::price::Price;

fn price(x: f32) -> Price {
    Price::from_bits(x.to_bits())
}

fn read(text: &str) -> Option<Price> {
    text.parse::<f32>().ok().map(price)
}

fn q(timestamp: usize, ask: f32, bid: f32) -> Option<QuoteRecord> {
    Some(QuoteRecord { timestamp, ask: price(ask), bid: price(bid) })
}

fn t(timestamp: usize, p: f32) -> Option<TradeRecord> {
    Some(TradeRecord { timestamp, price: price(p) })
}

fn count(quotes: Vec<Option<QuoteRecord>>, trades: Vec<Option<TradeRecord>>) -> usize {
    trades_within_spread(&quotes, &trades, &QuoteToTradeMatcher)
}

fn count_lines(
    quote_lines: &[&str],
    trade_lines: &[&str],
    price_offset: usize,
    ask_offset: usize,
    bid_offset: usize,
) -> usize {
    let quote_info = QuoteInfo { ask_offset, bid_offset };
    let trade_info = TradeInfo { price_offset };
    let quotes: Vec<Option<QuoteRecord>> = quote_lines
        .iter()
        .map(|line| {
            let raw = quote_info.convert(line.to_string())?;
            raw.priced(read(&raw.ask), read(&raw.bid))
        })
        .collect();
    let trades: Vec<Option<TradeRecord>> = trade_lines
        .iter()
        .map(|line| {
            let raw = trade_info.convert(line.to_string())?;
            raw.priced(read(&raw.price))
        })
        .collect();
    count(quotes, trades)
}

#[test]
fn a_run_stops_when_the_quotes_run_out() {
    let quotes = ["09:00:00.000,10.0,9.0"];
    let trades = ["09:00:00.500,9.5", "09:00:01.000,12.0"];
    assert_eq!(count_lines(&quotes, &trades, 1, 1, 2), 0);
}

#[test]
fn a_trade_is_judged_when_a_later_quote_arrives() {
    let quotes = ["09:00:00.000,10.0,9.0", "09:00:02.000,11.0,10.0"];
    let trades = ["09:00:00.500,9.5", "09:00:01.000,12.0"];
    assert_eq!(count_lines(&quotes, &trades, 1, 1, 2), 1);
}

#[test]
fn the_same_on_records() {
    assert_eq!(count(vec![q(0, 10.0, 9.0)], vec![t(500, 9.5), t(1000, 12.0)]), 0);
    assert_eq!(
        count(vec![q(0, 10.0, 9.0), q(2000, 11.0, 10.0)], vec![t(500, 9.5), t(1000, 12.0)]),
        1
    );
}

#[test]
fn two_runs_over_the_same_streams_count_the_same() {
    let quotes = vec![q(0, 10.0, 9.0), q(2000, 11.0, 10.0), q(4000, 12.0, 11.0)];
    let trades = vec![t(500, 9.5), t(1000, 9.7), t(2500, 10.5), t(3000, 13.0), t(5000, 11.5)];
    let first = trades_within_spread(&quotes, &trades, &QuoteToTradeMatcher);
    let second = trades_within_spread(&quotes, &trades, &QuoteToTradeMatcher);
    assert_eq!(first, 3);
    assert_eq!(second, first);
}

#[test]
fn no_trades_no_matches() {
    assert_eq!(count(vec![], vec![]), 0);
    assert_eq!(count(vec![q(0, 10.0, 9.0)], vec![]), 0);
    assert_eq!(count(vec![q(0, 10.0, 9.0), q(1, 11.0, 10.0), q(2, 12.0, 11.0)], vec![]), 0);
    assert_eq!(count(vec![None, q(1, 11.0, 10.0)], vec![]), 0);
    assert_eq!(count_lines(&["09:00:00.000,10.0,9.0"], &[], 1, 1, 2), 0);
}

#[test]
fn no_quotes_no_matches() {
    assert_eq!(count(vec![], vec![t(500, 9.5)]), 0);
    assert_eq!(count(vec![], vec![t(500, 9.5), t(600, 9.5), t(700, 9.5)]), 0);
}

#[test]
fn a_trade_that_ties_with_a_quote_is_judged_against_that_quote() {
    let quotes = vec![q(1000, 10.0, 9.0), q(1500, 20.0, 19.0), q(3000, 30.0, 29.0)];
    assert_eq!(count(quotes.clone(), vec![t(1500, 19.5)]), 1);
    assert_eq!(count(quotes.clone(), vec![t(1500, 9.5)]), 0);
}

#[test]
fn a_tie_in_the_first_pair_applies_the_quote() {
    let quotes = vec![q(1000, 10.0, 9.0), q(2000, 20.0, 19.0)];
    assert_eq!(count(quotes.clone(), vec![t(1000, 9.5)]), 1);
    assert_eq!(count(quotes.clone(), vec![t(1000, 19.5)]), 0);
}

#[test]
fn a_trade_before_the_quote_is_judged_against_the_spread_before() {
    let quotes = vec![q(1000, 10.0, 9.0), q(2000, 20.0, 19.0), q(3000, 30.0, 29.0)];
    assert_eq!(count(quotes.clone(), vec![t(1500, 9.5), t(1999, 9.5), t(2000, 9.5)]), 2);
    assert_eq!(count(quotes.clone(), vec![t(1500, 19.5), t(1999, 19.5), t(2000, 19.5)]), 1);
}

#[test]
fn the_first_pair_is_never_counted() {
    let quotes = vec![q(1000, 10.0, 9.0), q(2000, 11.0, 10.0)];
    let trades = vec![t(500, 9.5), t(600, 9.5), t(1500, 9.5), t(1800, 9.6), t(2500, 10.5)];
    assert_eq!(count(quotes, trades), 2);
}

#[test]
fn no_trade_matches_before_a_spread_is_observed() {
    let quotes = vec![q(5000, 10.0, 9.0)];
    let trades = vec![t(100, 9.5), t(200, 9.5), t(300, 9.5), t(400, -1.0)];
    assert_eq!(count(quotes, trades), 0);
}

#[test]
fn a_spread_whose_ask_is_not_above_zero_counts_as_unobserved() {
    assert_eq!(count(vec![q(1000, 0.5, -2.0), q(3000, 1.0, 0.5)], vec![t(1500, -1.0)]), 1);
    assert_eq!(count(vec![q(1000, 0.0, -2.0), q(3000, 1.0, 0.5)], vec![t(1500, -1.0)]), 0);
    assert_eq!(count(vec![q(1000, -0.5, -2.0), q(3000, 1.0, 0.5)], vec![t(1500, -1.0)]), 0);
}

#[test]
fn a_corrupt_record_ends_the_run() {
    let quotes = vec![q(1000, 10.0, 9.0), q(2000, 11.0, 10.0), q(3000, 12.0, 11.0)];
    let good = vec![t(1500, 9.5), t(1600, 9.5), t(1700, 9.5), t(2500, 10.5)];
    assert_eq!(count(quotes.clone(), good), 4);
    let broken = vec![t(1500, 9.5), t(1600, 9.5), None, t(1700, 9.5), t(2500, 10.5)];
    assert_eq!(count(quotes.clone(), broken), 2);
    let quotes = vec![q(1000, 10.0, 9.0), None, q(2000, 11.0, 10.0)];
    assert_eq!(count(quotes, vec![t(1500, 9.5), t(1600, 9.5)]), 0);
}

#[test]
fn a_corrupt_line_ends_the_run() {
    let quotes = ["09:00:00.000,10.0,9.0", "09:00:02.000,11.0,10.0", "09:00:04.000,12.0,11.0"];
    let trades = ["09:00:00.500,9.5", "09:00:01.000,9.6", "09:00:01.500,9.7", "09:00:03.000,10.5"];
    assert_eq!(count_lines(&quotes, &trades, 1, 1, 2), 4);
    let trades = ["09:00:00.500,9.5", "09:00:01.000,9.6", "09:00:01.500,", "09:00:03.000,10.5"];
    assert_eq!(count_lines(&quotes, &trades, 1, 1, 2), 2);
    let trades = ["09:00:00.500,9.5", "09:00:01.000,9.6", "0900,9.7", "09:00:03.000,10.5"];
    assert_eq!(count_lines(&quotes, &trades, 1, 1, 2), 2);
    let trades = ["09:00:00.500,9.5", "09:00:01.000", "09:00:01.500,9.7", "09:00:03.000,10.5"];
    assert_eq!(count_lines(&quotes, &trades, 1, 1, 2), 1);
}

#[test]
fn other_columns_are_ignored() {
    let quotes = ["09:00:00.000,XYZ,9.0,10.0,100", "09:00:02.000,XYZ,10.0,11.0,100"];
    let trades = ["09:00:00.500,XYZ,7,9.5", "09:00:01.000,XYZ,3,12.0"];
    assert_eq!(count_lines(&quotes, &trades, 3, 3, 2), 1);
}

#[test]
fn unsorted_streams_do_not_break_the_run() {
    let quotes = vec![q(3000, 10.0, 9.0), q(1000, 11.0, 10.0), q(2000, 12.0, 11.0)];
    let trades = vec![t(2500, 9.5), t(500, 9.6), t(4000, 9.7), t(100, 9.8)];
    assert_eq!(count(quotes, trades), 0);
    let quotes = vec![q(1000, 10.0, 9.0), q(500, 11.0, 10.0), q(9000, 12.0, 11.0)];
    let trades = vec![t(2500, 9.5), t(8000, 10.5), t(100, 11.5)];
    assert_eq!(count(quotes.clone(), trades), 1);
    let trades = vec![t(2500, 9.5), t(8000, 10.5), t(100, 10.75)];
    assert_eq!(count(quotes, trades), 2);
}

#[test]
fn every_trade_of_a_long_stream_is_counted_once() {
    let quotes = vec![q(0, 10.0, 9.0), q(1_000_000, 11.0, 10.0)];
    let trades: Vec<Option<TradeRecord>> = (1..=1000).map(|i| t(i, 9.5)).collect();
    assert_eq!(count(quotes, trades), 1000);
}

fn reference(quotes: &[(usize, f32, f32)], trades: &[(usize, f32)]) -> usize {
    let mut count = 0;
    let mut spread: (f32, f32) = (-1.0, -1.0);
    let mut qi = 0;
    let mut ti = 0;
    let mut quote;
    let mut trade;
    if quotes.is_empty() || trades.is_empty() {
        return 0;
    }
    quote = quotes[0];
    trade = trades[0];
    qi += 1;
    ti += 1;
    let mut check = false;
    loop {
        let pull_trade;
        if trade.0 < quote.0 {
            if check && spread.0 > 0.0 && trade.1 > spread.1 && trade.1 < spread.0 {
                count += 1;
            }
            pull_trade = true;
        } else {
            spread = (quote.1, quote.2);
            pull_trade = false;
        }
        check = true;
        if pull_trade {
            if ti == trades.len() {
                return count;
            }
            trade = trades[ti];
            ti += 1;
        } else {
            if qi == quotes.len() {
                return count;
            }
            quote = quotes[qi];
            qi += 1;
        }
    }
}

#[test]
fn the_run_agrees_with_a_plain_loop_over_floats() {
    let mut seed: u64 = 0x2545_f491_4f6c_dd1d;
    let mut next = move |bound: u64| -> u64 {
        seed ^= seed << 13;
        seed ^= seed >> 7;
        seed ^= seed << 17;
        seed % bound
    };
    let mut total = 0;
    for round in 0..300 {
        let n_quotes = next(12) as usize;
        let n_trades = next(25) as usize;
        let mut quotes: Vec<(usize, f32, f32)> = Vec::new();
        let mut stamp = 0usize;
        for _ in 0..n_quotes {
            stamp += next(4) as usize;
            let bid = 90.0 + next(20) as f32 * 0.5;
            let ask = bid + next(5) as f32 * 0.5;
            quotes.push((stamp, ask, bid));
        }
        let mut trades: Vec<(usize, f32)> = Vec::new();
        let mut stamp = 0usize;
        for _ in 0..n_trades {
            stamp += next(3) as usize;
            trades.push((stamp, 90.0 + next(50) as f32 * 0.25));
        }
        if round % 7 == 0 {
            trades.reverse();
        }
        let expected = reference(&quotes, &trades);
        let got = count(
            quotes.iter().map(|&(s, a, b)| q(s, a, b)).collect(),
            trades.iter().map(|&(s, p)| t(s, p)).collect(),
        );
        assert_eq!(got, expected, "round {}", round);
        total += got;
    }
    assert!(total > 0);
}

#[test]
fn a_fresh_engine_asks_for_both_records() {
    let e = Engine::new();
    assert_eq!(e.command, Command::GetBoth);
    assert_eq!(e.count, 0);
    assert_eq!(e.last_ask_bid, Spread::unset());
    assert_eq!(e.last_quote, QuoteRecord { timestamp: 0, ask: price(-1.0), bid: price(-1.0) });
    assert_eq!(e.last_trade, TradeRecord { timestamp: 0, price: price(-1.0) });
    assert!(e.needs_quote());
    assert!(e.needs_trade());
}

#[test]
fn the_command_says_what_is_pulled() {
    let mut e = Engine::new();
    e.command = Command::GetQuote;
    assert!(e.needs_quote());
    assert!(!e.needs_trade());
    e.command = Command::GetTrade;
    assert!(!e.needs_quote());
    assert!(e.needs_trade());
}

#[test]
fn an_engine_stops_where_a_pull_it_asked_for_yields_nothing() {
    let m = QuoteToTradeMatcher;
    let fresh = Engine::new();
    let mut e = fresh;
    assert!(!e.advance(None, None, &m));
    assert_eq!(e, fresh);
    assert!(!e.advance(q(1, 10.0, 9.0), None, &m));
    assert_eq!(e, fresh);
    assert!(!e.advance(None, t(1, 9.5), &m));
    assert_eq!(e, fresh);

    let mut e = fresh;
    e.command = Command::GetQuote;
    let before = e;
    assert!(!e.advance(None, t(1, 9.5), &m));
    assert_eq!(e, before);

    let mut e = fresh;
    e.command = Command::GetTrade;
    let before = e;
    assert!(!e.advance(q(1, 10.0, 9.0), None, &m));
    assert_eq!(e, before);
}

#[test]
fn an_engine_walks_through_a_run() {
    let m = QuoteToTradeMatcher;
    let mut e = Engine::new();

    assert!(e.advance(q(0, 10.0, 9.0), t(500, 9.5), &m));
    assert_eq!(e.command, Command::GetQuote);
    assert_eq!(e.last_ask_bid, Spread { ask: price(10.0), bid: price(9.0) });
    assert_eq!(e.count, 0);

    assert!(e.advance(q(2000, 11.0, 10.0), None, &m));
    assert_eq!(e.command, Command::GetTrade);
    assert_eq!(e.last_ask_bid, Spread { ask: price(10.0), bid: price(9.0) });
    assert_eq!(e.last_quote, q(2000, 11.0, 10.0).unwrap());
    assert_eq!(e.count, 1);

    assert!(e.advance(None, t(1000, 12.0), &m));
    assert_eq!(e.command, Command::GetTrade);
    assert_eq!(e.last_trade, t(1000, 12.0).unwrap());
    assert_eq!(e.count, 1);

    assert!(e.advance(None, t(2000, 10.5), &m));
    assert_eq!(e.command, Command::GetQuote);
    assert_eq!(e.last_ask_bid, Spread { ask: price(11.0), bid: price(10.0) });
    assert_eq!(e.count, 1);

    assert!(!e.advance(None, None, &m));
    assert_eq!(e.count, 1);
}

#[test]
fn an_engine_does_not_look_at_a_record_it_did_not_ask_for() {
    let m = QuoteToTradeMatcher;
    let mut e = Engine::new();
    assert!(e.advance(q(1000, 10.0, 9.0), t(1500, 9.5), &m));
    assert_eq!(e.command, Command::GetQuote);
    assert!(e.advance(q(2000, 11.0, 10.0), t(1, 100.0), &m));
    assert_eq!(e.last_trade, t(1500, 9.5).unwrap());
    assert_eq!(e.command, Command::GetTrade);
    assert_eq!(e.count, 1);
    assert!(e.advance(q(1, 100.0, 99.0), t(1600, 9.5), &m));
    assert_eq!(e.last_quote, q(2000, 11.0, 10.0).unwrap());
    assert_eq!(e.count, 2);
}

#[test]
fn apply_new_quote_puts_the_quote_into_effect() {
    let mut spread = Spread::unset();
    let next = apply_new_quote(&mut spread, &q(7, 10.0, 9.0).unwrap());
    assert_eq!(next, Command::GetQuote);
    assert_eq!(spread, Spread { ask: price(10.0), bid: price(9.0) });
}

#[test]
fn process_trade_counts_a_trade_inside_an_observed_spread() {
    let m = QuoteToTradeMatcher;
    let spread = Spread { ask: price(10.0), bid: price(9.0) };
    assert_eq!(process_trade(spread, t(1, 9.5).unwrap(), &m, true), (1, Command::GetTrade));
    assert_eq!(process_trade(spread, t(1, 9.0).unwrap(), &m, true), (0, Command::GetTrade));
    assert_eq!(process_trade(spread, t(1, 10.0).unwrap(), &m, true), (0, Command::GetTrade));
    assert_eq!(process_trade(spread, t(1, 9.5).unwrap(), &m, false), (0, Command::GetTrade));
    assert_eq!(
        process_trade(Spread::unset(), t(1, 9.5).unwrap(), &m, true),
        (0, Command::GetTrade)
    );
    let below_zero = Spread { ask: price(-1.0), bid: price(-3.0) };
    assert_eq!(process_trade(below_zero, t(1, -2.0).unwrap(), &m, true), (0, Command::GetTrade));
}

#[test]
fn apply_logic_judges_an_older_trade_and_keeps_the_spread() {
    let m = QuoteToTradeMatcher;
    let mut spread = Spread { ask: price(10.0), bid: price(9.0) };
    let r = apply_logic(&mut spread, &q(2000, 20.0, 19.0).unwrap(), t(1999, 9.5).unwrap(), &m, true);
    assert_eq!(r, (1, Command::GetTrade));
    assert_eq!(spread, Spread { ask: price(10.0), bid: price(9.0) });
    let r = apply_logic(&mut spread, &q(2000, 20.0, 19.0).unwrap(), t(1999, 9.5).unwrap(), &m, false);
    assert_eq!(r, (0, Command::GetTrade));
    assert_eq!(spread, Spread { ask: price(10.0), bid: price(9.0) });
}

#[test]
fn apply_logic_applies_a_quote_that_is_not_younger_than_the_trade() {
    let m = QuoteToTradeMatcher;
    let mut spread = Spread { ask: price(10.0), bid: price(9.0) };
    let r = apply_logic(&mut spread, &q(2000, 20.0, 19.0).unwrap(), t(2000, 9.5).unwrap(), &m, true);
    assert_eq!(r, (0, Command::GetQuote));
    assert_eq!(spread, Spread { ask: price(20.0), bid: price(19.0) });
    let mut spread = Spread { ask: price(10.0), bid: price(9.0) };
    let r = apply_logic(&mut spread, &q(2000, 20.0, 19.0).unwrap(), t(2001, 9.5).unwrap(), &m, true);
    assert_eq!(r, (0, Command::GetQuote));
    assert_eq!(spread, Spread { ask: price(20.0), bid: price(19.0) });
}

fn causal(quotes: &[(usize, f32, f32)], trades: &[(usize, f32)]) -> usize {
    let mut count = 0;
    for &(time, p) in trades {
        let reaches_beyond = match quotes.last() {
            Some(last) => time < last.0,
            None => false,
        };
        let in_effect = quotes.iter().rev().find(|quote| quote.0 <= time);
        if let Some(&(_, ask, bid)) = in_effect {
            if reaches_beyond && ask > 0.0 && bid < p && p < ask {
                count += 1;
            }
        }
    }
    count
}

#[test]
fn on_ordered_streams_the_run_is_the_causal_join() {
    let mut seed: u64 = 0x1234_5678_9abc_def1;
    let mut next = move |bound: u64| -> u64 {
        seed ^= seed << 13;
        seed ^= seed >> 7;
        seed ^= seed << 17;
        seed % bound
    };
    let mut total = 0;
    for round in 0..500 {
        let n_quotes = next(10) as usize;
        let n_trades = next(30) as usize;
        let mut quotes: Vec<(usize, f32, f32)> = Vec::new();
        let mut stamp = next(5) as usize;
        for _ in 0..n_quotes {
            stamp += next(4) as usize;
            let bid = -1.0 + next(20) as f32 * 0.5;
            let ask = bid + next(5) as f32 * 0.5;
            quotes.push((stamp, ask, bid));
        }
        let mut trades: Vec<(usize, f32)> = Vec::new();
        let mut stamp = next(5) as usize;
        for _ in 0..n_trades {
            stamp += next(3) as usize;
            trades.push((stamp, -1.0 + next(50) as f32 * 0.25));
        }
        let expected = causal(&quotes, &trades);
        let got = count(
            quotes.iter().map(|&(s, a, b)| q(s, a, b)).collect(),
            trades.iter().map(|&(s, p)| t(s, p)).collect(),
        );
        assert_eq!(got, expected, "round {}", round);
        assert!(got <= trades.len());
        total += got;
    }
    assert!(total > 0);
}

#[test]
fn the_causal_join_by_hand() {
    let quotes = [(1000, 10.0, 9.0), (2000, 11.0, 10.0), (3000, 12.0, 11.0)];
    let trades = [(500, 9.5), (1000, 9.5), (1500, 9.0), (2000, 10.5), (2999, 10.75), (3000, 11.5)];
    assert_eq!(causal(&quotes, &trades), 3);
    assert_eq!(
        count(
            quotes.iter().map(|&(s, a, b)| q(s, a, b)).collect(),
            trades.iter().map(|&(s, p)| t(s, p)).collect(),
        ),
        3
    );
}

#[test]
fn the_counter_goes_up_by_at_most_one_and_never_down() {
    let m = QuoteToTradeMatcher;
    let quotes = [q(1000, 10.0, 9.0), q(2000, 11.0, 10.0), q(3000, 12.0, 11.0), None];
    let trades = [t(500, 9.5), t(1500, 9.5), t(1600, 9.0), t(1700, 9.9), t(2500, 10.5), None];
    let mut qi = 0;
    let mut ti = 0;
    let mut e = Engine::new();
    let mut steps = 0;
    loop {
        let before = e.count;
        let quote = if e.needs_quote() { qi += 1; quotes[qi - 1] } else { None };
        let trade = if e.needs_trade() { ti += 1; trades[ti - 1] } else { None };
        let go = e.advance(quote, trade, &m);
        assert!(e.count == before || e.count == before + 1);
        assert!(e.count <= ti);
        if !go {
            assert_eq!(e.count, before);
            break;
        }
        steps += 1;
    }
    assert_eq!(steps, 7);
    assert_eq!(e.count, 3);
}

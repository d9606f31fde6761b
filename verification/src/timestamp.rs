//! The timestamp codec: a clock text of the shape `HH:MM:SS.mmm` read as
//! milliseconds since midnight.

use crate::text::{
    chars_of, decimal, join, law_split_and_join, lemma_numeral_characters, lemma_split_first,
    lemma_split_whole, parse_decimal, split, split_range, Span,
};
use vstd::arithmetic::overflow::CheckedUsize;
use vstd::prelude::*;

verus! {

/// Milliseconds in an hour.
pub const H_FACTOR: usize = 3600000;

/// Milliseconds in a minute.
pub const M_FACTOR: usize = 60000;

/// Milliseconds in a second.
pub const S_FACTOR: usize = 1000;

/// The milliseconds since midnight that a clock text denotes.
///
/// The text must consist of exactly three parts separated by `:`, and the
/// third of exactly two parts separated by `.`; each of the four must be a
/// decimal numeral. No part is held to a range: `99:99:99.999` is a
/// timestamp. Every other text denotes none.
pub open spec fn millis_of(field: Seq<char>) -> Option<nat> {
    let v = split(field, ':');
    if v.len() != 3 {
        None
    } else {
        let vv = split(v[2], '.');
        if vv.len() != 2 {
            None
        } else {
            match (decimal(v[0]), decimal(v[1]), decimal(vv[0]), decimal(vv[1])) {
                (Some(h), Some(m), Some(s), Some(ms)) => Some(
                    h * 3600000 + m * 60000 + s * 1000 + ms,
                ),
                _ => None,
            }
        }
    }
}

/// The clock text that four parts write: `h:m:s.ms`.
pub open spec fn clock_text(h: Seq<char>, m: Seq<char>, s: Seq<char>, ms: Seq<char>) -> Seq<char> {
    h + seq![':'] + m + seq![':'] + (s + seq!['.'] + ms)
}

/// Four numerals written as a clock text denote hours times 3,600,000 plus
/// minutes times 60,000 plus seconds times 1,000 plus milliseconds.
pub proof fn law_clock_text_denotes(h: Seq<char>, m: Seq<char>, s: Seq<char>, ms: Seq<char>)
    requires
        decimal(h) is Some,
        decimal(m) is Some,
        decimal(s) is Some,
        decimal(ms) is Some,
    ensures
        millis_of(clock_text(h, m, s, ms)) == Some(
            decimal(h)->0 * 3600000 + decimal(m)->0 * 60000 + decimal(s)->0 * 1000 + decimal(ms)->0,
        ),
{
    lemma_numeral_characters(h);
    lemma_numeral_characters(m);
    lemma_numeral_characters(s);
    lemma_numeral_characters(ms);
    let last = s + seq!['.'] + ms;
    assert forall|j: int| 0 <= j < last.len() implies last[j] != ':' by {
        if j < s.len() {
            assert(last[j] == s[j]);
        } else if j > s.len() {
            assert(last[j] == ms[j - s.len() - 1]);
        }
    }
    lemma_split_whole(last, ':');
    lemma_split_first(m, last, ':');
    lemma_split_first(h, m + seq![':'] + last, ':');
    assert(h + seq![':'] + (m + seq![':'] + last) == clock_text(h, m, s, ms));
    lemma_split_whole(ms, '.');
    lemma_split_first(s, ms, '.');
    assert(split(clock_text(h, m, s, ms), ':') == seq![h, m, last]);
    assert(split(last, '.') == seq![s, ms]);
}

/// Every timestamp is a clock text of four numerals.
pub proof fn law_timestamp_is_clock_text(field: Seq<char>)
    requires
        millis_of(field) is Some,
    ensures
        ({
            let v = split(field, ':');
            let vv = split(v[2], '.');
            &&& field == clock_text(v[0], v[1], vv[0], vv[1])
            &&& decimal(v[0]) is Some
            &&& decimal(v[1]) is Some
            &&& decimal(vv[0]) is Some
            &&& decimal(vv[1]) is Some
        }),
{
    let v = split(field, ':');
    let vv = split(v[2], '.');
    law_split_and_join(field, ':');
    law_split_and_join(v[2], '.');
    assert(v.drop_first().drop_first() == seq![v[2]]);
    assert(v.drop_first()[0] == v[1]);
    assert(join(v.drop_first().drop_first(), ':') == v[2]);
    assert(join(v.drop_first(), ':') == v[1] + seq![':'] + v[2]);
    assert(vv.drop_first()[0] == vv[1]);
    assert(join(vv.drop_first(), '.') == vv[1]);
    assert(join(vv, '.') == vv[0] + seq!['.'] + vv[1]);
    assert(v[0] + seq![':'] + (v[1] + seq![':'] + v[2]) == v[0] + seq![':'] + v[1] + seq![':']
        + v[2]);
}

/// A timestamp as the machine holds it: one that does not fit is none.
pub open spec fn representable(t: Option<nat>) -> Option<usize> {
    match t {
        Some(n) => if n <= usize::MAX {
            Some(n as usize)
        } else {
            None
        },
        None => None,
    }
}

/// Decodes the clock text that `span` covers in `s`.
pub fn millis_in(s: &Vec<char>, span: Span) -> (r: Option<usize>)
    requires
        span.within(0, s.len() as int),
    ensures
        r == representable(millis_of(span.of(s@))),
{
    let v: Vec<Span> = split_range(s, span.start, span.end, ':');
    if v.len() != 3 {
        return None;
    }
    let third: Span = v[2];
    let vv: Vec<Span> = split_range(s, third.start, third.end, '.');
    if vv.len() != 2 {
        return None;
    }
    let h: CheckedUsize = match parse_decimal(s, v[0]) {
        Some(n) => n,
        None => { return None; },
    };
    let m: CheckedUsize = match parse_decimal(s, v[1]) {
        Some(n) => n,
        None => { return None; },
    };
    let sec: CheckedUsize = match parse_decimal(s, vv[0]) {
        Some(n) => n,
        None => { return None; },
    };
    let ms: CheckedUsize = match parse_decimal(s, vv[1]) {
        Some(n) => n,
        None => { return None; },
    };
    let total: CheckedUsize = h.mul_value(H_FACTOR).add_checked(&m.mul_value(M_FACTOR)).add_checked(
        &sec.mul_value(S_FACTOR),
    ).add_checked(&ms);
    total.to_option()
}

/// Decodes a clock text of the shape `HH:MM:SS.mmm` into milliseconds since
/// midnight: hours times 3,600,000 plus minutes times 60,000 plus seconds
/// times 1,000 plus the milliseconds. A text of another shape, a part that
/// is no numeral, or a sum beyond `usize::MAX` gives `None`.
pub fn get_millis(field: &str) -> (r: Option<usize>)
    ensures
        r == representable(millis_of(field@)),
{
    let s: Vec<char> = chars_of(field);
    let whole: Span = Span { start: 0, end: s.len() };
    assert(whole.of(s@) == field@);
    millis_in(&s, whole)
}

} // verus!

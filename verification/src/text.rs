//! Character-level text utilities: the characters of a string slice, the
//! parts of a character sequence between occurrences of a separator, and
//! unsigned decimal numerals.

use vstd::arithmetic::overflow::CheckedUsize;
use vstd::prelude::*;

verus! {

/// The position of the first `sep` in `s`, or `s.len()` where `s` holds none.
pub open spec fn first_sep(s: Seq<char>, sep: char) -> int
    decreases s.len(),
{
    if s.len() == 0 || s[0] == sep {
        0
    } else {
        1 + first_sep(s.drop_first(), sep)
    }
}

/// The parts of `s` between occurrences of `sep`, in order. A sequence with
/// `n` separators has `n + 1` parts; a part may be empty.
pub open spec fn split(s: Seq<char>, sep: char) -> Seq<Seq<char>>
    decreases s.len(),
{
    let i = first_sep(s, sep);
    if 0 <= i < s.len() {
        seq![s.take(i)] + split(s.skip(i + 1), sep)
    } else {
        seq![s]
    }
}

/// `c` is one of the ten ASCII digits.
pub open spec fn is_digit(c: char) -> bool {
    '0' <= c <= '9'
}

/// The number that the digits of `s` write in base ten (0 for no digits).
pub open spec fn digits_value(s: Seq<char>) -> nat
    decreases s.len(),
{
    if s.len() == 0 {
        0
    } else {
        digits_value(s.drop_last()) * 10 + (s.last() as nat - '0' as nat) as nat
    }
}

/// `s` is one ASCII digit or more, and nothing else.
pub open spec fn is_digits(s: Seq<char>) -> bool {
    s.len() > 0 && forall|i: int| 0 <= i < s.len() ==> is_digit(#[trigger] s[i])
}

/// The non-negative integer that `s` denotes: an optional `+` followed by one
/// ASCII digit or more. Anything else (an empty text, a `-`, a blank, a
/// letter) denotes no number.
pub open spec fn decimal(s: Seq<char>) -> Option<nat> {
    let body = if s.len() > 0 && s[0] == '+' {
        s.skip(1)
    } else {
        s
    };
    if is_digits(body) {
        Some(digits_value(body))
    } else {
        None
    }
}

/// A half-open range of character positions.
#[derive(Clone, Copy, Debug)]
pub struct Span {
    pub start: usize,
    pub end: usize,
}

impl Span {
    /// The characters of `s` that the span covers.
    pub open spec fn of(self, s: Seq<char>) -> Seq<char> {
        s.subrange(self.start as int, self.end as int)
    }

    /// The span lies inside `lo..hi`.
    pub open spec fn within(self, lo: int, hi: int) -> bool {
        lo <= self.start <= self.end <= hi
    }
}

/// `first_sep` is the least position that holds `sep`, and the length where
/// none does.
pub proof fn lemma_first_sep(s: Seq<char>, sep: char)
    ensures
        0 <= first_sep(s, sep) <= s.len(),
        forall|j: int| 0 <= j < first_sep(s, sep) ==> s[j] != sep,
        first_sep(s, sep) < s.len() ==> s[first_sep(s, sep)] == sep,
    decreases s.len(),
{
    if s.len() == 0 || s[0] == sep {
    } else {
        let t = s.drop_first();
        lemma_first_sep(t, sep);
        assert forall|j: int| 0 <= j < first_sep(s, sep) implies s[j] != sep by {
            if j > 0 {
                assert(s[j] == t[j - 1]);
            }
        }
    }
}

/// A position `k` that is preceded by no `sep`, and holds one unless it is
/// the length, is `first_sep`.
pub proof fn lemma_first_sep_is(s: Seq<char>, sep: char, k: int)
    requires
        0 <= k <= s.len(),
        forall|j: int| 0 <= j < k ==> s[j] != sep,
        k < s.len() ==> s[k] == sep,
    ensures
        first_sep(s, sep) == k,
{
    lemma_first_sep(s, sep);
}

/// The parts put together again, with one `sep` between neighbours.
pub open spec fn join(parts: Seq<Seq<char>>, sep: char) -> Seq<char>
    decreases parts.len(),
{
    if parts.len() == 0 {
        Seq::empty()
    } else if parts.len() == 1 {
        parts[0]
    } else {
        parts[0] + seq![sep] + join(parts.drop_first(), sep)
    }
}

/// What `split` is: there is at least one part, no part holds a `sep`, and
/// the parts joined by `sep` are the sequence that was split.
pub proof fn law_split_and_join(s: Seq<char>, sep: char)
    ensures
        split(s, sep).len() >= 1,
        forall|k: int, j: int|
            0 <= k < split(s, sep).len() && 0 <= j < split(s, sep)[k].len() ==> split(
                s,
                sep,
            )[k][j] != sep,
        join(split(s, sep), sep) == s,
    decreases s.len(),
{
    lemma_first_sep(s, sep);
    let i = first_sep(s, sep);
    if 0 <= i < s.len() {
        let head = s.take(i);
        let tail = s.skip(i + 1);
        let rest = split(tail, sep);
        law_split_and_join(tail, sep);
        let parts = seq![head] + rest;
        assert(parts.drop_first() == rest);
        assert(head + seq![sep] + tail == s);
        assert forall|k: int, j: int| 0 <= k < parts.len() && 0 <= j < parts[k].len() implies
            parts[k][j] != sep by {
            if k > 0 {
                assert(parts[k] == rest[k - 1]);
            }
        }
    }
}

/// A sequence that holds no `sep` is its own single part.
pub proof fn lemma_split_whole(a: Seq<char>, sep: char)
    requires
        forall|j: int| 0 <= j < a.len() ==> a[j] != sep,
    ensures
        split(a, sep) == seq![a],
{
    lemma_first_sep_is(a, sep, a.len() as int);
}

/// Where `a` holds no `sep`, the parts of `a`, a `sep` and `b` are `a` and
/// the parts of `b`.
pub proof fn lemma_split_first(a: Seq<char>, b: Seq<char>, sep: char)
    requires
        forall|j: int| 0 <= j < a.len() ==> a[j] != sep,
    ensures
        split(a + seq![sep] + b, sep) == seq![a] + split(b, sep),
{
    let s = a + seq![sep] + b;
    lemma_first_sep_is(s, sep, a.len() as int);
    assert(s.take(a.len() as int) == a);
    assert(s.skip(a.len() as int + 1) == b);
}

/// A numeral holds nothing but digits and a leading plus sign.
pub proof fn lemma_numeral_characters(s: Seq<char>)
    requires
        decimal(s) is Some,
    ensures
        forall|j: int| 0 <= j < s.len() ==> is_digit(#[trigger] s[j]) || s[j] == '+',
{
    assert forall|j: int| 0 <= j < s.len() implies is_digit(#[trigger] s[j]) || s[j] == '+' by {
        if s[0] == '+' {
            if j > 0 {
                assert(s.skip(1)[j - 1] == s[j]);
            }
        }
    }
}

/// Cuts the characters `lo..hi` of `s` at every `sep`: the spans of the parts
/// of `split`, in order.
pub fn split_range(s: &Vec<char>, lo: usize, hi: usize, sep: char) -> (spans: Vec<Span>)
    requires
        lo <= hi <= s.len(),
    ensures
        spans@.len() == split(s@.subrange(lo as int, hi as int), sep).len(),
        forall|k: int|
            0 <= k < spans@.len() ==> (#[trigger] spans@[k]).within(lo as int, hi as int)
                && spans@[k].of(s@) == split(s@.subrange(lo as int, hi as int), sep)[k],
{
    let ghost whole = s@.subrange(lo as int, hi as int);
    let mut spans: Vec<Span> = Vec::new();
    let mut start: usize = lo;
    let mut i: usize = lo;
    while i < hi
        invariant
            lo <= start <= i <= hi <= s.len(),
            whole == s@.subrange(lo as int, hi as int),
            forall|j: int| start <= j < i ==> s@[j] != sep,
            forall|k: int|
                0 <= k < spans@.len() ==> (#[trigger] spans@[k]).within(lo as int, hi as int),
            split(whole, sep) == Seq::new(spans@.len(), |k: int| spans@[k].of(s@)) + split(
                s@.subrange(start as int, hi as int),
                sep,
            ),
        decreases hi - i,
    {
        if s[i] == sep {
            proof {
                let rest = s@.subrange(start as int, hi as int);
                lemma_first_sep_is(rest, sep, i - start);
                assert(rest.take(i - start) == s@.subrange(start as int, i as int));
                assert(rest.skip(i - start + 1) == s@.subrange(i + 1, hi as int));
            }
            let ghost before = spans@;
            spans.push(Span { start, end: i });
            start = i + 1;
            proof {
                let closed = Seq::new(before.len(), |k: int| before[k].of(s@));
                let grown = Seq::new(spans@.len(), |k: int| spans@[k].of(s@));
                assert(grown == closed + seq![s@.subrange(spans@.last().start as int, i as int)]);
            }
        }
        i += 1;
    }
    proof {
        let rest = s@.subrange(start as int, hi as int);
        lemma_first_sep_is(rest, sep, rest.len() as int);
    }
    let ghost before = spans@;
    spans.push(Span { start, end: hi });
    proof {
        let closed = Seq::new(before.len(), |k: int| before[k].of(s@));
        let grown = Seq::new(spans@.len(), |k: int| spans@[k].of(s@));
        assert(grown == closed + seq![s@.subrange(start as int, hi as int)]);
        assert(grown == split(whole, sep));
        assert forall|k: int| 0 <= k < spans@.len() implies spans@[k].of(s@) == split(
            whole,
            sep,
        )[k] by {
            assert(grown[k] == spans@[k].of(s@));
        }
    }
    spans
}

/// Reads the unsigned decimal numeral that `span` covers in `s`. The value is
/// kept exact however large it is; `None` where the text is no numeral.
pub fn parse_decimal(s: &Vec<char>, span: Span) -> (r: Option<CheckedUsize>)
    requires
        span.within(0, s.len() as int),
    ensures
        match r {
            Some(n) => decimal(span.of(s@)) == Some(n@),
            None => decimal(span.of(s@)) is None,
        },
{
    let ghost text = span.of(s@);
    let mut i: usize = span.start;
    if i < span.end && s[i] == '+' {
        i += 1;
    }
    let first: usize = i;
    let ghost body = s@.subrange(first as int, span.end as int);
    assert(body == if text.len() > 0 && text[0] == '+' {
        text.skip(1)
    } else {
        text
    });
    if i >= span.end {
        return None;
    }
    let mut acc: CheckedUsize = CheckedUsize::new(0);
    while i < span.end
        invariant
            first <= i <= span.end <= s.len(),
            first < span.end,
            text == span.of(s@),
            body == s@.subrange(first as int, span.end as int),
            forall|j: int| 0 <= j < i - first ==> is_digit(#[trigger] body[j]),
            acc@ == digits_value(s@.subrange(first as int, i as int)),
            decimal(text) == if is_digits(body) {
                Some(digits_value(body))
            } else {
                None
            },
        decreases span.end - i,
    {
        let c: char = s[i];
        if c < '0' || c > '9' {
            assert(!is_digit(body[i - first]));
            return None;
        }
        let d: usize = (c as u32 - '0' as u32) as usize;
        proof {
            let grown = s@.subrange(first as int, i + 1);
            assert(grown.drop_last() == s@.subrange(first as int, i as int));
            assert(grown.last() == c);
        }
        acc = acc.mul_value(10).add_value(d);
        i += 1;
    }
    assert(s@.subrange(first as int, i as int) == body);
    Some(acc)
}

/// The characters of `s`, in order.
pub fn chars_of(s: &str) -> (v: Vec<char>)
    ensures
        v@ == s@,
{
    let mut v: Vec<char> = Vec::new();
    for c in it: s.chars()
        invariant
            it.seq() == s@,
            v@ == it.seq().take(it.index() as int),
    {
        v.push(c);
    }
    v
}

} // verus!

//! Prices, held as the bit patterns of IEEE 754 single-precision numbers and
//! ordered exactly as those numbers are, and the texts that write a price.

use crate::text::{chars_of, is_digit, is_digits, Span};
use vstd::prelude::*;

verus! {

/// A price: a single-precision floating-point number, kept as its 32 bits
/// (sign, eight exponent bits, twenty-three fraction bits).
///
/// The library never computes with prices, it only orders them, and the
/// order of two such numbers can be read off their bits.
#[derive(Clone, Copy, Debug, PartialEq, Eq)]
pub struct Price {
    pub bits: u32,
}

/// The bit pattern of positive zero.
pub const ZERO_BITS: u32 = 0;

/// The bit pattern of minus one.
pub const MINUS_ONE_BITS: u32 = 0xBF80_0000;

/// The sign bit.
pub const SIGN_BIT: u32 = 0x8000_0000;

/// The bit pattern of positive infinity: the largest magnitude that is a
/// number.
pub const INFINITY_BITS: u32 = 0x7F80_0000;

impl Price {
    /// The bits without the sign bit.
    pub open spec fn magnitude(self) -> int {
        if self.bits >= SIGN_BIT {
            self.bits - SIGN_BIT
        } else {
            self.bits as int
        }
    }

    /// The sign bit is set.
    pub open spec fn is_negative(self) -> bool {
        self.bits >= SIGN_BIT
    }

    /// The bits encode no number (a NaN): the magnitude lies beyond that of
    /// infinity.
    pub open spec fn is_nan(self) -> bool {
        self.magnitude() > INFINITY_BITS
    }

    /// The place of a number in the order of all numbers: magnitudes grow
    /// with the bits, the sign mirrors them, and both zeros share place 0.
    pub open spec fn rank(self) -> int {
        if self.is_negative() {
            -self.magnitude()
        } else {
            self.magnitude()
        }
    }

    /// `self < other` as floating-point numbers: both are numbers and `self`
    /// comes first. A NaN is less than nothing and nothing is less than it.
    pub open spec fn lt(self, other: Price) -> bool {
        !self.is_nan() && !other.is_nan() && self.rank() < other.rank()
    }

    /// `self > 0` as a floating-point number.
    pub open spec fn is_positive(self) -> bool {
        (Price { bits: ZERO_BITS }).lt(self)
    }

    /// The price with the given bit pattern.
    pub fn from_bits(bits: u32) -> (p: Price)
        ensures
            p.bits == bits,
    {
        Price { bits }
    }

    /// The bit pattern of the price.
    pub fn to_bits(&self) -> (bits: u32)
        ensures
            bits == self.bits,
    {
        self.bits
    }

    /// The price zero.
    pub fn zero() -> (p: Price)
        ensures
            p.bits == ZERO_BITS,
    {
        Price { bits: ZERO_BITS }
    }

    /// The price minus one, which no market quotes: it marks a price that has
    /// not been observed yet.
    pub fn minus_one() -> (p: Price)
        ensures
            p.bits == MINUS_ONE_BITS,
            !p.is_positive(),
    {
        Price { bits: MINUS_ONE_BITS }
    }

    /// Whether the bits encode no number.
    pub fn not_a_number(&self) -> (r: bool)
        ensures
            r == self.is_nan(),
    {
        let magnitude: u32 = if self.bits >= SIGN_BIT {
            self.bits - SIGN_BIT
        } else {
            self.bits
        };
        magnitude > INFINITY_BITS
    }

    /// The rank of the price as a machine integer.
    fn signed_rank(&self) -> (r: i64)
        ensures
            r == self.rank(),
    {
        if self.bits >= SIGN_BIT {
            let magnitude: u32 = self.bits - SIGN_BIT;
            0i64 - magnitude as i64
        } else {
            self.bits as i64
        }
    }

    /// Whether `self < other` as floating-point numbers.
    pub fn less_than(&self, other: &Price) -> (r: bool)
        ensures
            r == self.lt(*other),
    {
        if self.not_a_number() || other.not_a_number() {
            false
        } else {
            self.signed_rank() < other.signed_rank()
        }
    }

    /// Whether `self > 0` as a floating-point number.
    pub fn above_zero(&self) -> (r: bool)
        ensures
            r == self.is_positive(),
    {
        Price::zero().less_than(self)
    }
}

/// The number of ASCII digits that `s` starts with.
pub open spec fn leading_digits(s: Seq<char>) -> nat
    decreases s.len(),
{
    if s.len() > 0 && is_digit(s[0]) {
        1 + leading_digits(s.drop_first())
    } else {
        0
    }
}

/// `c` is a plus or a minus sign.
pub open spec fn is_sign(c: char) -> bool {
    c == '+' || c == '-'
}

/// `s` without the sign that it may start with.
pub open spec fn unsigned(s: Seq<char>) -> Seq<char> {
    if s.len() > 0 && is_sign(s[0]) {
        s.skip(1)
    } else {
        s
    }
}

/// `s` is the word that `lower` writes in small letters and `upper` in
/// capitals, each letter in either case.
pub open spec fn spells(s: Seq<char>, lower: Seq<char>, upper: Seq<char>) -> bool {
    s.len() == lower.len() && forall|i: int|
        0 <= i < s.len() ==> s[i] == lower[i] || s[i] == upper[i]
}

/// `s` is an exponent: the letter `e` in either case, an optional sign, and
/// one digit or more.
pub open spec fn is_exponent(s: Seq<char>) -> bool {
    s.len() > 0 && (s[0] == 'e' || s[0] == 'E') && is_digits(unsigned(s.skip(1)))
}

/// `s` is an unsigned decimal number: digits, optionally a point and more
/// digits, optionally an exponent. There is a digit before or after the
/// point: `5.` and `.5` are numbers, `.` is none.
pub open spec fn is_number(s: Seq<char>) -> bool {
    let whole = leading_digits(s);
    let after_whole = s.skip(whole as int);
    let has_point = after_whole.len() > 0 && after_whole[0] == '.';
    let fraction = if has_point {
        leading_digits(after_whole.skip(1))
    } else {
        0
    };
    let rest = if has_point {
        after_whole.skip(1 + fraction as int)
    } else {
        after_whole
    };
    whole + fraction >= 1 && (rest.len() == 0 || is_exponent(rest))
}

/// `s` writes a price: an optional sign, then a decimal number or one of the
/// words `inf`, `infinity` and `nan` in any mix of cases. There is no blank
/// before, inside or after it. This is the grammar by which the standard
/// library reads a floating-point number from a text, so that a caller can
/// read the value of every such text with `str::parse`.
pub open spec fn is_price_text(s: Seq<char>) -> bool {
    let body = unsigned(s);
    is_number(body) || spells(body, seq!['i', 'n', 'f'], seq!['I', 'N', 'F']) || spells(
        body,
        seq!['i', 'n', 'f', 'i', 'n', 'i', 't', 'y'],
        seq!['I', 'N', 'F', 'I', 'N', 'I', 'T', 'Y'],
    ) || spells(body, seq!['n', 'a', 'n'], seq!['N', 'A', 'N'])
}

/// Counts the digits at the start of the characters `from..end` of `s`.
fn count_digits(s: &Vec<char>, from: usize, end: usize) -> (n: usize)
    requires
        from <= end <= s.len(),
    ensures
        n == leading_digits(s@.subrange(from as int, end as int)),
        from + n <= end,
{
    let mut i: usize = from;
    while i < end && s[i] >= '0' && s[i] <= '9'
        invariant
            from <= i <= end <= s.len(),
            leading_digits(s@.subrange(from as int, end as int)) == (i - from) + leading_digits(
                s@.subrange(i as int, end as int),
            ),
        decreases end - i,
    {
        assert(s@.subrange(i as int, end as int).drop_first() == s@.subrange(i + 1, end as int));
        i += 1;
    }
    i - from
}

/// Whether the characters `from..end` of `s` are one digit or more.
fn all_digits(s: &Vec<char>, from: usize, end: usize) -> (r: bool)
    requires
        from <= end <= s.len(),
    ensures
        r == is_digits(s@.subrange(from as int, end as int)),
{
    let ghost text = s@.subrange(from as int, end as int);
    let mut i: usize = from;
    while i < end
        invariant
            from <= i <= end <= s.len(),
            text == s@.subrange(from as int, end as int),
            forall|j: int| 0 <= j < i - from ==> is_digit(#[trigger] text[j]),
        decreases end - i,
    {
        if s[i] < '0' || s[i] > '9' {
            assert(!is_digit(text[i - from]));
            return false;
        }
        i += 1;
    }
    from < end
}

/// The position after the sign that the characters `from..end` of `s` may
/// start with.
fn skip_sign(s: &Vec<char>, from: usize, end: usize) -> (i: usize)
    requires
        from <= end <= s.len(),
    ensures
        from <= i <= end,
        s@.subrange(i as int, end as int) == unsigned(s@.subrange(from as int, end as int)),
{
    if from < end && (s[from] == '+' || s[from] == '-') {
        from + 1
    } else {
        from
    }
}

/// Whether the characters `from..end` of `s` spell a word of three letters.
fn spells_three(s: &Vec<char>, from: usize, end: usize, lower: [char; 3], upper: [char; 3]) -> (r:
    bool)
    requires
        from <= end <= s.len(),
    ensures
        r == spells(s@.subrange(from as int, end as int), lower@, upper@),
{
    if end - from != 3 {
        return false;
    }
    let ghost text = s@.subrange(from as int, end as int);
    let r: bool = (s[from] == lower[0] || s[from] == upper[0]) && (s[from + 1] == lower[1] || s[from
        + 1] == upper[1]) && (s[from + 2] == lower[2] || s[from + 2] == upper[2]);
    assert(text[0] == s@[from as int] && text[1] == s@[from + 1] && text[2] == s@[from + 2]);
    r
}

/// Whether the characters `from..end` of `s` spell a word of eight letters.
fn spells_eight(s: &Vec<char>, from: usize, end: usize, lower: [char; 8], upper: [char; 8]) -> (r:
    bool)
    requires
        from <= end <= s.len(),
    ensures
        r == spells(s@.subrange(from as int, end as int), lower@, upper@),
{
    if end - from != 8 {
        return false;
    }
    let ghost text = s@.subrange(from as int, end as int);
    let mut i: usize = 0;
    while i < 8
        invariant
            0 <= i <= 8,
            from + 8 == end <= s.len(),
            text == s@.subrange(from as int, end as int),
            forall|j: int| 0 <= j < i ==> text[j] == lower@[j] || text[j] == upper@[j],
        decreases 8 - i,
    {
        if !(s[from + i] == lower[i] || s[from + i] == upper[i]) {
            assert(!(text[i as int] == lower@[i as int] || text[i as int] == upper@[i as int]));
            return false;
        }
        i += 1;
    }
    true
}

/// Whether the characters `from..end` of `s` are an unsigned decimal number.
fn number_in(s: &Vec<char>, from: usize, end: usize) -> (r: bool)
    requires
        from <= end <= s.len(),
    ensures
        r == is_number(s@.subrange(from as int, end as int)),
{
    let ghost text = s@.subrange(from as int, end as int);
    let whole: usize = count_digits(s, from, end);
    let mut i: usize = from + whole;
    assert(text.skip(whole as int) == s@.subrange(i as int, end as int));
    let mut fraction: usize = 0;
    if i < end && s[i] == '.' {
        assert(s@.subrange(i as int, end as int).skip(1) == s@.subrange(i + 1, end as int));
        fraction = count_digits(s, i + 1, end);
        assert(s@.subrange(i as int, end as int).skip(1 + fraction) == s@.subrange(
            i + 1 + fraction,
            end as int,
        ));
        i = i + 1 + fraction;
    }
    if whole == 0 && fraction == 0 {
        return false;
    }
    if i == end {
        return true;
    }
    if s[i] != 'e' && s[i] != 'E' {
        return false;
    }
    assert(s@.subrange(i as int, end as int).skip(1) == s@.subrange(i + 1, end as int));
    let digits: usize = skip_sign(s, i + 1, end);
    all_digits(s, digits, end)
}

/// Whether the text that `span` covers in `s` writes a price.
pub fn price_text_in(s: &Vec<char>, span: Span) -> (r: bool)
    requires
        span.within(0, s.len() as int),
    ensures
        r == is_price_text(span.of(s@)),
{
    let body: usize = skip_sign(s, span.start, span.end);
    number_in(s, body, span.end) || spells_three(s, body, span.end, ['i', 'n', 'f'], ['I', 'N', 'F'])
        || spells_eight(
        s,
        body,
        span.end,
        ['i', 'n', 'f', 'i', 'n', 'i', 't', 'y'],
        ['I', 'N', 'F', 'I', 'N', 'I', 'T', 'Y'],
    ) || spells_three(s, body, span.end, ['n', 'a', 'n'], ['N', 'A', 'N'])
}

/// Whether `text` writes a price.
pub fn is_price(text: &str) -> (r: bool)
    ensures
        r == is_price_text(text@),
{
    let s: Vec<char> = chars_of(text);
    let whole: Span = Span { start: 0, end: s.len() };
    assert(whole.of(s@) == text@);
    price_text_in(&s, whole)
}

} // verus!

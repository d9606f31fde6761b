use spread_join::text::{chars_of, parse_decimal, split_range, Span};

fn parts(text: &str, sep: char) -> Vec<String> {
    let s = chars_of(text);
    split_range(&s, 0, s.len(), sep)
        .iter()
        .map(|span| s[span.start..span.end].iter().collect::<String>())
        .collect()
}

fn std_parts(text: &str, sep: char) -> Vec<String> {
    text.split(sep).map(|part| part.to_string()).collect()
}

fn number(text: &str) -> Option<Option<usize>> {
    let s = chars_of(text);
    parse_decimal(&s, Span { start: 0, end: s.len() }).map(|n| n.to_option())
}

#[test]
fn chars_of_keeps_every_character_in_order() {
    assert_eq!(chars_of(""), Vec::<char>::new());
    assert_eq!(chars_of("a,b"), vec!['a', ',', 'b']);
    assert_eq!(chars_of("\u{00e9}\u{4e2d}x"), vec!['\u{00e9}', '\u{4e2d}', 'x']);
}

#[test]
fn split_cuts_at_every_separator() {
    assert_eq!(parts("a,b,c", ','), vec!["a", "b", "c"]);
    assert_eq!(parts("09:00:00.500,9.5", ','), vec!["09:00:00.500", "9.5"]);
}

#[test]
fn split_of_a_text_without_separator_is_the_text() {
    assert_eq!(parts("abc", ','), vec!["abc"]);
    assert_eq!(parts("", ','), vec![""]);
}

#[test]
fn split_keeps_empty_parts() {
    assert_eq!(parts(",", ','), vec!["", ""]);
    assert_eq!(parts("a,,b", ','), vec!["a", "", "b"]);
    assert_eq!(parts(",a", ','), vec!["", "a"]);
    assert_eq!(parts("a,", ','), vec!["a", ""]);
    assert_eq!(parts(",,,", ','), vec!["", "", "", ""]);
}

#[test]
fn split_agrees_with_the_standard_library() {
    let texts = [
        "", ",", "a", "a,b", ",a,", "a,,b,", "01:02:03.004", "::", "x:y", "\u{00e9},\u{4e2d}",
        "1,2,3,4,5,6,7,8,9", ",,,,", "no separator at all",
    ];
    for text in texts {
        for sep in [',', ':', '.'] {
            assert_eq!(parts(text, sep), std_parts(text, sep));
        }
    }
}

#[test]
fn split_of_a_range_stays_inside_the_range() {
    let s = chars_of("a:b.c:d.e");
    let spans = split_range(&s, 2, 7, '.');
    let got: Vec<(usize, usize)> = spans.iter().map(|span| (span.start, span.end)).collect();
    assert_eq!(got, vec![(2, 3), (4, 7)]);
    let empty = split_range(&s, 4, 4, '.');
    let got: Vec<(usize, usize)> = empty.iter().map(|span| (span.start, span.end)).collect();
    assert_eq!(got, vec![(4, 4)]);
}

#[test]
fn a_numeral_is_digits_with_an_optional_plus() {
    assert_eq!(number("0"), Some(Some(0)));
    assert_eq!(number("42"), Some(Some(42)));
    assert_eq!(number("+42"), Some(Some(42)));
    assert_eq!(number("007"), Some(Some(7)));
    assert_eq!(number("1234567890"), Some(Some(1_234_567_890)));
}

#[test]
fn what_is_no_numeral() {
    assert_eq!(number(""), None);
    assert_eq!(number("+"), None);
    assert_eq!(number("-1"), None);
    assert_eq!(number("1 "), None);
    assert_eq!(number(" 1"), None);
    assert_eq!(number("1.0"), None);
    assert_eq!(number("1e3"), None);
    assert_eq!(number("0x10"), None);
    assert_eq!(number("+-1"), None);
    assert_eq!(number("1_000"), None);
}

#[test]
fn a_numeral_beyond_the_machine_is_still_a_numeral() {
    assert_eq!(number(&format!("{}", usize::MAX)), Some(Some(usize::MAX)));
    assert_eq!(number(&format!("{}0", usize::MAX)), Some(None));
    assert_eq!(number("340282366920938463463374607431768211456"), Some(None));
}

#[test]
fn numerals_agree_with_the_standard_library() {
    let texts = [
        "", "+", "-", "0", "+0", "-0", "12", "+12", "-12", "1a", "a1", " 1", "1 ", "00", "0012",
        "18446744073709551615", "18446744073709551616", "99999999999999999999", "++1", "1+",
    ];
    for text in texts {
        let expected: Option<usize> = text.parse::<usize>().ok();
        let got: Option<usize> = number(text).and_then(|n| n);
        assert_eq!(got, expected);
    }
}

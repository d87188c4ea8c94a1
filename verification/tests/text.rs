use nommy::buffer::{Buf, Buffer};
use nommy::error::ParseError;
use nommy::text::contains_char;
use nommy::text::one_of::{
    not_in_range_message, not_one_of_message, range_error_message, show_range, OneInRange,
    OneInRangeError, OneOf,
};
use nommy::text::tag::{mismatch_message, Tag};

fn buffer(text: &str) -> Buf<char> {
    Buf::new(text.chars().collect())
}

fn rest(input: &mut Buf<char>) -> String {
    let mut text = String::new();
    while let Some(c) = input.next() {
        text.push(c);
    }
    text
}

#[test]
fn tag_leaves_the_rest() {
    let mut input = buffer("foobarbaz");
    Tag::new("foobar").parse(&mut input).unwrap();
    assert_eq!(rest(&mut input), "baz");
}

#[test]
fn tag_then_tag() {
    let mut input = buffer("foobarbaz");
    Tag::new("foobar").parse(&mut input).unwrap();
    Tag::new("baz").parse(&mut input).unwrap();
    assert_eq!(input.next(), None);
}

#[test]
fn empty_tag_matches_everywhere() {
    let mut input = buffer("x");
    assert!(Tag::new("").peek(&mut input));
    Tag::new("").parse(&mut input).unwrap();
    assert_eq!(input.available(), 1);
    let mut empty = buffer("");
    assert!(Tag::new("").peek(&mut empty));
    Tag::new("").parse(&mut empty).unwrap();
}

#[test]
fn tag_peek_failure_stays_in_place() {
    let mut input = buffer("foobaz");
    assert!(!Tag::new("foobar").peek(&mut input));
    assert_eq!(input.available(), 6);
    assert!(Tag::new("foo").peek(&mut input));
    assert_eq!(rest(&mut input), "baz");
}

#[test]
fn tag_peek_on_short_input() {
    let mut input = buffer("fo");
    assert!(!Tag::new("foo").peek(&mut input));
    assert_eq!(input.available(), 2);
}

#[test]
fn tag_error_on_short_input() {
    let mut input = buffer("fo");
    let e = Tag::new("foo").parse(&mut input).unwrap_err();
    assert_eq!(e.to_string(), "failed to parse tag \"foo\", found \"fo\"");
    assert_eq!(input.available(), 0);
}

#[test]
fn tag_error_reads_as_many_tokens_as_the_tag_has() {
    let mut input = buffer("abcdef");
    let e = Tag::new("abx").parse(&mut input).unwrap_err();
    assert_eq!(e.to_string(), "failed to parse tag \"abx\", found \"abc\"");
    assert_eq!(rest(&mut input), "def");
}

#[test]
fn tag_error_escapes_what_it_shows() {
    let mut input = buffer("\"\n");
    let e = Tag::new("\t!").parse(&mut input).unwrap_err();
    assert_eq!(e.to_string(), "failed to parse tag \"\\t!\", found \"\\\"\\n\"");
}

#[test]
fn tag_counts_characters_not_bytes() {
    let mut input = buffer("éx");
    assert!(Tag::new("é").peek(&mut input.cursor()));
    Tag::new("é").parse(&mut input).unwrap();
    assert_eq!(rest(&mut input), "x");
}

#[test]
fn tag_as_str_and_duplicate() {
    let tag = Tag::new("let");
    assert_eq!(tag.as_str(), "let");
    assert_eq!(tag.duplicate(), tag);
}

#[test]
fn mismatch_message_text() {
    assert_eq!(mismatch_message("A", "B"), "failed to parse tag A, found B");
}

#[test]
fn one_of_parses_a_member() {
    let mut input = buffer("-");
    assert_eq!(OneOf::new("-_").parse(&mut input).unwrap(), '-');
    assert_eq!(input.next(), None);
}

#[test]
fn one_of_rejects_a_stranger() {
    let mut input = buffer("a");
    let e = OneOf::new("-_").parse(&mut input).unwrap_err();
    assert_eq!(e.to_string(), "error parsing one of \"-_\", found 'a'");
    assert_eq!(input.available(), 0);
}

#[test]
fn one_of_at_the_end() {
    let mut input = buffer("");
    let e = OneOf::new("-_").parse(&mut input).unwrap_err();
    assert_eq!(e.to_string(), "error parsing one of \"-_\", reached EOF");
}

#[test]
fn one_of_peek() {
    let mut input = buffer("_a");
    let set = OneOf::new("-_");
    assert!(set.peek(&mut input));
    assert_eq!(input.available(), 1);
    assert!(!set.peek(&mut input));
    assert_eq!(input.available(), 1);
    assert_eq!(input.next(), Some('a'));
    assert!(!set.peek(&mut input));
    assert_eq!(set.as_str(), "-_");
    assert_eq!(set.duplicate(), set);
}

#[test]
fn contains_char_finds_members() {
    assert!(contains_char("abc", 'a'));
    assert!(contains_char("abc", 'c'));
    assert!(!contains_char("abc", 'd'));
    assert!(!contains_char("", 'a'));
    assert!(contains_char("aé", 'é'));
}

#[test]
fn one_in_range_parses_a_digit() {
    let mut input = buffer("12");
    assert_eq!(OneInRange::new('0', '9').parse(&mut input).unwrap(), '1');
    assert_eq!(rest(&mut input), "2");
}

#[test]
fn one_in_range_named_ranges() {
    let mut input = buffer("helloWorld");
    assert_eq!(OneInRange::lowercase().parse(&mut input).unwrap(), 'h');
    let mut input = buffer("HELLOworld");
    assert_eq!(OneInRange::uppercase().parse(&mut input).unwrap(), 'H');
    let mut input = buffer("1024$");
    assert_eq!(OneInRange::digits().parse(&mut input).unwrap(), '1');
    assert_eq!(OneInRange::digits(), OneInRange::new('0', '9'));
}

#[test]
fn one_in_range_bounds_are_included() {
    let digits = OneInRange::digits();
    assert!(digits.contains('0'));
    assert!(digits.contains('9'));
    assert!(!digits.contains('/'));
    assert!(!digits.contains(':'));
}

#[test]
fn one_in_range_rejects_a_stranger() {
    let mut input = buffer("x1");
    let e = OneInRange::digits().parse(&mut input).unwrap_err();
    assert_eq!(e.to_string(), "could not parse char in range '0'..='9', found 'x'");
    assert_eq!(rest(&mut input), "1");
}

#[test]
fn one_in_range_at_the_end() {
    let mut input = buffer("");
    let e = OneInRange::digits().parse(&mut input).unwrap_err();
    assert_eq!(e.to_string(), "could not parse char in range '0'..='9', reached EOF");
}

#[test]
fn one_in_range_peek() {
    let mut input = buffer("7x");
    let digits = OneInRange::digits();
    assert!(digits.peek(&mut input));
    assert!(!digits.peek(&mut input));
    assert_eq!(rest(&mut input), "x");
    assert!(!digits.peek(&mut buffer("")));
}

#[test]
fn one_in_range_error_text() {
    let e = OneInRangeError { low: 'a', high: 'z', found: Some('A') };
    assert_eq!(e.to_string(), "error parsing one char in 'a'..='z', found 'A'");
    let e = OneInRangeError { low: 'a', high: 'z', found: None };
    assert_eq!(e.to_string(), "error parsing one char in 'a'..='z', EOF");
    let e = OneInRangeError { low: '\'', high: '\n', found: Some('\t') };
    assert_eq!(e.to_string(), "error parsing one char in '\\''..='\\n', found '\\t'");
}

#[test]
fn message_builders() {
    assert_eq!(show_range("L", "H"), "L..=H");
    assert_eq!(not_one_of_message("S", Some("C")), "error parsing one of S, found C");
    assert_eq!(not_one_of_message("S", None), "error parsing one of S, reached EOF");
    assert_eq!(
        not_in_range_message("R", Some("C")),
        "could not parse char in range R, found C"
    );
    assert_eq!(not_in_range_message("R", None), "could not parse char in range R, reached EOF");
    assert_eq!(range_error_message("R", Some("C")), "error parsing one char in R, found C");
    assert_eq!(range_error_message("R", None), "error parsing one char in R, EOF");
}

#[test]
fn parse_error_chain() {
    let e = ParseError::new(String::from("root"));
    assert_eq!(e.len(), 1);
    assert_eq!(e.to_string(), "root");
    let e = e.wrap(String::from("inner")).wrap(String::from("outer"));
    assert_eq!(e.len(), 3);
    assert_eq!(e.message(0), "outer");
    assert_eq!(e.message(1), "inner");
    assert_eq!(e.message(2), "root");
    assert_eq!(e.to_string(), "outer: inner: root");
}

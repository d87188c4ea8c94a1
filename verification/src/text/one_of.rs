//! Parsers for one character of a set or of a range.

use crate::buffer::Buffer;
use crate::error::ParseError;
use crate::text::{contains_char, debug_char, debug_str, show_char, show_str};
use vstd::prelude::*;

verus! {

/// A parser that matches one character out of a given set.
#[derive(Debug, Clone, PartialEq, Eq)]
pub struct OneOf {
    chars: String,
}

impl View for OneOf {
    type V = Seq<char>;

    /// The characters of the set.
    closed spec fn view(&self) -> Seq<char> {
        self.chars@
    }
}

/// Whether `input` begins with a character of `chars`.
pub open spec fn one_of_accepts(chars: Seq<char>, input: Seq<char>) -> bool {
    input.len() > 0 && chars.contains(input[0])
}

/// How many tokens a parser of one character reads: one, or none at the end
/// of the input.
pub open spec fn one_taken(input: Seq<char>) -> nat {
    if input.len() > 0 {
        1
    } else {
        0
    }
}

/// The text to show for the token that stands where one character is
/// expected: its `Debug` form, or `None` at the end of the input.
pub open spec fn shown_token(input: Seq<char>) -> Option<Seq<char>> {
    if input.len() > 0 {
        Some(debug_char(input[0]))
    } else {
        None
    }
}

/// The message of a character that is not in the set, from the texts to show
/// for the set and for the character (`None` at the end of the input).
pub open spec fn one_of_message(set: Seq<char>, found: Option<Seq<char>>) -> Seq<char> {
    match found {
        Some(c) => "error parsing one of "@ + set + ", found "@ + c,
        None => "error parsing one of "@ + set + ", reached EOF"@,
    }
}

/// Assembles the message of a character that is not in the set. `set` and
/// `found` are the texts to show; `found` is `None` at the end of the input.
pub fn not_one_of_message(set: &str, found: Option<&str>) -> (message: String)
    ensures
        message@ == one_of_message(
            set@,
            match found {
                Some(c) => Some(c@),
                None => None,
            },
        ),
{
    let mut message = String::from_str("error parsing one of ");
    message.append(set);
    match found {
        Some(c) => {
            message.append(", found ");
            message.append(c);
        },
        None => {
            message.append(", reached EOF");
        },
    }
    message
}

impl OneOf {
    /// The parser for one character out of `chars`.
    pub fn new(chars: &str) -> (p: OneOf)
        ensures
            p@ == chars@,
    {
        OneOf { chars: String::from_str(chars) }
    }

    /// A copy of the parser.
    pub fn duplicate(&self) -> (copy: OneOf)
        ensures
            copy == *self,
    {
        OneOf { chars: self.chars.clone() }
    }

    /// The set as a string.
    pub fn as_str(&self) -> (s: &str)
        ensures
            s@ == self@,
    {
        self.chars.as_str()
    }

    /// Tests whether the next token is in the set. If it is, it is read; if
    /// not, `input` stays where it was.
    pub fn peek<B: Buffer<char>>(&self, input: &mut B) -> (ok: bool)
        ensures
            ok == one_of_accepts(self@, old(input).remaining()),
            ok ==> final(input).remaining() == old(input).remaining().skip(1),
            !ok ==> final(input).remaining() == old(input).remaining(),
    {
        match input.peek_one() {
            Some(c) => {
                if contains_char(self.chars.as_str(), c) {
                    input.fast_forward(1);
                    true
                } else {
                    false
                }
            },
            None => false,
        }
    }

    /// Reads one token and returns it if it is in the set. The error names
    /// the set and the token that was read, or the end of the input.
    pub fn parse<B: Buffer<char>>(&self, input: &mut B) -> (r: Result<char, ParseError>)
        ensures
            r.is_ok() == one_of_accepts(self@, old(input).remaining()),
            r matches Ok(c) ==> c == old(input).remaining()[0],
            final(input).remaining() == old(input).remaining().skip(
                one_taken(old(input).remaining()) as int,
            ),
            r matches Err(e) ==> e@ == seq![
                one_of_message(debug_str(self@), shown_token(old(input).remaining())),
            ],
    {
        let ghost start = input.remaining();
        match input.next() {
            Some(c) => {
                if contains_char(self.chars.as_str(), c) {
                    Ok(c)
                } else {
                    let set = show_str(self.chars.as_str());
                    let seen = show_char(c);
                    Err(ParseError::new(not_one_of_message(set.as_str(), Some(seen.as_str()))))
                }
            },
            None => {
                assert(start.skip(0) =~= start);
                let set = show_str(self.chars.as_str());
                Err(ParseError::new(not_one_of_message(set.as_str(), None)))
            },
        }
    }
}

/// Whether `c` lies between `low` and `high`, both included.
pub open spec fn in_range(low: char, high: char, c: char) -> bool {
    low <= c && c <= high
}

/// Whether `input` begins with a character between `low` and `high`.
pub open spec fn range_accepts(low: char, high: char, input: Seq<char>) -> bool {
    input.len() > 0 && in_range(low, high, input[0])
}

/// The text of an inclusive range, from the texts to show for its two ends.
pub open spec fn range_text(low: Seq<char>, high: Seq<char>) -> Seq<char> {
    low + "..="@ + high
}

/// The message of a character outside the range, from the texts to show for
/// the range and for the character (`None` at the end of the input).
pub open spec fn range_message(range: Seq<char>, found: Option<Seq<char>>) -> Seq<char> {
    match found {
        Some(c) => "could not parse char in range "@ + range + ", found "@ + c,
        None => "could not parse char in range "@ + range + ", reached EOF"@,
    }
}

/// The text of a [`OneInRangeError`], from the texts to show for the range
/// and for the character (`None` at the end of the input).
pub open spec fn range_error_text(range: Seq<char>, found: Option<Seq<char>>) -> Seq<char> {
    match found {
        Some(c) => "error parsing one char in "@ + range + ", found "@ + c,
        None => "error parsing one char in "@ + range + ", EOF"@,
    }
}

/// Assembles the text of an inclusive range from the texts of its two ends.
pub fn show_range(low: &str, high: &str) -> (range: String)
    ensures
        range@ == range_text(low@, high@),
{
    let mut range = String::from_str(low);
    range.append("..=");
    range.append(high);
    range
}

/// Assembles the message of a character outside the range. `range` and
/// `found` are the texts to show; `found` is `None` at the end of the input.
pub fn not_in_range_message(range: &str, found: Option<&str>) -> (message: String)
    ensures
        message@ == range_message(
            range@,
            match found {
                Some(c) => Some(c@),
                None => None,
            },
        ),
{
    let mut message = String::from_str("could not parse char in range ");
    message.append(range);
    match found {
        Some(c) => {
            message.append(", found ");
            message.append(c);
        },
        None => {
            message.append(", reached EOF");
        },
    }
    message
}

/// Assembles the text of a [`OneInRangeError`]. `range` and `found` are the
/// texts to show; `found` is `None` at the end of the input.
pub fn range_error_message(range: &str, found: Option<&str>) -> (message: String)
    ensures
        message@ == range_error_text(
            range@,
            match found {
                Some(c) => Some(c@),
                None => None,
            },
        ),
{
    let mut message = String::from_str("error parsing one char in ");
    message.append(range);
    match found {
        Some(c) => {
            message.append(", found ");
            message.append(c);
        },
        None => {
            message.append(", EOF");
        },
    }
    message
}

/// What went wrong where one character of a range was expected: the range,
/// and the character that stood there, if any.
#[derive(Debug, Clone, Copy, PartialEq, Eq)]
pub struct OneInRangeError {
    pub low: char,
    pub high: char,
    pub found: Option<char>,
}

impl OneInRangeError {
    /// The error as text: the range, then the character found or the end of
    /// the input.
    pub fn to_string(&self) -> (text: String)
        ensures
            text@ == range_error_text(
                range_text(debug_char(self.low), debug_char(self.high)),
                match self.found {
                    Some(c) => Some(debug_char(c)),
                    None => None,
                },
            ),
    {
        let low = show_char(self.low);
        let high = show_char(self.high);
        let range = show_range(low.as_str(), high.as_str());
        match self.found {
            Some(c) => {
                let seen = show_char(c);
                range_error_message(range.as_str(), Some(seen.as_str()))
            },
            None => range_error_message(range.as_str(), None),
        }
    }
}

/// A parser that matches one character of an inclusive range.
#[derive(Debug, Clone, Copy, PartialEq, Eq)]
pub struct OneInRange {
    pub low: char,
    pub high: char,
}

impl OneInRange {
    /// The parser for one character between `low` and `high`, both included.
    pub fn new(low: char, high: char) -> (p: OneInRange)
        ensures
            p.low == low,
            p.high == high,
    {
        OneInRange { low, high }
    }

    /// The parser for one lower-case ASCII letter.
    pub fn lowercase() -> (p: OneInRange)
        ensures
            p.low == 'a',
            p.high == 'z',
    {
        OneInRange { low: 'a', high: 'z' }
    }

    /// The parser for one upper-case ASCII letter.
    pub fn uppercase() -> (p: OneInRange)
        ensures
            p.low == 'A',
            p.high == 'Z',
    {
        OneInRange { low: 'A', high: 'Z' }
    }

    /// The parser for one ASCII digit.
    pub fn digits() -> (p: OneInRange)
        ensures
            p.low == '0',
            p.high == '9',
    {
        OneInRange { low: '0', high: '9' }
    }

    /// Whether the range holds `c`.
    pub fn contains(&self, c: char) -> (held: bool)
        ensures
            held == in_range(self.low, self.high, c),
    {
        self.low <= c && c <= self.high
    }

    /// Tests whether the next token is in the range. If it is, it is read; if
    /// not, `input` stays where it was.
    pub fn peek<B: Buffer<char>>(&self, input: &mut B) -> (ok: bool)
        ensures
            ok == range_accepts(self.low, self.high, old(input).remaining()),
            ok ==> final(input).remaining() == old(input).remaining().skip(1),
            !ok ==> final(input).remaining() == old(input).remaining(),
    {
        match input.peek_one() {
            Some(c) => {
                if self.contains(c) {
                    input.fast_forward(1);
                    true
                } else {
                    false
                }
            },
            None => false,
        }
    }

    /// Reads one token and returns it if it is in the range. The error names
    /// the range and the token that was read, or the end of the input.
    pub fn parse<B: Buffer<char>>(&self, input: &mut B) -> (r: Result<char, ParseError>)
        ensures
            r.is_ok() == range_accepts(self.low, self.high, old(input).remaining()),
            r matches Ok(c) ==> c == old(input).remaining()[0],
            final(input).remaining() == old(input).remaining().skip(
                one_taken(old(input).remaining()) as int,
            ),
            r matches Err(e) ==> e@ == seq![
                range_message(
                    range_text(debug_char(self.low), debug_char(self.high)),
                    shown_token(old(input).remaining()),
                ),
            ],
    {
        let ghost start = input.remaining();
        match input.next() {
            Some(c) => {
                if self.contains(c) {
                    Ok(c)
                } else {
                    let low = show_char(self.low);
                    let high = show_char(self.high);
                    let range = show_range(low.as_str(), high.as_str());
                    let seen = show_char(c);
                    Err(
                        ParseError::new(
                            not_in_range_message(range.as_str(), Some(seen.as_str())),
                        ),
                    )
                }
            },
            None => {
                assert(start.skip(0) =~= start);
                let low = show_char(self.low);
                let high = show_char(self.high);
                let range = show_range(low.as_str(), high.as_str());
                Err(ParseError::new(not_in_range_message(range.as_str(), None)))
            },
        }
    }
}

} // verus!

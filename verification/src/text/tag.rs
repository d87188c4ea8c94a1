//! The literal tag.

use crate::buffer::Buffer;
use crate::error::ParseError;
use crate::text::{debug_str, show_str};
use vstd::prelude::*;

verus! {

/// A parser that matches one fixed string, character for character. The empty
/// tag matches everywhere and reads nothing.
#[derive(Debug, Clone, PartialEq, Eq)]
pub struct Tag {
    tag: String,
}

impl View for Tag {
    type V = Seq<char>;

    /// The characters of the tag.
    closed spec fn view(&self) -> Seq<char> {
        self.tag@
    }
}

/// Whether `input` begins with `tag`.
pub open spec fn tag_matches(tag: Seq<char>, input: Seq<char>) -> bool {
    tag.len() <= input.len() && input.take(tag.len() as int) == tag
}

/// What a parse of `tag` reads from `input`: as many tokens as the tag has
/// characters, or all of the input if it is shorter.
pub open spec fn tag_taken(tag: Seq<char>, input: Seq<char>) -> Seq<char> {
    if tag.len() <= input.len() {
        input.take(tag.len() as int)
    } else {
        input
    }
}

/// The message of a tag that did not match, from the `Debug` forms of the tag
/// and of what was read in its place.
pub open spec fn tag_message(expected: Seq<char>, found: Seq<char>) -> Seq<char> {
    "failed to parse tag "@ + expected + ", found "@ + found
}

/// Assembles the message of a tag that did not match. `expected` and `found`
/// are the texts to show for the tag and for what was read.
pub fn mismatch_message(expected: &str, found: &str) -> (message: String)
    ensures
        message@ == tag_message(expected@, found@),
{
    let mut message = String::from_str("failed to parse tag ");
    message.append(expected);
    message.append(", found ");
    message.append(found);
    message
}

impl Tag {
    /// The parser for the literal `tag`.
    pub fn new(tag: &str) -> (t: Tag)
        ensures
            t@ == tag@,
    {
        Tag { tag: String::from_str(tag) }
    }

    /// A copy of the parser.
    pub fn duplicate(&self) -> (copy: Tag)
        ensures
            copy == *self,
    {
        Tag { tag: self.tag.clone() }
    }

    /// The literal as a string.
    pub fn as_str(&self) -> (s: &str)
        ensures
            s@ == self@,
    {
        self.tag.as_str()
    }

    /// Tests whether the input begins with the tag. If it does, the tag is
    /// read; if not, `input` stays where it was.
    pub fn peek<B: Buffer<char>>(&self, input: &mut B) -> (ok: bool)
        ensures
            ok == tag_matches(self@, old(input).remaining()),
            ok ==> final(input).remaining() == old(input).remaining().skip(self@.len() as int),
            !ok ==> final(input).remaining() == old(input).remaining(),
    {
        let n: usize = self.tag.as_str().unicode_len();
        if input.available() < n {
            return false;
        }
        let mut cursor = input.cursor();
        let mut i: usize = 0;
        while i < n
            invariant
                n == self@.len(),
                n <= input.remaining().len(),
                i <= n,
                cursor.remaining() == input.remaining().skip(i as int),
                input.remaining().take(i as int) == self@.take(i as int),
            decreases n - i,
        {
            let expected = self.tag.as_str().get_char(i);
            let token = cursor.next();
            assert(token == Some(input.remaining()[i as int]));
            assert(cursor.remaining() =~= input.remaining().skip(i + 1));
            if token != Some(expected) {
                proof {
                    if tag_matches(self@, input.remaining()) {
                        assert(input.remaining().take(n as int)[i as int] == self@[i as int]);
                    }
                }
                return false;
            }
            assert(input.remaining().take(i + 1) =~= self@.take(i + 1));
            i = i + 1;
        }
        assert(self@.take(n as int) =~= self@);
        input.fast_forward(n);
        true
    }

    /// Reads as many tokens as the tag has characters and compares them with
    /// the tag. The error names the tag and what was read in its place.
    pub fn parse<B: Buffer<char>>(&self, input: &mut B) -> (r: Result<(), ParseError>)
        ensures
            r.is_ok() == tag_matches(self@, old(input).remaining()),
            final(input).remaining() == old(input).remaining().skip(
                tag_taken(self@, old(input).remaining()).len() as int,
            ),
            r matches Err(e) ==> e@ == seq![
                tag_message(debug_str(self@), debug_str(tag_taken(self@, old(input).remaining()))),
            ],
    {
        let n: usize = self.tag.as_str().unicode_len();
        let mut found = String::new();
        let mut i: usize = 0;
        let ghost start = input.remaining();
        while i < n
            invariant_except_break
                input.remaining() == start.skip(i as int),
                found@ == start.take(i as int),
                i <= start.len(),
            invariant
                n == self@.len(),
                i <= n,
            ensures
                found@ == tag_taken(self@, start),
                input.remaining() == start.skip(found@.len() as int),
            decreases n - i,
        {
            match input.next() {
                Some(c) => {
                    found.push(c);
                    assert(input.remaining() =~= start.skip(i + 1));
                    assert(found@ =~= start.take(i + 1));
                    i = i + 1;
                },
                None => {
                    assert(start.skip(i as int).len() == 0);
                    assert(start.take(i as int) =~= start);
                    break;
                },
            }
        }
        if found == self.tag {
            Ok(())
        } else {
            let expected = show_str(self.tag.as_str());
            let seen = show_str(found.as_str());
            Err(ParseError::new(mismatch_message(expected.as_str(), seen.as_str())))
        }
    }
}

} // verus!

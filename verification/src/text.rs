//! Parsers for text: literal tags and single characters of a class.

use vstd::prelude::*;

pub mod one_of;
pub mod tag;

verus! {

/// What `{:?}` prints for a string: the string in double quotes, with the
/// characters that need it escaped.
pub uninterp spec fn debug_str(s: Seq<char>) -> Seq<char>;

/// What `{:?}` prints for a character: the character in single quotes,
/// escaped where it needs to be.
pub uninterp spec fn debug_char(c: char) -> Seq<char>;

/// Formats a string with `{:?}`, the `Debug` form that `std` gives to `str`.
/// The result is a function of the string alone; the contract names it and
/// says nothing of what it holds.
#[verifier::external_body]
pub(crate) fn show_str(s: &str) -> (shown: String)
    ensures
        shown@ == debug_str(s@),
{
    format!("{:?}", s)
}

/// Formats a character with `{:?}`, the `Debug` form that `std` gives to
/// `char`. The result is a function of the character alone; the contract
/// names it and says nothing of what it holds.
#[verifier::external_body]
pub(crate) fn show_char(c: char) -> (shown: String)
    ensures
        shown@ == debug_char(c),
{
    format!("{:?}", c)
}

/// What `str::to_lowercase` makes of a string: its lower-case form after
/// Unicode.
pub uninterp spec fn lowercase(s: Seq<char>) -> Seq<char>;

/// Turns a string into lower case with `str::to_lowercase`. The result is a
/// function of the string alone; the contract names it and says nothing of
/// what it holds.
#[verifier::external_body]
pub(crate) fn to_lower(s: &str) -> (lowered: String)
    ensures
        lowered@ == lowercase(s@),
{
    s.to_lowercase()
}

/// `String::push` appends one character to the string.
pub assume_specification[ String::push ](s: &mut String, ch: char)
    ensures
        final(s)@ == old(s)@.push(ch),
;

/// Whether `c` occurs in `chars`.
pub fn contains_char(chars: &str, c: char) -> (found: bool)
    ensures
        found == chars@.contains(c),
{
    let n: usize = chars.unicode_len();
    let mut i: usize = 0;
    while i < n
        invariant
            n == chars@.len(),
            i <= n,
            forall|j: int| 0 <= j < i ==> chars@[j] != c,
        decreases n - i,
    {
        if chars.get_char(i) == c {
            return true;
        }
        i = i + 1;
    }
    false
}

} // verus!

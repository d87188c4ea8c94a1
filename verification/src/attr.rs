//! The directives that shape a derived parser.

use crate::buffer::Buffer;
use crate::parsers::{texts_of, TypeRef};
use vstd::prelude::*;

verus! {

/// Which characters a derived parser skips between two elements.
#[derive(Debug, Clone, Copy, PartialEq, Eq)]
pub enum IgnoreWS {
    /// The space and the tab.
    Spaces,
    /// The space, the tab, the line feed and the carriage return.
    All,
}

/// The directives of a whole datatype. They hold for each variant of an enum.
#[derive(Debug)]
pub struct GlobalAttr {
    /// What to skip between two elements; `None` skips nothing.
    pub ignore_whitespace: Option<IgnoreWS>,
    /// The literal that stands before the first field.
    pub prefix: Option<String>,
    /// The literal that stands after the last field.
    pub suffix: Option<String>,
}

/// The directives of one field.
#[derive(Debug)]
pub struct FieldAttr {
    /// The literal that stands before the field.
    pub prefix: Option<String>,
    /// The literal that stands after the field.
    pub suffix: Option<String>,
    /// The parser to use in place of the one of the field's declared type.
    pub parser: Option<TypeRef>,
}

/// A parameter of a generic datatype.
#[derive(Debug)]
pub enum GenericParam {
    /// A type parameter.
    Type(String),
    /// A lifetime parameter.
    Lifetime(String),
    /// A constant parameter.
    Const(String),
}

/// The text of an optional string.
pub open spec fn text_of(s: Option<String>) -> Option<Seq<char>> {
    match s {
        Some(s) => Some(s@),
        None => None,
    }
}

/// The model of a [`GlobalAttr`].
pub struct Directives {
    pub ignore_whitespace: Option<IgnoreWS>,
    pub prefix: Option<Seq<char>>,
    pub suffix: Option<Seq<char>>,
}

impl View for GlobalAttr {
    type V = Directives;

    open spec fn view(&self) -> Directives {
        Directives {
            ignore_whitespace: self.ignore_whitespace,
            prefix: text_of(self.prefix),
            suffix: text_of(self.suffix),
        }
    }
}

/// A copy of an optional string.
pub fn clone_text(s: &Option<String>) -> (copy: Option<String>)
    ensures
        copy == *s,
{
    match s {
        Some(s) => Some(s.clone()),
        None => None,
    }
}

impl GlobalAttr {
    /// A copy of the directives.
    pub fn duplicate(&self) -> (copy: GlobalAttr)
        ensures
            copy == *self,
    {
        GlobalAttr {
            ignore_whitespace: self.ignore_whitespace,
            prefix: clone_text(&self.prefix),
            suffix: clone_text(&self.suffix),
        }
    }
}

/// The names of the type parameters among `generics`, in order.
pub open spec fn type_names(generics: Seq<GenericParam>) -> Seq<Seq<char>>
    decreases generics.len(),
{
    if generics.len() == 0 {
        Seq::empty()
    } else {
        match generics.last() {
            GenericParam::Type(name) => type_names(generics.drop_last()).push(name@),
            _ => type_names(generics.drop_last()),
        }
    }
}

/// Picks the names of the type parameters out of `generics`.
pub fn type_params(generics: &Vec<GenericParam>) -> (names: Vec<String>)
    ensures
        texts_of(names@) == type_names(generics@),
{
    let mut names: Vec<String> = Vec::new();
    let n: usize = generics.len();
    let mut i: usize = 0;
    proof {
        assert(generics@.take(0) =~= Seq::<GenericParam>::empty());
        assert(texts_of(names@) =~= Seq::<Seq<char>>::empty());
    }
    while i < n
        invariant
            n == generics@.len(),
            i <= n,
            texts_of(names@) == type_names(generics@.take(i as int)),
        decreases n - i,
    {
        proof {
            assert(generics@.take(i + 1).drop_last() =~= generics@.take(i as int));
        }
        match &generics[i] {
            GenericParam::Type(name) => {
                let ghost before = names@;
                let copy = name.clone();
                names.push(copy);
                assert(texts_of(names@) =~= texts_of(before).push(name@));
            },
            _ => {},
        }
        i = i + 1;
    }
    proof {
        assert(generics@.take(n as int) =~= generics@);
    }
    names
}

/// Whether the policy skips `c`.
pub open spec fn is_ignored(policy: IgnoreWS, c: char) -> bool {
    match policy {
        IgnoreWS::Spaces => c == ' ' || c == '\t',
        IgnoreWS::All => c == ' ' || c == '\t' || c == '\n' || c == '\r',
    }
}

/// How many tokens at the front of `s` the policy skips.
pub open spec fn ignored_len(policy: IgnoreWS, s: Seq<char>) -> nat
    decreases s.len(),
{
    if s.len() > 0 && is_ignored(policy, s[0]) {
        1 + ignored_len(policy, s.skip(1))
    } else {
        0
    }
}

/// At most all of `s` is skipped.
pub proof fn lemma_ignored_len_bound(policy: IgnoreWS, s: Seq<char>)
    ensures
        ignored_len(policy, s) <= s.len(),
    decreases s.len(),
{
    if s.len() > 0 && is_ignored(policy, s[0]) {
        lemma_ignored_len_bound(policy, s.skip(1));
    }
}

impl IgnoreWS {
    /// Whether the policy skips `c`.
    pub fn ignores(&self, c: char) -> (skipped: bool)
        ensures
            skipped == is_ignored(*self, c),
    {
        match self {
            IgnoreWS::Spaces => c == ' ' || c == '\t',
            IgnoreWS::All => c == ' ' || c == '\t' || c == '\n' || c == '\r',
        }
    }

    /// Reads tokens from `input` as long as the policy skips them.
    pub fn drain<B: Buffer<char>>(&self, input: &mut B)
        ensures
            final(input).remaining() == old(input).remaining().skip(
                ignored_len(*self, old(input).remaining()) as int,
            ),
            ignored_len(*self, old(input).remaining()) <= old(input).remaining().len(),
    {
        let ghost start = input.remaining();
        let ghost mut done: nat = 0;
        proof {
            assert(start.skip(0) =~= start);
            lemma_ignored_len_bound(*self, start);
        }
        loop
            invariant
                done <= start.len(),
                input.remaining() == start.skip(done as int),
                ignored_len(*self, start) == done + ignored_len(*self, input.remaining()),
            ensures
                input.remaining() == start.skip(ignored_len(*self, start) as int),
            decreases input.remaining().len(),
        {
            match input.peek_one() {
                Some(c) => {
                    if self.ignores(c) {
                        input.fast_forward(1);
                        proof {
                            assert(start.skip(done as int).skip(1) =~= start.skip(done as int + 1));
                            done = done + 1;
                        }
                    } else {
                        break;
                    }
                },
                None => {
                    break;
                },
            }
        }
    }
}

} // verus!

//! What parsers mean: the models of parsers and of values, and the outcome
//! of parsing a sequence of tokens with a parser.

use crate::attr::{ignored_len, lemma_ignored_len_bound, IgnoreWS};
use crate::text::one_of::{
    one_of_accepts, one_of_message, one_taken, range_accepts, range_message, range_text,
    shown_token,
};
use crate::text::tag::{tag_matches, tag_message, tag_taken};
use crate::text::{debug_char, debug_str};
use vstd::prelude::*;

verus! {

/// A parser as a mathematical value: the model of a
/// [`TypeRef`](crate::parsers::TypeRef).
pub enum Grammar {
    /// A literal, given by its characters.
    Tag(Seq<char>),
    /// One character of a set, given by the characters of the set.
    OneOf(Seq<char>),
    /// One character between the two bounds, both included.
    OneInRange(char, char),
    /// The inner parser, or nothing where it does not match.
    Optional(Box<Grammar>),
    /// The inner parser, as often as it matches.
    Vector(Box<Grammar>),
    /// Items (first parser) with a separator (second parser) between them.
    SeparatedBy(Box<Grammar>, Box<Grammar>),
    /// Items (first parser) up to where the delimiter (second parser) stands.
    Until(Box<Grammar>, Box<Grammar>),
    /// A struct, given by its procedure.
    Struct(Routine),
    /// An enum, given by its name and the procedures of its variants in the
    /// order of their declaration.
    Enum(Seq<char>, Seq<Routine>),
    /// A type of which only the path is known. Derived code can refer to it;
    /// no parse of it succeeds here.
    Opaque(Seq<char>),
}

/// One step of a procedure: the model of a [`Step`](crate::parsers::Step).
pub enum Action {
    /// Skip what the policy ignores.
    Whitespace(IgnoreWS),
    /// Match a prefix or suffix literal; `context` names it in errors.
    Fix { tag: Seq<char>, context: Seq<char> },
    /// Parse a field; `context` names it in errors.
    Field { parser: Grammar, context: Seq<char> },
}

/// The procedure of a struct or of a variant: the model of a
/// [`Procedure`](crate::parsers::Procedure).
pub struct Routine {
    /// Whether the fields have names.
    pub named: bool,
    /// The name of the struct, or of the enum and the variant.
    pub path: Seq<char>,
    /// The names of the fields, where they have names.
    pub names: Seq<Seq<char>>,
    /// The steps, in the order in which they run.
    pub steps: Seq<Action>,
}

/// What a parser produces: the model of a [`Value`](crate::parsers::Value).
pub enum Tree {
    /// A literal was matched.
    Unit,
    /// One character.
    Char(char),
    /// An optional parser did not match.
    Absent,
    /// An optional parser matched.
    Present(Box<Tree>),
    /// The items of a repetition.
    List(Seq<Tree>),
    /// A struct or a variant with named fields.
    Struct { path: Seq<char>, names: Seq<Seq<char>>, fields: Seq<Tree> },
    /// A struct or a variant with positional fields.
    Tuple { path: Seq<char>, fields: Seq<Tree> },
}

/// How a parse ends: with a value or with the messages of an error, and the
/// number of tokens that it read either way.
pub struct Outcome {
    pub result: Result<Tree, Seq<Seq<char>>>,
    pub len: nat,
}

/// How a run of several parsers ends: with their values in order or with the
/// messages of the first error, and the number of tokens read either way.
pub struct Items {
    pub result: Result<Seq<Tree>, Seq<Seq<char>>>,
    pub len: nat,
}

/// `rest` after another `n` tokens were read ahead of it.
pub open spec fn advance(n: nat, rest: Items) -> Items {
    Items { result: rest.result, len: n + rest.len }
}

/// `rest` after the value `v` was parsed from `n` tokens ahead of it.
pub open spec fn prepend(v: Tree, n: nat, rest: Items) -> Items {
    match rest.result {
        Ok(vs) => Items { result: Ok(seq![v] + vs), len: n + rest.len },
        Err(e) => Items { result: Err(e), len: n + rest.len },
    }
}

/// A list of items as the outcome of one parser.
pub open spec fn listed(items: Items) -> Outcome {
    match items.result {
        Ok(vs) => Outcome { result: Ok(Tree::List(vs)), len: items.len },
        Err(e) => Outcome { result: Err(e), len: items.len },
    }
}

/// The message of a type of which only the path is known.
pub open spec fn opaque_message(path: Seq<char>) -> Seq<char> {
    "no parser is known for "@ + path
}

/// The message of an enum of which no variant matches.
pub open spec fn no_variant_message(name: Seq<char>) -> Seq<char> {
    "no variants of "@ + name + " could be parsed"@
}

/// What parsing `s` with `g` yields.
///
/// A repetition ends where the next round would fail, and also where a round
/// would read no token at all, so that it always ends. The tests of the form
/// `len <= s.len()` never fail (see `lemma_parse_len`); they are there for the
/// definitions to be well founded.
pub open spec fn parse_spec(g: Grammar, s: Seq<char>) -> Outcome
    decreases g, s.len(), 2nat,
{
    match g {
        Grammar::Tag(tag) => {
            if tag_matches(tag, s) {
                Outcome { result: Ok(Tree::Unit), len: tag.len() }
            } else {
                Outcome {
                    result: Err(seq![tag_message(debug_str(tag), debug_str(tag_taken(tag, s)))]),
                    len: tag_taken(tag, s).len(),
                }
            }
        },
        Grammar::OneOf(set) => {
            if one_of_accepts(set, s) {
                Outcome { result: Ok(Tree::Char(s[0])), len: 1 }
            } else {
                Outcome {
                    result: Err(seq![one_of_message(debug_str(set), shown_token(s))]),
                    len: one_taken(s),
                }
            }
        },
        Grammar::OneInRange(low, high) => {
            if range_accepts(low, high, s) {
                Outcome { result: Ok(Tree::Char(s[0])), len: 1 }
            } else {
                Outcome {
                    result: Err(
                        seq![
                            range_message(
                                range_text(debug_char(low), debug_char(high)),
                                shown_token(s),
                            ),
                        ],
                    ),
                    len: one_taken(s),
                }
            }
        },
        Grammar::Optional(inner) => {
            let o = parse_spec(*inner, s);
            match o.result {
                Ok(v) => Outcome { result: Ok(Tree::Present(Box::new(v))), len: o.len },
                Err(_) => Outcome { result: Ok(Tree::Absent), len: 0 },
            }
        },
        Grammar::Vector(_) => listed(many(g, s)),
        Grammar::SeparatedBy(_, _) => listed(separated(g, s)),
        Grammar::Until(_, _) => listed(until(g, s)),
        Grammar::Struct(r) => routine_spec(r, s),
        Grammar::Enum(name, variants) => dispatch(name, variants, 0, s),
        Grammar::Opaque(path) => Outcome { result: Err(seq![opaque_message(path)]), len: 0 },
    }
}

/// Whether a peek of `g` at `s` succeeds: whether a parse would.
pub open spec fn peek_spec(g: Grammar, s: Seq<char>) -> bool {
    parse_spec(g, s).result is Ok
}

/// The items of the vector `g` at `s`: the inner parser as often as it
/// matches and reads at least one token.
pub open spec fn many(g: Grammar, s: Seq<char>) -> Items
    decreases g, s.len(), 0nat,
{
    match g {
        Grammar::Vector(inner) => {
            let o = parse_spec(*inner, s);
            match o.result {
                Ok(v) => {
                    if 0 < o.len <= s.len() {
                        prepend(v, o.len, many(g, s.skip(o.len as int)))
                    } else {
                        Items { result: Ok(Seq::empty()), len: 0 }
                    }
                },
                Err(_) => Items { result: Ok(Seq::empty()), len: 0 },
            }
        },
        _ => Items { result: Ok(Seq::empty()), len: 0 },
    }
}

/// The items of the separated list `g` at `s`: one item, then separator and
/// item in turn.
pub open spec fn separated(g: Grammar, s: Seq<char>) -> Items
    decreases g, s.len(), 1nat,
{
    match g {
        Grammar::SeparatedBy(item, sep) => {
            let first = parse_spec(*item, s);
            match first.result {
                Ok(v) => {
                    if first.len <= s.len() {
                        prepend(v, first.len, separated_more(g, s.skip(first.len as int)))
                    } else {
                        Items { result: Ok(seq![v]), len: first.len }
                    }
                },
                Err(e) => Items { result: Err(e), len: first.len },
            }
        },
        _ => Items { result: Ok(Seq::empty()), len: 0 },
    }
}

/// The items of the separated list `g` that follow the first: as long as a
/// separator matches, it is read and an item must follow. The list ends
/// where no separator matches, and where separator and item together would
/// read no token.
pub open spec fn separated_more(g: Grammar, s: Seq<char>) -> Items
    decreases g, s.len(), 0nat,
{
    match g {
        Grammar::SeparatedBy(item, sep) => {
            let between = parse_spec(*sep, s);
            if between.result is Ok {
                let next = parse_spec(*item, s.skip(between.len as int));
                let n = between.len + next.len;
                match next.result {
                    Ok(v) => {
                        if 0 < n <= s.len() {
                            prepend(v, n, separated_more(g, s.skip(n as int)))
                        } else {
                            Items { result: Ok(Seq::empty()), len: 0 }
                        }
                    },
                    Err(e) => Items { result: Err(e), len: n },
                }
            } else {
                Items { result: Ok(Seq::empty()), len: 0 }
            }
        },
        _ => Items { result: Ok(Seq::empty()), len: 0 },
    }
}

/// The items of the delimited list `g` at `s`: items up to where the
/// delimiter matches. The delimiter itself is not read. The list also ends
/// where an item would read no token.
pub open spec fn until(g: Grammar, s: Seq<char>) -> Items
    decreases g, s.len(), 0nat,
{
    match g {
        Grammar::Until(item, stop) => {
            if parse_spec(*stop, s).result is Ok {
                Items { result: Ok(Seq::empty()), len: 0 }
            } else {
                let o = parse_spec(*item, s);
                match o.result {
                    Ok(v) => {
                        if 0 < o.len <= s.len() {
                            prepend(v, o.len, until(g, s.skip(o.len as int)))
                        } else {
                            Items { result: Ok(Seq::empty()), len: 0 }
                        }
                    },
                    Err(e) => Items { result: Err(e), len: o.len },
                }
            }
        },
        _ => Items { result: Ok(Seq::empty()), len: 0 },
    }
}

/// What running the steps from the `i`-th on yields at `s`: the values of the
/// fields in order, or the first error under the context of its step.
pub open spec fn run(steps: Seq<Action>, i: nat, s: Seq<char>) -> Items
    decreases steps, steps.len() - i, 0nat,
{
    if i >= steps.len() {
        Items { result: Ok(Seq::empty()), len: 0 }
    } else {
        match steps[i as int] {
            Action::Whitespace(policy) => {
                let n = ignored_len(policy, s);
                advance(n, run(steps, i + 1, s.skip(n as int)))
            },
            Action::Fix { tag, context } => {
                if tag_matches(tag, s) {
                    advance(tag.len(), run(steps, i + 1, s.skip(tag.len() as int)))
                } else {
                    Items {
                        result: Err(
                            seq![
                                context,
                                tag_message(debug_str(tag), debug_str(tag_taken(tag, s))),
                            ],
                        ),
                        len: tag_taken(tag, s).len(),
                    }
                }
            },
            Action::Field { parser, context } => {
                let o = parse_spec(parser, s);
                match o.result {
                    Ok(v) => prepend(v, o.len, run(steps, i + 1, s.skip(o.len as int))),
                    Err(e) => Items { result: Err(seq![context] + e), len: o.len },
                }
            },
        }
    }
}

/// The value that a procedure builds from the values of its fields.
pub open spec fn built(r: Routine, fields: Seq<Tree>) -> Tree {
    if r.named {
        Tree::Struct { path: r.path, names: r.names, fields }
    } else {
        Tree::Tuple { path: r.path, fields }
    }
}

/// What running the procedure `r` yields at `s`.
pub open spec fn routine_spec(r: Routine, s: Seq<char>) -> Outcome
    decreases r, 0nat, 0nat,
{
    let items = run(r.steps, 0, s);
    match items.result {
        Ok(fields) => Outcome { result: Ok(built(r, fields)), len: items.len },
        Err(e) => Outcome { result: Err(e), len: items.len },
    }
}

/// What an enum yields at `s` when its variants from the `i`-th on are tried
/// in order: the outcome of the first one that matches, or the error that
/// none does.
pub open spec fn dispatch(name: Seq<char>, variants: Seq<Routine>, i: nat, s: Seq<char>) -> Outcome
    decreases variants, variants.len() - i, 0nat,
{
    if i >= variants.len() {
        Outcome { result: Err(seq![no_variant_message(name)]), len: 0 }
    } else {
        let o = routine_spec(variants[i as int], s);
        if o.result is Ok {
            o
        } else {
            dispatch(name, variants, i + 1, s)
        }
    }
}

/// No parse reads more tokens than there are.
pub proof fn lemma_parse_len(g: Grammar, s: Seq<char>)
    ensures
        parse_spec(g, s).len <= s.len(),
    decreases g, s.len(), 2nat,
{
    match g {
        Grammar::Optional(inner) => {
            lemma_parse_len(*inner, s);
        },
        Grammar::Vector(_) => {
            lemma_many_len(g, s);
        },
        Grammar::SeparatedBy(_, _) => {
            lemma_separated_len(g, s);
        },
        Grammar::Until(_, _) => {
            lemma_until_len(g, s);
        },
        Grammar::Struct(r) => {
            lemma_run_len(r.steps, 0, s);
            assert(routine_spec(r, s).len == run(r.steps, 0, s).len);
        },
        Grammar::Enum(name, variants) => {
            lemma_dispatch_len(name, variants, 0, s);
        },
        _ => {},
    }
}

/// A vector never fails and reads no more tokens than there are.
pub proof fn lemma_many_len(g: Grammar, s: Seq<char>)
    ensures
        many(g, s).len <= s.len(),
        many(g, s).result is Ok,
    decreases g, s.len(), 0nat,
{
    match g {
        Grammar::Vector(inner) => {
            let o = parse_spec(*inner, s);
            if o.result is Ok && 0 < o.len <= s.len() {
                lemma_many_len(g, s.skip(o.len as int));
            }
        },
        _ => {},
    }
}

/// A separated list reads no more tokens than there are.
pub proof fn lemma_separated_len(g: Grammar, s: Seq<char>)
    ensures
        separated(g, s).len <= s.len(),
    decreases g, s.len(), 1nat,
{
    match g {
        Grammar::SeparatedBy(item, sep) => {
            let first = parse_spec(*item, s);
            lemma_parse_len(*item, s);
            if first.result is Ok {
                lemma_separated_more_len(g, s.skip(first.len as int));
            }
        },
        _ => {},
    }
}

/// The rest of a separated list reads no more tokens than there are.
pub proof fn lemma_separated_more_len(g: Grammar, s: Seq<char>)
    ensures
        separated_more(g, s).len <= s.len(),
    decreases g, s.len(), 0nat,
{
    match g {
        Grammar::SeparatedBy(item, sep) => {
            let between = parse_spec(*sep, s);
            lemma_parse_len(*sep, s);
            if between.result is Ok {
                let next = parse_spec(*item, s.skip(between.len as int));
                lemma_parse_len(*item, s.skip(between.len as int));
                let n = between.len + next.len;
                if next.result is Ok && 0 < n <= s.len() {
                    lemma_separated_more_len(g, s.skip(n as int));
                }
            }
        },
        _ => {},
    }
}

/// A delimited list reads no more tokens than there are.
pub proof fn lemma_until_len(g: Grammar, s: Seq<char>)
    ensures
        until(g, s).len <= s.len(),
    decreases g, s.len(), 0nat,
{
    match g {
        Grammar::Until(item, stop) => {
            if !(parse_spec(*stop, s).result is Ok) {
                let o = parse_spec(*item, s);
                lemma_parse_len(*item, s);
                if o.result is Ok && 0 < o.len <= s.len() {
                    lemma_until_len(g, s.skip(o.len as int));
                }
            }
        },
        _ => {},
    }
}

/// No run of steps reads more tokens than there are.
pub proof fn lemma_run_len(steps: Seq<Action>, i: nat, s: Seq<char>)
    ensures
        run(steps, i, s).len <= s.len(),
    decreases steps, steps.len() - i, 0nat,
{
    if i < steps.len() {
        match steps[i as int] {
            Action::Whitespace(policy) => {
                let n = ignored_len(policy, s);
                lemma_ignored_len_bound(policy, s);
                lemma_run_len(steps, i + 1, s.skip(n as int));
            },
            Action::Fix { tag, context } => {
                if tag_matches(tag, s) {
                    lemma_run_len(steps, i + 1, s.skip(tag.len() as int));
                }
            },
            Action::Field { parser, context } => {
                let o = parse_spec(parser, s);
                lemma_parse_len(parser, s);
                if o.result is Ok {
                    lemma_run_len(steps, i + 1, s.skip(o.len as int));
                }
            },
        }
    }
}

/// An enum reads no more tokens than there are.
pub proof fn lemma_dispatch_len(name: Seq<char>, variants: Seq<Routine>, i: nat, s: Seq<char>)
    ensures
        dispatch(name, variants, i, s).len <= s.len(),
    decreases variants, variants.len() - i, 0nat,
{
    if i < variants.len() {
        lemma_run_len(variants[i as int].steps, 0, s);
        assert(routine_spec(variants[i as int], s).len == run(variants[i as int].steps, 0, s).len);
        lemma_dispatch_len(name, variants, i + 1, s);
    }
}

/// `rest` after the values `before` were parsed from `n` tokens ahead of it.
pub open spec fn extend(before: Seq<Tree>, n: nat, rest: Items) -> Items {
    match rest.result {
        Ok(vs) => Items { result: Ok(before + vs), len: n + rest.len },
        Err(e) => Items { result: Err(e), len: n + rest.len },
    }
}

/// A value that stands in front of the rest may as well end what came
/// before.
pub proof fn lemma_extend_prepend(before: Seq<Tree>, n: nat, v: Tree, k: nat, rest: Items)
    ensures
        extend(before, n, prepend(v, k, rest)) == extend(before.push(v), n + k, rest),
{
    match rest.result {
        Ok(vs) => {
            assert(before + (seq![v] + vs) =~= before.push(v) + vs);
        },
        Err(e) => {},
    }
}

/// Where nothing is left to run, what came before is the outcome.
pub proof fn lemma_extend_end(before: Seq<Tree>, n: nat)
    ensures
        extend(before, n, Items { result: Ok(Seq::empty()), len: 0 }) == (Items {
            result: Ok(before),
            len: n,
        }),
{
    assert(before + Seq::<Tree>::empty() =~= before);
}

/// Where nothing came before, the rest is the outcome.
pub proof fn lemma_extend_start(rest: Items)
    ensures
        extend(Seq::empty(), 0, rest) == rest,
{
    match rest.result {
        Ok(vs) => {
            assert(Seq::<Tree>::empty() + vs =~= vs);
        },
        Err(e) => {},
    }
}

/// The parsers that the steps call, in the order of the steps: the literal of
/// each prefix and suffix, and the parser of each field. These are the types
/// on which derived code depends.
pub open spec fn bound_grammars(steps: Seq<Action>) -> Seq<Grammar>
    decreases steps.len(),
{
    if steps.len() == 0 {
        Seq::empty()
    } else {
        let before = bound_grammars(steps.drop_last());
        match steps.last() {
            Action::Whitespace(_) => before,
            Action::Fix { tag, context } => before.push(Grammar::Tag(tag)),
            Action::Field { parser, context } => before.push(parser),
        }
    }
}

} // verus!

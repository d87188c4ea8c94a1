//! What holds of every parser and of every input.

use crate::attr::{ignored_len, lemma_ignored_len_bound, IgnoreWS};
use crate::builder::{routine_actions, FieldPlan};
use crate::grammar::{
    dispatch, lemma_parse_len, lemma_run_len, many, no_variant_message, parse_spec, peek_spec,
    routine_spec, run, Action, Grammar, Routine, Tree,
};
use crate::text::tag::tag_matches;
use vstd::prelude::*;

verus! {

/// Where a peek succeeds, a parse of the same input returns a value. A parser
/// reports with `peek` what `peek_spec` says and with `parse` what
/// `parse_spec` says, so this holds of the procedures as it holds of the
/// model.
pub proof fn law_peek_implies_parse(g: Grammar, s: Seq<char>)
    requires
        peek_spec(g, s),
    ensures
        parse_spec(g, s).result is Ok,
{
}

/// A parse reads a front part of the input: never more tokens than there
/// are. What it read is `s.take(len)`, and what is left is `s.skip(len)`.
pub proof fn law_parse_advances(g: Grammar, s: Seq<char>)
    ensures
        parse_spec(g, s).len <= s.len(),
        s.take(parse_spec(g, s).len as int) + s.skip(parse_spec(g, s).len as int) == s,
{
    lemma_parse_len(g, s);
    let n = parse_spec(g, s).len as int;
    assert(s.take(n) + s.skip(n) =~= s);
}

/// An optional parser always succeeds.
pub proof fn law_optional_succeeds(inner: Grammar, s: Seq<char>)
    ensures
        parse_spec(Grammar::Optional(Box::new(inner)), s).result is Ok,
{
}

/// Where the steps of a procedure end with a literal, whatever a successful
/// run from the `i`-th step on reads ends with that literal.
pub proof fn lemma_run_ends_with(steps: Seq<Action>, i: nat, s: Seq<char>, tag: Seq<char>)
    requires
        i < steps.len(),
        steps.last() is Fix,
        steps.last()->Fix_tag == tag,
        run(steps, i, s).result is Ok,
    ensures
        tag.len() <= run(steps, i, s).len <= s.len(),
        s.subrange(run(steps, i, s).len - tag.len(), run(steps, i, s).len as int) == tag,
    decreases steps.len() - i,
{
    let n = run(steps, i, s).len;
    lemma_run_len(steps, i, s);
    let read: nat = match steps[i as int] {
        Action::Whitespace(policy) => ignored_len(policy, s),
        Action::Fix { tag, context } => tag.len(),
        Action::Field { parser, context } => parse_spec(parser, s).len,
    };
    match steps[i as int] {
        Action::Whitespace(policy) => {
            lemma_ignored_len_bound(policy, s);
        },
        Action::Fix { tag, context } => {},
        Action::Field { parser, context } => {
            lemma_parse_len(parser, s);
        },
    }
    let rest = s.skip(read as int);
    assert(run(steps, i + 1, rest).result is Ok);
    assert(n == read + run(steps, i + 1, rest).len);
    if i + 1 < steps.len() {
        lemma_run_ends_with(steps, i + 1, rest, tag);
        let m = run(steps, i + 1, rest).len;
        assert(rest.subrange(m - tag.len(), m as int) =~= s.subrange(n - tag.len(), n as int));
    } else {
        assert(run(steps, i + 1, rest).len == 0);
        assert(s.subrange(0, tag.len() as int) =~= s.take(tag.len() as int));
    }
}

/// A datatype with the prefix `prefix` parses only input that begins with the
/// prefix, once what the policy skips at the front is set aside: the law is
/// stated for input that begins with nothing to skip. The steps are those
/// that are derived for a struct or a variant with these directives and
/// fields.
pub proof fn law_prefix_boundary(
    policy: Option<IgnoreWS>,
    prefix: Seq<char>,
    suffix: Option<Seq<char>>,
    plans: Seq<FieldPlan>,
    owner: Seq<char>,
    s: Seq<char>,
)
    requires
        run(routine_actions(policy, Some(prefix), suffix, plans, owner), 0, s).result is Ok,
        policy matches Some(p) ==> ignored_len(p, s) == 0,
    ensures
        tag_matches(prefix, s),
{
    let steps = routine_actions(policy, Some(prefix), suffix, plans, owner);
    match policy {
        Some(p) => {
            assert(steps[0] == Action::Whitespace(p));
            assert(steps[1] is Fix && steps[1]->Fix_tag == prefix);
            assert(s.skip(0) =~= s);
            assert(run(steps, 1, s).result is Ok);
        },
        None => {
            assert(steps[0] is Fix && steps[0]->Fix_tag == prefix);
        },
    }
}

/// A datatype with the suffix `suffix` parses only input of which the part
/// that it reads ends with the suffix. The steps are those that are derived
/// for a struct or a variant with these directives and fields.
pub proof fn law_suffix_boundary(
    policy: Option<IgnoreWS>,
    prefix: Option<Seq<char>>,
    suffix: Seq<char>,
    plans: Seq<FieldPlan>,
    owner: Seq<char>,
    s: Seq<char>,
)
    requires
        run(routine_actions(policy, prefix, Some(suffix), plans, owner), 0, s).result is Ok,
    ensures
        ({
            let n = run(routine_actions(policy, prefix, Some(suffix), plans, owner), 0, s).len;
            &&& suffix.len() <= n <= s.len()
            &&& s.take(n as int).skip(n - suffix.len()) == suffix
        }),
{
    let steps = routine_actions(policy, prefix, Some(suffix), plans, owner);
    assert(steps.last() is Fix && steps.last()->Fix_tag == suffix);
    lemma_run_ends_with(steps, 0, s, suffix);
    let n = run(steps, 0, s).len;
    assert(s.take(n as int).skip(n - suffix.len()) =~= s.subrange(n - suffix.len(), n as int));
}

/// An enum yields what its first matching variant yields: where the `k`-th
/// variant matches and none before it does, the parse of the enum is the
/// parse of that variant, whatever the later variants would do.
pub proof fn law_first_match(name: Seq<char>, variants: Seq<Routine>, k: nat, s: Seq<char>)
    requires
        k < variants.len(),
        routine_spec(variants[k as int], s).result is Ok,
        forall|j: int| 0 <= j < k ==> !(#[trigger] routine_spec(variants[j], s).result is Ok),
    ensures
        parse_spec(Grammar::Enum(name, variants), s) == routine_spec(variants[k as int], s),
{
    lemma_dispatch_first(name, variants, 0, k, s);
}

proof fn lemma_dispatch_first(name: Seq<char>, variants: Seq<Routine>, i: nat, k: nat, s: Seq<char>)
    requires
        i <= k < variants.len(),
        routine_spec(variants[k as int], s).result is Ok,
        forall|j: int| 0 <= j < k ==> !(#[trigger] routine_spec(variants[j], s).result is Ok),
    ensures
        dispatch(name, variants, i, s) == routine_spec(variants[k as int], s),
    decreases k - i,
{
    if i < k {
        assert(!(routine_spec(variants[i as int], s).result is Ok));
        lemma_dispatch_first(name, variants, i + 1, k, s);
    }
}

/// Where no variant matches, the enum fails with its own error and reads
/// nothing.
pub proof fn law_no_variant(name: Seq<char>, variants: Seq<Routine>, s: Seq<char>)
    requires
        forall|j: int|
            0 <= j < variants.len() ==> !(#[trigger] routine_spec(variants[j], s).result is Ok),
    ensures
        parse_spec(Grammar::Enum(name, variants), s).result == Err::<Tree, Seq<Seq<char>>>(
            seq![no_variant_message(name)],
        ),
        parse_spec(Grammar::Enum(name, variants), s).len == 0,
{
    lemma_dispatch_none(name, variants, 0, s);
}

proof fn lemma_dispatch_none(name: Seq<char>, variants: Seq<Routine>, i: nat, s: Seq<char>)
    requires
        forall|j: int|
            0 <= j < variants.len() ==> !(#[trigger] routine_spec(variants[j], s).result is Ok),
    ensures
        dispatch(name, variants, i, s).result == Err::<Tree, Seq<Seq<char>>>(
            seq![no_variant_message(name)],
        ),
        dispatch(name, variants, i, s).len == 0,
    decreases variants.len() - i,
{
    if i < variants.len() {
        assert(!(routine_spec(variants[i as int], s).result is Ok));
        lemma_dispatch_none(name, variants, i + 1, s);
    }
}

/// A vector never fails, and it reads a front part of the input. Each of its
/// items is what the inner parser yields at some place of the input. Where
/// the inner parser never matches without reading a token, the vector ends
/// at a place where a peek of the inner parser fails.
pub proof fn law_vector(inner: Grammar, s: Seq<char>)
    ensures
        ({
            let items = many(Grammar::Vector(Box::new(inner)), s);
            &&& parse_spec(Grammar::Vector(Box::new(inner)), s).result is Ok
            &&& parse_spec(Grammar::Vector(Box::new(inner)), s).len == items.len
            &&& items.result is Ok
            &&& items.len <= s.len()
            &&& forall|j: int|
                0 <= j < items.result->Ok_0.len() ==> exists|at: int|
                    0 <= at <= s.len() && parse_spec(inner, s.skip(at)).result == Ok::<
                        Tree,
                        Seq<Seq<char>>,
                    >(#[trigger] items.result->Ok_0[j])
            &&& (forall|t: Seq<char>| peek_spec(inner, t) ==> #[trigger] parse_spec(inner, t).len
                > 0) ==> !peek_spec(inner, s.skip(items.len as int))
        }),
    decreases s.len(),
{
    let g = Grammar::Vector(Box::new(inner));
    let items = many(g, s);
    let o = parse_spec(inner, s);
    lemma_parse_len(inner, s);
    assert(s.skip(0) =~= s);
    if o.result is Ok && 0 < o.len <= s.len() {
        let rest = s.skip(o.len as int);
        law_vector(inner, rest);
        let more = many(g, rest);
        let vs = more.result->Ok_0;
        assert(items.result->Ok_0 == seq![o.result->Ok_0] + vs);
        assert(rest.skip(more.len as int) =~= s.skip(items.len as int));
        assert forall|j: int| 0 <= j < items.result->Ok_0.len() implies exists|at: int|
            0 <= at <= s.len() && parse_spec(inner, s.skip(at)).result == Ok::<
                Tree,
                Seq<Seq<char>>,
            >(#[trigger] items.result->Ok_0[j]) by {
            if j == 0 {
                assert(parse_spec(inner, s.skip(0)).result == Ok::<Tree, Seq<Seq<char>>>(
                    items.result->Ok_0[0],
                ));
            } else {
                assert(items.result->Ok_0[j] == vs[j - 1]);
                let at = choose|at: int|
                    0 <= at <= rest.len() && parse_spec(inner, rest.skip(at)).result == Ok::<
                        Tree,
                        Seq<Seq<char>>,
                    >(vs[j - 1]);
                assert(rest.skip(at) =~= s.skip(o.len + at));
            }
        }
    }
}

} // verus!

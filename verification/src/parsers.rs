//! Parsers as data, and the procedures that run them.

use crate::attr::{ignored_len, IgnoreWS};
use crate::buffer::Buffer;
use crate::error::ParseError;
use crate::grammar::{
    dispatch, extend, lemma_extend_end, lemma_extend_prepend, lemma_extend_start, lemma_many_len,
    lemma_parse_len, lemma_run_len, many, no_variant_message, opaque_message, parse_spec,
    peek_spec, routine_spec, run, separated, separated_more, until, bound_grammars, Action,
    Grammar, Outcome, Routine, Tree,
};
use crate::text::one_of::{OneInRange, OneOf};
use crate::text::tag::{tag_message, tag_taken, Tag};
use crate::text::debug_str;
use vstd::prelude::*;

verus! {

/// A reference to something that can be parsed: a primitive of the text
/// layer, a wrapper around another parser, the procedure derived for a
/// struct or an enum, or a type that is known by its path alone.
#[derive(Debug)]
pub enum TypeRef {
    /// A literal.
    Tag(Tag),
    /// One character of a set.
    OneOf(OneOf),
    /// One character of a range.
    OneInRange(OneInRange),
    /// The inner parser, or nothing where it does not match.
    Optional(Box<TypeRef>),
    /// The inner parser, as often as it matches.
    Vector(Box<TypeRef>),
    /// Items (first parser) with a separator (second parser) between them.
    SeparatedBy(Box<TypeRef>, Box<TypeRef>),
    /// Items (first parser) up to where the delimiter (second parser) stands.
    Until(Box<TypeRef>, Box<TypeRef>),
    /// The procedure derived for a struct.
    Struct(Procedure),
    /// The procedures derived for the variants of an enum.
    Enum(Choice),
    /// A type of which only the path is known, such as a type parameter or a
    /// parser that is written elsewhere. Derived code can refer to it; here
    /// a peek of it fails and a parse of it returns an error.
    Opaque(String),
}

/// One step of a derived procedure.
#[derive(Debug)]
pub enum Step {
    /// Skip what the policy ignores.
    Whitespace(IgnoreWS),
    /// Match a prefix or suffix literal. `context` names it in errors.
    Fix { tag: Tag, context: String },
    /// Parse a field. `context` names it in errors.
    Field { parser: TypeRef, context: String },
}

/// The procedure derived for a struct or for one variant of an enum: the
/// steps to run in order, and how to name the value that they build.
#[derive(Debug)]
pub struct Procedure {
    /// Whether the fields have names.
    pub named: bool,
    /// The name of the struct, or of the enum and the variant.
    pub path: String,
    /// The names of the fields, where they have names.
    pub names: Vec<String>,
    /// The steps, in the order in which they run.
    pub steps: Vec<Step>,
}

/// The procedures derived for an enum, in the order in which its variants
/// were declared.
#[derive(Debug)]
pub struct Choice {
    /// The name of the enum.
    pub name: String,
    /// One procedure for each variant.
    pub variants: Vec<Procedure>,
}

/// What a parser produced.
#[derive(Debug, PartialEq, Eq)]
pub enum Value {
    /// A literal was matched.
    Unit,
    /// One character.
    Char(char),
    /// An optional parser did not match.
    Absent,
    /// An optional parser matched.
    Present(Box<Value>),
    /// The items of a repetition.
    List(Vec<Value>),
    /// A struct or a variant with named fields.
    Struct { path: String, names: Vec<String>, fields: Vec<Value> },
    /// A struct or a variant with positional fields.
    Tuple { path: String, fields: Vec<Value> },
}

/// The texts of a list of strings.
pub open spec fn texts_of(strings: Seq<String>) -> Seq<Seq<char>> {
    Seq::new(strings.len(), |i: int| strings[i]@)
}

/// The model of a parser.
pub open spec fn grammar_of(ty: TypeRef) -> Grammar
    decreases ty,
{
    match ty {
        TypeRef::Tag(t) => Grammar::Tag(t@),
        TypeRef::OneOf(p) => Grammar::OneOf(p@),
        TypeRef::OneInRange(p) => Grammar::OneInRange(p.low, p.high),
        TypeRef::Optional(inner) => Grammar::Optional(Box::new(grammar_of(*inner))),
        TypeRef::Vector(inner) => Grammar::Vector(Box::new(grammar_of(*inner))),
        TypeRef::SeparatedBy(item, sep) => Grammar::SeparatedBy(
            Box::new(grammar_of(*item)),
            Box::new(grammar_of(*sep)),
        ),
        TypeRef::Until(item, stop) => Grammar::Until(
            Box::new(grammar_of(*item)),
            Box::new(grammar_of(*stop)),
        ),
        TypeRef::Struct(p) => Grammar::Struct(routine_of(p)),
        TypeRef::Enum(c) => Grammar::Enum(c.name@, routines_of(c.variants@)),
        TypeRef::Opaque(path) => Grammar::Opaque(path@),
    }
}

/// The model of a step.
pub open spec fn action_of(step: Step) -> Action
    decreases step,
{
    match step {
        Step::Whitespace(policy) => Action::Whitespace(policy),
        Step::Fix { tag, context } => Action::Fix { tag: tag@, context: context@ },
        Step::Field { parser, context } => Action::Field {
            parser: grammar_of(parser),
            context: context@,
        },
    }
}

/// The models of a list of steps.
pub open spec fn actions_of(steps: Seq<Step>) -> Seq<Action>
    decreases steps,
{
    if steps.len() == 0 {
        Seq::empty()
    } else {
        actions_of(steps.drop_last()).push(action_of(steps.last()))
    }
}

/// The model of a procedure.
pub open spec fn routine_of(p: Procedure) -> Routine
    decreases p,
{
    Routine { named: p.named, path: p.path@, names: texts_of(p.names@), steps: actions_of(p.steps@) }
}

/// The models of a list of procedures.
pub open spec fn routines_of(ps: Seq<Procedure>) -> Seq<Routine>
    decreases ps,
{
    if ps.len() == 0 {
        Seq::empty()
    } else {
        routines_of(ps.drop_last()).push(routine_of(ps.last()))
    }
}

/// The model of a value.
pub open spec fn tree_of(v: Value) -> Tree
    decreases v,
{
    match v {
        Value::Unit => Tree::Unit,
        Value::Char(c) => Tree::Char(c),
        Value::Absent => Tree::Absent,
        Value::Present(inner) => Tree::Present(Box::new(tree_of(*inner))),
        Value::List(items) => Tree::List(trees_of(items@)),
        Value::Struct { path, names, fields } => Tree::Struct {
            path: path@,
            names: texts_of(names@),
            fields: trees_of(fields@),
        },
        Value::Tuple { path, fields } => Tree::Tuple { path: path@, fields: trees_of(fields@) },
    }
}

/// The models of a list of values.
pub open spec fn trees_of(vs: Seq<Value>) -> Seq<Tree>
    decreases vs,
{
    if vs.len() == 0 {
        Seq::empty()
    } else {
        trees_of(vs.drop_last()).push(tree_of(vs.last()))
    }
}

impl View for TypeRef {
    type V = Grammar;

    open spec fn view(&self) -> Grammar {
        grammar_of(*self)
    }
}

impl View for Step {
    type V = Action;

    open spec fn view(&self) -> Action {
        action_of(*self)
    }
}

impl View for Procedure {
    type V = Routine;

    open spec fn view(&self) -> Routine {
        routine_of(*self)
    }
}

impl View for Value {
    type V = Tree;

    open spec fn view(&self) -> Tree {
        tree_of(*self)
    }
}

/// The model of a list of steps has the model of each step at its place.
pub proof fn lemma_actions_of(steps: Seq<Step>)
    ensures
        actions_of(steps).len() == steps.len(),
        forall|i: int| 0 <= i < steps.len() ==> #[trigger] actions_of(steps)[i] == action_of(steps[i]),
    decreases steps.len(),
{
    if steps.len() > 0 {
        lemma_actions_of(steps.drop_last());
        assert forall|i: int| 0 <= i < steps.len() implies #[trigger] actions_of(steps)[i]
            == action_of(steps[i]) by {
            if i < steps.len() - 1 {
                assert(steps.drop_last()[i] == steps[i]);
            }
        }
    }
}

/// The model of a list of procedures has the model of each one at its place.
pub proof fn lemma_routines_of(ps: Seq<Procedure>)
    ensures
        routines_of(ps).len() == ps.len(),
        forall|i: int| 0 <= i < ps.len() ==> #[trigger] routines_of(ps)[i] == routine_of(ps[i]),
    decreases ps.len(),
{
    if ps.len() > 0 {
        lemma_routines_of(ps.drop_last());
        assert forall|i: int| 0 <= i < ps.len() implies #[trigger] routines_of(ps)[i]
            == routine_of(ps[i]) by {
            if i < ps.len() - 1 {
                assert(ps.drop_last()[i] == ps[i]);
            }
        }
    }
}

/// Pushing a value pushes its model.
pub proof fn lemma_trees_push(vs: Seq<Value>, v: Value)
    ensures
        trees_of(vs.push(v)) == trees_of(vs).push(tree_of(v)),
{
    assert(vs.push(v).drop_last() =~= vs);
}

impl TypeRef {
    /// Tests whether a parse would succeed. If it would, `input` moves past
    /// the tokens that the parse would read; if not, `input` stays where it
    /// was. The work is done on cursors: nothing is built and no error is
    /// made.
    #[verifier::loop_isolation(false)]
    pub fn peek<B: Buffer<char>>(&self, input: &mut B) -> (ok: bool)
        ensures
            ok == peek_spec(self@, old(input).remaining()),
            ok ==> final(input).remaining() == old(input).remaining().skip(
                parse_spec(self@, old(input).remaining()).len as int,
            ),
            !ok ==> final(input).remaining() == old(input).remaining(),
        decreases self,
    {
        let ghost start = input.remaining();
        let ghost g = self@;
        proof {
            assert(start.skip(0) =~= start);
        }
        match self {
            TypeRef::Tag(tag) => tag.peek(input),
            TypeRef::OneOf(set) => set.peek(input),
            TypeRef::OneInRange(range) => range.peek(input),
            TypeRef::Optional(inner) => {
                let _ = inner.peek(input);
                true
            },
            TypeRef::Vector(inner) => {
                let ghost mut done: nat = 0;
                loop
                    invariant
                        done <= start.len(),
                        input.remaining() == start.skip(done as int),
                        many(g, start).len == done + many(g, input.remaining()).len,
                    decreases input.remaining().len(),
                {
                    let ghost here = input.remaining();
                    let before: usize = input.available();
                    let matched = inner.peek(input);
                    proof {
                        lemma_parse_len(inner@, here);
                        assert(here.skip(0) =~= here);
                    }
                    if !matched || input.available() == before {
                        break;
                    }
                    proof {
                        let n = parse_spec(inner@, here).len;
                        assert(start.skip(done as int).skip(n as int) =~= start.skip(
                            (done + n) as int,
                        ));
                        done = done + n;
                    }
                }
                proof {
                    lemma_many_len(g, start);
                }
                true
            },
            TypeRef::SeparatedBy(item, sep) => {
                let mut cursor = input.cursor();
                if !item.peek(&mut cursor) {
                    return false;
                }
                let ghost mut done: nat = parse_spec(item@, start).len;
                proof {
                    lemma_parse_len(item@, start);
                }
                loop
                    invariant
                        done <= start.len(),
                        cursor.remaining() == start.skip(done as int),
                        separated(g, start).result is Ok <==> separated_more(
                            g,
                            cursor.remaining(),
                        ).result is Ok,
                        separated(g, start).len == done + separated_more(
                            g,
                            cursor.remaining(),
                        ).len,
                    decreases cursor.remaining().len(),
                {
                    let ghost here = cursor.remaining();
                    let before: usize = cursor.available();
                    if !sep.peek(&mut cursor) {
                        break;
                    }
                    let ghost between = parse_spec(sep@, here).len;
                    proof {
                        lemma_parse_len(sep@, here);
                        lemma_parse_len(item@, here.skip(between as int));
                    }
                    if !item.peek(&mut cursor) {
                        return false;
                    }
                    let ghost n = between + parse_spec(item@, here.skip(between as int)).len;
                    proof {
                        assert(here.skip(between as int).skip(n - between) =~= here.skip(n as int));
                        assert(here.skip(0) =~= here);
                    }
                    if cursor.available() == before {
                        break;
                    }
                    proof {
                        assert(start.skip(done as int).skip(n as int) =~= start.skip(
                            (done + n) as int,
                        ));
                        done = done + n;
                    }
                }
                let read: usize = input.available() - cursor.available();
                input.fast_forward(read);
                true
            },
            TypeRef::Until(item, stop) => {
                let mut cursor = input.cursor();
                let ghost mut done: nat = 0;
                loop
                    invariant
                        done <= start.len(),
                        cursor.remaining() == start.skip(done as int),
                        until(g, start).result is Ok <==> until(g, cursor.remaining()).result is Ok,
                        until(g, start).len == done + until(g, cursor.remaining()).len,
                    decreases cursor.remaining().len(),
                {
                    let ghost here = cursor.remaining();
                    let mut probe = cursor.cursor();
                    if stop.peek(&mut probe) {
                        break;
                    }
                    let before: usize = cursor.available();
                    proof {
                        lemma_parse_len(item@, here);
                        assert(here.skip(0) =~= here);
                    }
                    if !item.peek(&mut cursor) {
                        return false;
                    }
                    if cursor.available() == before {
                        break;
                    }
                    proof {
                        let n = parse_spec(item@, here).len;
                        assert(start.skip(done as int).skip(n as int) =~= start.skip(
                            (done + n) as int,
                        ));
                        done = done + n;
                    }
                }
                let read: usize = input.available() - cursor.available();
                input.fast_forward(read);
                true
            },
            TypeRef::Struct(procedure) => procedure.peek(input),
            TypeRef::Enum(choice) => {
                let ok = choice.peek(input);
                ok
            },
            TypeRef::Opaque(_) => false,
        }
    }
}

impl Procedure {
    /// Tests whether the steps would all succeed, on a cursor forked from
    /// `input`. If they would, `input` moves past what they read; if not,
    /// `input` stays where it was.
    #[verifier::loop_isolation(false)]
    pub fn peek<B: Buffer<char>>(&self, input: &mut B) -> (ok: bool)
        ensures
            ok == routine_spec(self@, old(input).remaining()).result is Ok,
            ok ==> final(input).remaining() == old(input).remaining().skip(
                routine_spec(self@, old(input).remaining()).len as int,
            ),
            !ok ==> final(input).remaining() == old(input).remaining(),
        decreases self,
    {
        let ghost start = input.remaining();
        let ghost actions = actions_of(self.steps@);
        let ghost mut done: nat = 0;
        proof {
            assert(start.skip(0) =~= start);
            lemma_actions_of(self.steps@);
            assert(routine_spec(self@, start).len == run(actions, 0, start).len);
        }
        let mut cursor = input.cursor();
        let n: usize = self.steps.len();
        let mut i: usize = 0;
        while i < n
            invariant
                i <= n,
                done <= start.len(),
                cursor.remaining() == start.skip(done as int),
                run(actions, 0, start).result is Ok <==> run(
                    actions,
                    i as nat,
                    cursor.remaining(),
                ).result is Ok,
                run(actions, 0, start).len == done + run(actions, i as nat, cursor.remaining()).len,
            decreases n - i,
        {
            let ghost here = cursor.remaining();
            proof {
                lemma_run_len(actions, i as nat, here);
                assert(actions[i as int] == action_of(self.steps@[i as int]));
            }
            let ghost read: nat;
            match &self.steps[i] {
                Step::Whitespace(policy) => {
                    policy.drain(&mut cursor);
                    proof {
                        read = ignored_len(*policy, here);
                    }
                },
                Step::Fix { tag, context } => {
                    if !tag.peek(&mut cursor) {
                        return false;
                    }
                    proof {
                        read = tag@.len();
                    }
                },
                Step::Field { parser, context } => {
                    if !parser.peek(&mut cursor) {
                        return false;
                    }
                    proof {
                        read = parse_spec(parser@, here).len;
                    }
                },
            }
            proof {
                assert(start.skip(done as int).skip(read as int) =~= start.skip(
                    (done + read) as int,
                ));
                done = done + read;
            }
            i = i + 1;
        }
        let read: usize = input.available() - cursor.available();
        input.fast_forward(read);
        true
    }
}

impl Choice {
    /// The model: the name of the enum and the procedures of its variants.
    pub open spec fn view(&self) -> Grammar {
        Grammar::Enum(self.name@, routines_of(self.variants@))
    }

    /// Tests the variants in the order of their declaration, each on a cursor
    /// of its own. If one matches, `input` moves past what it would read; if
    /// none does, `input` stays where it was.
    pub fn peek<B: Buffer<char>>(&self, input: &mut B) -> (ok: bool)
        ensures
            ok == peek_spec(self@, old(input).remaining()),
            ok ==> final(input).remaining() == old(input).remaining().skip(
                parse_spec(self@, old(input).remaining()).len as int,
            ),
            !ok ==> final(input).remaining() == old(input).remaining(),
        decreases self,
    {
        peek_variants(Ghost(self.name@), &self.variants, input)
    }
}

/// Tests the procedures in order, each on a cursor of its own. If one
/// matches, `input` moves past what it would read; if none does, `input`
/// stays where it was. `name` is the name of the enum, which only the model
/// reads.
#[verifier::loop_isolation(false)]
pub fn peek_variants<B: Buffer<char>>(
    Ghost(name): Ghost<Seq<char>>,
    variants: &Vec<Procedure>,
    input: &mut B,
) -> (ok: bool)
    ensures
        ok == dispatch(name, routines_of(variants@), 0, old(input).remaining()).result is Ok,
        ok ==> final(input).remaining() == old(input).remaining().skip(
            dispatch(name, routines_of(variants@), 0, old(input).remaining()).len as int,
        ),
        !ok ==> final(input).remaining() == old(input).remaining(),
    decreases variants,
{
    let ghost start = input.remaining();
    let ghost routines = routines_of(variants@);
    proof {
        lemma_routines_of(variants@);
    }
    let n: usize = variants.len();
    let mut i: usize = 0;
    while i < n
        invariant
            i <= n,
            input.remaining() == start,
            dispatch(name, routines, 0, start) == dispatch(name, routines, i as nat, start),
        decreases n - i,
    {
        proof {
            assert(routines[i as int] == routine_of(variants@[i as int]));
        }
        if variants[i].peek(input) {
            return true;
        }
        i = i + 1;
    }
    false
}

impl Value {
    /// The value of a parser of one character.
    pub fn character(c: char) -> (v: Value)
        ensures
            v == Value::Char(c),
            v@ == Tree::Char(c),
    {
        Value::Char(c)
    }
}

/// Whether the result `r` of a parse is the one that `o` describes.
pub open spec fn agrees(r: Result<Value, ParseError>, o: Outcome) -> bool {
    match r {
        Ok(v) => o.result == Ok::<Tree, Seq<Seq<char>>>(v@),
        Err(e) => o.result == Err::<Tree, Seq<Seq<char>>>(e@),
    }
}

/// Assembles the message of a type of which only the path is known.
pub fn no_parser(path: &str) -> (message: String)
    ensures
        message@ == opaque_message(path@),
{
    let mut message = String::from_str("no parser is known for ");
    message.append(path);
    message
}

/// Assembles the message of an enum of which no variant matches.
pub fn no_variant(name: &str) -> (message: String)
    ensures
        message@ == no_variant_message(name@),
{
    let mut message = String::from_str("no variants of ");
    message.append(name);
    message.append(" could be parsed");
    message
}

/// A copy of a list of strings.
pub fn clone_strings(strings: &Vec<String>) -> (copy: Vec<String>)
    ensures
        texts_of(copy@) == texts_of(strings@),
        copy@.len() == strings@.len(),
        forall|i: int| 0 <= i < strings@.len() ==> copy@[i]@ == strings@[i]@,
{
    let mut copy: Vec<String> = Vec::new();
    let n: usize = strings.len();
    let mut i: usize = 0;
    while i < n
        invariant
            n == strings@.len(),
            i <= n,
            copy@.len() == i,
            forall|j: int| 0 <= j < i ==> copy@[j]@ == strings@[j]@,
        decreases n - i,
    {
        copy.push(strings[i].clone());
        i = i + 1;
    }
    assert(texts_of(copy@) =~= texts_of(strings@));
    copy
}

impl Procedure {
    /// Runs the steps on `input` and builds the value from the values of the
    /// fields. The first step that fails ends the run; its error comes back
    /// under the context of the step.
    #[verifier::loop_isolation(false)]
    #[verifier::rlimit(60)]
    pub fn parse<B: Buffer<char>>(&self, input: &mut B) -> (r: Result<Value, ParseError>)
        ensures
            agrees(r, routine_spec(self@, old(input).remaining())),
            final(input).remaining() == old(input).remaining().skip(
                routine_spec(self@, old(input).remaining()).len as int,
            ),
        decreases self, 1nat,
    {
        let ghost start = input.remaining();
        let ghost actions = actions_of(self.steps@);
        let ghost mut done: nat = 0;
        proof {
            assert(start.skip(0) =~= start);
            lemma_actions_of(self.steps@);
            lemma_extend_start(run(actions, 0, start));
            assert(routine_spec(self@, start).len == run(actions, 0, start).len);
        }
        let mut fields: Vec<Value> = Vec::new();
        let n: usize = self.steps.len();
        let mut i: usize = 0;
        while i < n
            invariant
                i <= n,
                done <= start.len(),
                input.remaining() == start.skip(done as int),
                run(actions, 0, start) == extend(
                    trees_of(fields@),
                    done,
                    run(actions, i as nat, input.remaining()),
                ),
            decreases n - i,
        {
            let ghost here = input.remaining();
            proof {
                lemma_run_len(actions, i as nat, here);
                assert(actions[i as int] == action_of(self.steps@[i as int]));
            }
            let ghost read: nat;
            match &self.steps[i] {
                Step::Whitespace(policy) => {
                    policy.drain(input);
                    proof {
                        read = ignored_len(*policy, here);
                    }
                },
                Step::Fix { tag, context } => {
                    match tag.parse(input) {
                        Ok(_) => {
                            proof {
                                read = tag@.len();
                            }
                        },
                        Err(e) => {
                            proof {
                                let taken = tag_taken(tag@, here).len();
                                assert(start.skip(done as int).skip(taken as int) =~= start.skip(
                                    (done + taken) as int,
                                ));
                                assert(seq![context@] + e@ =~= seq![
                                    context@,
                                    tag_message(debug_str(tag@), debug_str(tag_taken(tag@, here))),
                                ]);
                            }
                            return Err(e.wrap(context.clone()));
                        },
                    }
                },
                Step::Field { parser, context } => {
                    match parser.parse(input) {
                        Ok(v) => {
                            proof {
                                read = parse_spec(parser@, here).len;
                                lemma_trees_push(fields@, v);
                                lemma_extend_prepend(
                                    trees_of(fields@),
                                    done,
                                    v@,
                                    read,
                                    run(actions, (i + 1) as nat, here.skip(read as int)),
                                );
                            }
                            fields.push(v);
                        },
                        Err(e) => {
                            proof {
                                let taken = parse_spec(parser@, here).len;
                                lemma_parse_len(parser@, here);
                                assert(start.skip(done as int).skip(taken as int) =~= start.skip(
                                    (done + taken) as int,
                                ));
                            }
                            return Err(e.wrap(context.clone()));
                        },
                    }
                },
            }
            proof {
                assert(start.skip(done as int).skip(read as int) =~= start.skip(
                    (done + read) as int,
                ));
                done = done + read;
            }
            i = i + 1;
        }
        proof {
            lemma_extend_end(trees_of(fields@), done);
        }
        if self.named {
            Ok(
                Value::Struct {
                    path: self.path.clone(),
                    names: clone_strings(&self.names),
                    fields,
                },
            )
        } else {
            Ok(Value::Tuple { path: self.path.clone(), fields })
        }
    }
}

impl Choice {
    /// Peeks the variants in the order of their declaration, each on a fresh
    /// cursor, and parses the first one that matches. Where none matches,
    /// nothing is read and the error names the enum.
    pub fn parse<B: Buffer<char>>(&self, input: &mut B) -> (r: Result<Value, ParseError>)
        ensures
            agrees(r, parse_spec(self@, old(input).remaining())),
            final(input).remaining() == old(input).remaining().skip(
                parse_spec(self@, old(input).remaining()).len as int,
            ),
        decreases self, 1nat,
    {
        parse_variants(self.name.as_str(), &self.variants, input)
    }
}

/// Peeks the procedures in order, each on a fresh cursor, and parses the
/// first one that matches. Where none matches, nothing is read and the error
/// names the enum.
#[verifier::loop_isolation(false)]
pub fn parse_variants<B: Buffer<char>>(name: &str, variants: &Vec<Procedure>, input: &mut B) -> (r:
    Result<Value, ParseError>)
    ensures
        agrees(r, dispatch(name@, routines_of(variants@), 0, old(input).remaining())),
        final(input).remaining() == old(input).remaining().skip(
            dispatch(name@, routines_of(variants@), 0, old(input).remaining()).len as int,
        ),
    decreases variants, 1nat,
{
    let ghost start = input.remaining();
    let ghost routines = routines_of(variants@);
    proof {
        lemma_routines_of(variants@);
        assert(start.skip(0) =~= start);
    }
    let n: usize = variants.len();
    let mut i: usize = 0;
    while i < n
        invariant
            i <= n,
            input.remaining() == start,
            dispatch(name@, routines, 0, start) == dispatch(name@, routines, i as nat, start),
        decreases n - i,
    {
        proof {
            assert(routines[i as int] == routine_of(variants@[i as int]));
        }
        let mut cursor = input.cursor();
        if variants[i].peek(&mut cursor) {
            return variants[i].parse(input);
        }
        i = i + 1;
    }
    Err(ParseError::new(no_variant(name)))
}

impl TypeRef {
    /// Parses a value from `input`. The result and the number of tokens read
    /// are those of `parse_spec`, on success and on failure alike.
    #[verifier::loop_isolation(false)]
    pub fn parse<B: Buffer<char>>(&self, input: &mut B) -> (r: Result<Value, ParseError>)
        ensures
            agrees(r, parse_spec(self@, old(input).remaining())),
            final(input).remaining() == old(input).remaining().skip(
                parse_spec(self@, old(input).remaining()).len as int,
            ),
        decreases self, 1nat,
    {
        let ghost start = input.remaining();
        proof {
            assert(start.skip(0) =~= start);
        }
        match self {
            TypeRef::Tag(tag) => {
                let r = match tag.parse(input) {
                    Ok(_) => Ok(Value::Unit),
                    Err(e) => Err(e),
                };
                r
            },
            TypeRef::OneOf(set) => {
                let r = match set.parse(input) {
                    Ok(c) => Ok(Value::character(c)),
                    Err(e) => Err(e),
                };
                r
            },
            TypeRef::OneInRange(range) => {
                let r = match range.parse(input) {
                    Ok(c) => Ok(Value::character(c)),
                    Err(e) => Err(e),
                };
                r
            },
            TypeRef::Optional(inner) => {
                let mut cursor = input.cursor();
                if inner.peek(&mut cursor) {
                    let r = match inner.parse(input) {
                        Ok(v) => Ok(Value::Present(Box::new(v))),
                        Err(e) => Err(e),
                    };
                    r
                } else {
                    Ok(Value::Absent)
                }
            },
            TypeRef::Vector(_) => self.parse_many(input),
            TypeRef::SeparatedBy(_, _) => self.parse_separated(input),
            TypeRef::Until(_, _) => self.parse_until(input),
            TypeRef::Struct(procedure) => procedure.parse(input),
            TypeRef::Enum(choice) => {
                let r = choice.parse(input);
                r
            },
            TypeRef::Opaque(path) => Err(ParseError::new(no_parser(path.as_str()))),
        }
    }

    /// The items of a vector: the inner parser as long as a peek of it
    /// succeeds and reads a token.
    #[verifier::loop_isolation(false)]
    fn parse_many<B: Buffer<char>>(&self, input: &mut B) -> (r: Result<Value, ParseError>)
        requires
            self is Vector,
        ensures
            agrees(r, parse_spec(self@, old(input).remaining())),
            final(input).remaining() == old(input).remaining().skip(
                parse_spec(self@, old(input).remaining()).len as int,
            ),
        decreases self, 0nat,
    {
        let ghost start = input.remaining();
        let ghost g = self@;
        proof {
            assert(start.skip(0) =~= start);
        }
        match self {
            TypeRef::Vector(inner) => {
                let mut items: Vec<Value> = Vec::new();
                let ghost mut done: nat = 0;
                proof {
                    lemma_extend_start(many(g, start));
                }
                loop
                    invariant
                        done <= start.len(),
                        input.remaining() == start.skip(done as int),
                        many(g, start) == extend(
                            trees_of(items@),
                            done,
                            many(g, input.remaining()),
                        ),
                    decreases input.remaining().len(),
                {
                    let ghost here = input.remaining();
                    let before: usize = input.available();
                    let mut cursor = input.cursor();
                    let matched = inner.peek(&mut cursor);
                    proof {
                        lemma_parse_len(inner@, here);
                        lemma_extend_end(trees_of(items@), done);
                    }
                    if !matched || cursor.available() == before {
                        break;
                    }
                    match inner.parse(input) {
                        Ok(v) => {
                            proof {
                                let n = parse_spec(inner@, here).len;
                                lemma_trees_push(items@, v);
                                lemma_extend_prepend(
                                    trees_of(items@),
                                    done,
                                    v@,
                                    n,
                                    many(g, here.skip(n as int)),
                                );
                                assert(start.skip(done as int).skip(n as int) =~= start.skip(
                                    (done + n) as int,
                                ));
                                done = done + n;
                            }
                            items.push(v);
                        },
                        Err(e) => {
                            return Err(e);
                        },
                    }
                }
                Ok(Value::List(items))
            },
            _ => Ok(Value::Absent),
        }
    }

    /// The items of a separated list: one item, then separator and item
    /// as long as a peek of the separator succeeds.
    #[verifier::loop_isolation(false)]
    fn parse_separated<B: Buffer<char>>(&self, input: &mut B) -> (r: Result<Value, ParseError>)
        requires
            self is SeparatedBy,
        ensures
            agrees(r, parse_spec(self@, old(input).remaining())),
            final(input).remaining() == old(input).remaining().skip(
                parse_spec(self@, old(input).remaining()).len as int,
            ),
        decreases self, 0nat,
    {
        let ghost start = input.remaining();
        let ghost g = self@;
        proof {
            assert(start.skip(0) =~= start);
        }
        match self {
            TypeRef::SeparatedBy(item, sep) => {
                let mut items: Vec<Value> = Vec::new();
                let ghost mut done: nat;
                proof {
                    lemma_parse_len(item@, start);
                }
                match item.parse(input) {
                    Ok(v) => {
                        proof {
                            done = parse_spec(item@, start).len;
                            lemma_trees_push(items@, v);
                            lemma_extend_start(separated(g, start));
                            lemma_extend_prepend(
                                Seq::empty(),
                                0,
                                v@,
                                done,
                                separated_more(g, start.skip(done as int)),
                            );
                        }
                        items.push(v);
                    },
                    Err(e) => {
                        return Err(e);
                    },
                }
                loop
                    invariant
                        done <= start.len(),
                        input.remaining() == start.skip(done as int),
                        separated(g, start) == extend(
                            trees_of(items@),
                            done,
                            separated_more(g, input.remaining()),
                        ),
                    decreases input.remaining().len(),
                {
                    let ghost here = input.remaining();
                    let before: usize = input.available();
                    let mut cursor = input.cursor();
                    let matched = sep.peek(&mut cursor);
                    proof {
                        lemma_extend_end(trees_of(items@), done);
                    }
                    if !matched {
                        break;
                    }
                    let ghost between = parse_spec(sep@, here).len;
                    proof {
                        lemma_parse_len(sep@, here);
                        lemma_parse_len(item@, here.skip(between as int));
                    }
                    match sep.parse(input) {
                        Ok(_) => {},
                        Err(e) => {
                            return Err(e);
                        },
                    }
                    let ghost n = between + parse_spec(item@, here.skip(between as int)).len;
                    proof {
                        assert(here.skip(between as int).skip(n - between) =~= here.skip(n as int));
                        assert(start.skip(done as int).skip(n as int) =~= start.skip(
                            (done + n) as int,
                        ));
                        assert(here.skip(0) =~= here);
                    }
                    match item.parse(input) {
                        Ok(v) => {
                            if input.available() == before {
                                break;
                            }
                            proof {
                                lemma_trees_push(items@, v);
                                lemma_extend_prepend(
                                    trees_of(items@),
                                    done,
                                    v@,
                                    n,
                                    separated_more(g, here.skip(n as int)),
                                );
                                done = done + n;
                            }
                            items.push(v);
                        },
                        Err(e) => {
                            return Err(e);
                        },
                    }
                }
                Ok(Value::List(items))
            },
            _ => Ok(Value::Absent),
        }
    }

    /// The items of a delimited list: items as long as a peek of the
    /// delimiter fails.
    #[verifier::loop_isolation(false)]
    fn parse_until<B: Buffer<char>>(&self, input: &mut B) -> (r: Result<Value, ParseError>)
        requires
            self is Until,
        ensures
            agrees(r, parse_spec(self@, old(input).remaining())),
            final(input).remaining() == old(input).remaining().skip(
                parse_spec(self@, old(input).remaining()).len as int,
            ),
        decreases self, 0nat,
    {
        let ghost start = input.remaining();
        let ghost g = self@;
        proof {
            assert(start.skip(0) =~= start);
        }
        match self {
            TypeRef::Until(item, stop) => {
                let mut items: Vec<Value> = Vec::new();
                let ghost mut done: nat = 0;
                proof {
                    lemma_extend_start(until(g, start));
                }
                loop
                    invariant
                        done <= start.len(),
                        input.remaining() == start.skip(done as int),
                        until(g, start) == extend(
                            trees_of(items@),
                            done,
                            until(g, input.remaining()),
                        ),
                    decreases input.remaining().len(),
                {
                    let ghost here = input.remaining();
                    let mut cursor = input.cursor();
                    let stopped = stop.peek(&mut cursor);
                    proof {
                        lemma_extend_end(trees_of(items@), done);
                        lemma_parse_len(item@, here);
                        assert(here.skip(0) =~= here);
                    }
                    if stopped {
                        break;
                    }
                    let before: usize = input.available();
                    let ghost n = parse_spec(item@, here).len;
                    proof {
                        assert(start.skip(done as int).skip(n as int) =~= start.skip(
                            (done + n) as int,
                        ));
                    }
                    match item.parse(input) {
                        Ok(v) => {
                            if input.available() == before {
                                break;
                            }
                            proof {
                                lemma_trees_push(items@, v);
                                lemma_extend_prepend(
                                    trees_of(items@),
                                    done,
                                    v@,
                                    n,
                                    until(g, here.skip(n as int)),
                                );
                                done = done + n;
                            }
                            items.push(v);
                        },
                        Err(e) => {
                            return Err(e);
                        },
                    }
                }
                Ok(Value::List(items))
            },
            _ => Ok(Value::Absent),
        }
    }
}

/// The models of the first `i + 1` steps are those of the first `i`, and the
/// model of the `i`-th.
pub proof fn lemma_actions_take(steps: Seq<Step>, i: int)
    requires
        0 <= i < steps.len(),
    ensures
        actions_of(steps.take(i + 1)) == actions_of(steps.take(i)).push(action_of(steps[i])),
{
    assert(steps.take(i + 1).drop_last() =~= steps.take(i));
}

/// The models of the first `i + 1` procedures are those of the first `i`,
/// and the model of the `i`-th.
pub proof fn lemma_routines_take(ps: Seq<Procedure>, i: int)
    requires
        0 <= i < ps.len(),
    ensures
        routines_of(ps.take(i + 1)) == routines_of(ps.take(i)).push(routine_of(ps[i])),
{
    assert(ps.take(i + 1).drop_last() =~= ps.take(i));
}

/// Pushing a step pushes its model.
pub proof fn lemma_actions_push(steps: Seq<Step>, step: Step)
    ensures
        actions_of(steps.push(step)) == actions_of(steps).push(action_of(step)),
{
    assert(steps.push(step).drop_last() =~= steps);
}

/// Pushing a procedure pushes its model.
pub proof fn lemma_routines_push(ps: Seq<Procedure>, p: Procedure)
    ensures
        routines_of(ps.push(p)) == routines_of(ps).push(routine_of(p)),
{
    assert(ps.push(p).drop_last() =~= ps);
}

impl TypeRef {
    /// A copy of the parser: another value with the same model.
    pub fn duplicate(&self) -> (copy: TypeRef)
        ensures
            copy@ == self@,
        decreases self,
    {
        match self {
            TypeRef::Tag(tag) => TypeRef::Tag(tag.duplicate()),
            TypeRef::OneOf(set) => TypeRef::OneOf(set.duplicate()),
            TypeRef::OneInRange(range) => TypeRef::OneInRange(*range),
            TypeRef::Optional(inner) => TypeRef::Optional(Box::new(inner.duplicate())),
            TypeRef::Vector(inner) => TypeRef::Vector(Box::new(inner.duplicate())),
            TypeRef::SeparatedBy(item, sep) => TypeRef::SeparatedBy(
                Box::new(item.duplicate()),
                Box::new(sep.duplicate()),
            ),
            TypeRef::Until(item, stop) => TypeRef::Until(
                Box::new(item.duplicate()),
                Box::new(stop.duplicate()),
            ),
            TypeRef::Struct(procedure) => TypeRef::Struct(procedure.duplicate()),
            TypeRef::Enum(choice) => TypeRef::Enum(choice.duplicate()),
            TypeRef::Opaque(path) => TypeRef::Opaque(path.clone()),
        }
    }
}

impl Step {
    /// A copy of the step: another value with the same model.
    pub fn duplicate(&self) -> (copy: Step)
        ensures
            copy@ == self@,
        decreases self,
    {
        match self {
            Step::Whitespace(policy) => Step::Whitespace(*policy),
            Step::Fix { tag, context } => Step::Fix {
                tag: tag.duplicate(),
                context: context.clone(),
            },
            Step::Field { parser, context } => Step::Field {
                parser: parser.duplicate(),
                context: context.clone(),
            },
        }
    }
}

impl Procedure {
    /// A copy of the procedure: another value with the same model.
    #[verifier::loop_isolation(false)]
    pub fn duplicate(&self) -> (copy: Procedure)
        ensures
            copy@ == self@,
        decreases self,
    {
        let mut steps: Vec<Step> = Vec::new();
        let n: usize = self.steps.len();
        let mut i: usize = 0;
        proof {
            assert(self.steps@.take(0) =~= Seq::<Step>::empty());
        }
        while i < n
            invariant
                i <= n,
                actions_of(steps@) == actions_of(self.steps@.take(i as int)),
            decreases n - i,
        {
            let step = self.steps[i].duplicate();
            proof {
                lemma_actions_push(steps@, step);
                lemma_actions_take(self.steps@, i as int);
            }
            steps.push(step);
            i = i + 1;
        }
        proof {
            assert(self.steps@.take(n as int) =~= self.steps@);
        }
        Procedure {
            named: self.named,
            path: self.path.clone(),
            names: clone_strings(&self.names),
            steps,
        }
    }
}

impl Choice {
    /// A copy of the choice: another value with the same model.
    pub fn duplicate(&self) -> (copy: Choice)
        ensures
            copy@ == self@,
        decreases self,
    {
        Choice { name: self.name.clone(), variants: duplicate_procedures(&self.variants) }
    }
}

/// Copies of the procedures: other values with the same models.
#[verifier::loop_isolation(false)]
pub fn duplicate_procedures(procedures: &Vec<Procedure>) -> (copies: Vec<Procedure>)
    ensures
        routines_of(copies@) == routines_of(procedures@),
    decreases procedures,
{
    let mut copies: Vec<Procedure> = Vec::new();
    let n: usize = procedures.len();
    let mut i: usize = 0;
    proof {
        assert(procedures@.take(0) =~= Seq::<Procedure>::empty());
    }
    while i < n
        invariant
            i <= n,
            routines_of(copies@) == routines_of(procedures@.take(i as int)),
        decreases n - i,
    {
        let copy = procedures[i].duplicate();
        proof {
            lemma_routines_push(copies@, copy);
            lemma_routines_take(procedures@, i as int);
        }
        copies.push(copy);
        i = i + 1;
    }
    proof {
        assert(procedures@.take(n as int) =~= procedures@);
    }
    copies
}

/// The models of a list of parsers.
pub open spec fn grammars_of(types: Seq<TypeRef>) -> Seq<Grammar> {
    Seq::new(types.len(), |i: int| types[i]@)
}

impl Procedure {
    /// The parsers that the steps call, in the order of the steps: the
    /// literal of each prefix and suffix, and the parser of each field.
    /// Derived code states a bound for each of them.
    pub fn where_clause_types(&self) -> (types: Vec<TypeRef>)
        ensures
            grammars_of(types@) == bound_grammars(self@.steps),
    {
        let mut types: Vec<TypeRef> = Vec::new();
        let n: usize = self.steps.len();
        let mut i: usize = 0;
        proof {
            assert(self.steps@.take(0) =~= Seq::<Step>::empty());
            assert(grammars_of(types@) =~= Seq::<Grammar>::empty());
        }
        while i < n
            invariant
                n == self.steps@.len(),
                i <= n,
                grammars_of(types@) == bound_grammars(actions_of(self.steps@.take(i as int))),
            decreases n - i,
        {
            let ghost before = types@;
            proof {
                lemma_actions_take(self.steps@, i as int);
                let actions = actions_of(self.steps@.take(i + 1));
                assert(actions.drop_last() =~= actions_of(self.steps@.take(i as int)));
                assert(actions.last() == action_of(self.steps@[i as int]));
            }
            match &self.steps[i] {
                Step::Whitespace(_) => {},
                Step::Fix { tag, context } => {
                    let ty = TypeRef::Tag(tag.duplicate());
                    types.push(ty);
                    assert(grammars_of(types@) =~= grammars_of(before).push(ty@));
                },
                Step::Field { parser, context } => {
                    let ty = parser.duplicate();
                    types.push(ty);
                    assert(grammars_of(types@) =~= grammars_of(before).push(ty@));
                },
            }
            i = i + 1;
        }
        proof {
            assert(self.steps@.take(n as int) =~= self.steps@);
        }
        types
    }
}

} // verus!

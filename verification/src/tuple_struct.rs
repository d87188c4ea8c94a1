//! Deriving the peek and parse procedures of a struct with positional
//! fields.

use crate::attr::{text_of, type_names, type_params, GenericParam, GlobalAttr};
use crate::buffer::Buffer;
use crate::builder::{owner_text, plans_of, routine_actions, FunctionBuilder, UnnamedField};
use crate::error::ParseError;
use crate::grammar::{parse_spec, peek_spec, routine_spec, Grammar, Routine};
use crate::parsers::{agrees, clone_strings, texts_of, Procedure, TypeRef, Value};
use vstd::prelude::*;

verus! {

/// The declaration of a struct with positional fields.
#[derive(Debug)]
pub struct TupleStructInput {
    /// The directives of the struct.
    pub attrs: GlobalAttr,
    /// The name of the struct.
    pub name: String,
    /// The names of its type parameters.
    pub args: Vec<String>,
    /// Its fields, in the order of their declaration.
    pub fields: Vec<UnnamedField>,
}

/// The procedure that is derived for a tuple struct with the given
/// directives, name and fields.
pub open spec fn tuple_routine(attrs: GlobalAttr, name: Seq<char>, fields: Seq<UnnamedField>) -> Routine {
    Routine {
        named: false,
        path: name,
        names: Seq::empty(),
        steps: routine_actions(
            attrs.ignore_whitespace,
            text_of(attrs.prefix),
            text_of(attrs.suffix),
            plans_of(fields),
            owner_text("tuple"@, name),
        ),
    }
}

/// Builds the procedure of a tuple struct.
pub fn derive_tuple(attrs: &GlobalAttr, name: &str, fields: &Vec<UnnamedField>) -> (procedure:
    Procedure)
    ensures
        procedure@ == tuple_routine(*attrs, name@, fields@),
{
    let mut builder = FunctionBuilder::new(attrs.ignore_whitespace, "tuple", name);
    builder.procedure(attrs, fields);
    let names: Vec<String> = Vec::new();
    assert(texts_of(names@) =~= Seq::<Seq<char>>::empty());
    Procedure { named: false, path: String::from_str(name), names, steps: builder.finish() }
}

impl TupleStructInput {
    /// The procedure that is derived from the declaration.
    pub open spec fn routine(&self) -> Routine {
        tuple_routine(self.attrs, self.name@, self.fields@)
    }

    /// Takes the declaration of a tuple struct. Of the generic parameters it
    /// keeps the names of the type parameters.
    pub fn new(
        name: String,
        generics: Vec<GenericParam>,
        attrs: GlobalAttr,
        fields: Vec<UnnamedField>,
    ) -> (input: TupleStructInput)
        ensures
            input.attrs == attrs,
            input.name == name,
            input.fields == fields,
            texts_of(input.args@) == type_names(generics@),
    {
        let args = type_params(&generics);
        TupleStructInput { attrs, name, args, fields }
    }

    /// Derives the peek procedure and the parse procedure.
    pub fn process(self) -> (output: TupleStructOutput)
        ensures
            output@ == Grammar::Struct(self.routine()),
            output.peek_impl().fn_impl@ == self.routine(),
            output.parse_impl().fn_impl@ == self.routine(),
            output.peek_impl().attrs == self.attrs,
            output.parse_impl().attrs == self.attrs,
            output.peek_impl().name == self.name,
            output.parse_impl().name == self.name,
            texts_of(output.peek_impl().args@) == texts_of(self.args@),
            texts_of(output.parse_impl().args@) == texts_of(self.args@),
    {
        let peek_impl = TupleStructPeek::new(&self);
        let parse_impl = TupleStructParse::new(&self);
        TupleStructOutput { peek_impl, parse_impl }
    }
}

/// What is derived for a tuple struct: its peek procedure and its parse
/// procedure, which run the same steps.
#[derive(Debug)]
pub struct TupleStructOutput {
    peek_impl: TupleStructPeek,
    parse_impl: TupleStructParse,
}

impl View for TupleStructOutput {
    type V = Grammar;

    /// The struct as a parser.
    closed spec fn view(&self) -> Grammar {
        Grammar::Struct(self.parse_impl.fn_impl@)
    }
}

impl TupleStructOutput {
    #[verifier::type_invariant]
    spec fn inv(self) -> bool {
        self.peek_impl.fn_impl@ == self.parse_impl.fn_impl@
    }

    /// The peek procedure.
    pub closed spec fn spec_peek_impl(&self) -> &TupleStructPeek {
        &self.peek_impl
    }

    /// The parse procedure.
    pub closed spec fn spec_parse_impl(&self) -> &TupleStructParse {
        &self.parse_impl
    }

    /// The peek procedure.
    #[verifier::when_used_as_spec(spec_peek_impl)]
    pub fn peek_impl(&self) -> (peek_impl: &TupleStructPeek)
        ensures
            peek_impl == self.spec_peek_impl(),
    {
        &self.peek_impl
    }

    /// The parse procedure.
    #[verifier::when_used_as_spec(spec_parse_impl)]
    pub fn parse_impl(&self) -> (parse_impl: &TupleStructParse)
        ensures
            parse_impl == self.spec_parse_impl(),
    {
        &self.parse_impl
    }

    /// The derived peek: tests on a cursor whether a parse would succeed. If
    /// it would, `input` moves past what the parse would read; if not,
    /// `input` stays where it was.
    pub fn peek<B: Buffer<char>>(&self, input: &mut B) -> (ok: bool)
        ensures
            ok == peek_spec(self@, old(input).remaining()),
            ok ==> final(input).remaining() == old(input).remaining().skip(
                parse_spec(self@, old(input).remaining()).len as int,
            ),
            !ok ==> final(input).remaining() == old(input).remaining(),
    {
        proof {
            use_type_invariant(self);
        }
        self.peek_impl.peek(input)
    }

    /// The derived parse: reads the struct from `input`.
    pub fn parse<B: Buffer<char>>(&self, input: &mut B) -> (r: Result<Value, ParseError>)
        ensures
            agrees(r, parse_spec(self@, old(input).remaining())),
            final(input).remaining() == old(input).remaining().skip(
                parse_spec(self@, old(input).remaining()).len as int,
            ),
    {
        self.parse_impl.parse(input)
    }

    /// The struct as a parser, to stand in a field of another datatype.
    pub fn type_ref(&self) -> (ty: TypeRef)
        ensures
            ty@ == self@,
    {
        TypeRef::Struct(self.parse_impl.fn_impl.duplicate())
    }
}

/// The peek procedure of a tuple struct.
#[derive(Debug)]
pub struct TupleStructPeek {
    /// The steps of the procedure.
    pub fn_impl: Procedure,
    /// The directives of the struct.
    pub attrs: GlobalAttr,
    /// The name of the struct.
    pub name: String,
    /// The names of its type parameters.
    pub args: Vec<String>,
}

impl TupleStructPeek {
    /// The peek procedure of the struct that `input` declares.
    pub fn new(input: &TupleStructInput) -> (peek_impl: Self)
        ensures
            peek_impl.fn_impl@ == input.routine(),
            peek_impl.attrs == input.attrs,
            peek_impl.name == input.name,
            texts_of(peek_impl.args@) == texts_of(input.args@),
    {
        TupleStructPeek {
            fn_impl: derive_tuple(&input.attrs, input.name.as_str(), &input.fields),
            attrs: input.attrs.duplicate(),
            name: input.name.clone(),
            args: clone_strings(&input.args),
        }
    }

    /// Tests on a cursor whether the steps would all succeed. If they would,
    /// `input` moves past what they read; if not, `input` stays where it was.
    pub fn peek<B: Buffer<char>>(&self, input: &mut B) -> (ok: bool)
        ensures
            ok == routine_spec(self.fn_impl@, old(input).remaining()).result is Ok,
            ok ==> final(input).remaining() == old(input).remaining().skip(
                routine_spec(self.fn_impl@, old(input).remaining()).len as int,
            ),
            !ok ==> final(input).remaining() == old(input).remaining(),
    {
        self.fn_impl.peek(input)
    }
}

/// The parse procedure of a tuple struct.
#[derive(Debug)]
pub struct TupleStructParse {
    /// The steps of the procedure, and how to build the value.
    pub fn_impl: Procedure,
    /// The directives of the struct.
    pub attrs: GlobalAttr,
    /// The name of the struct.
    pub name: String,
    /// The names of its type parameters.
    pub args: Vec<String>,
}

impl TupleStructParse {
    /// The parse procedure of the struct that `input` declares.
    pub fn new(input: &TupleStructInput) -> (parse_impl: Self)
        ensures
            parse_impl.fn_impl@ == input.routine(),
            parse_impl.attrs == input.attrs,
            parse_impl.name == input.name,
            texts_of(parse_impl.args@) == texts_of(input.args@),
    {
        TupleStructParse {
            fn_impl: derive_tuple(&input.attrs, input.name.as_str(), &input.fields),
            attrs: input.attrs.duplicate(),
            name: input.name.clone(),
            args: clone_strings(&input.args),
        }
    }

    /// Runs the steps on `input` and builds the struct from the values of
    /// the fields.
    pub fn parse<B: Buffer<char>>(&self, input: &mut B) -> (r: Result<Value, ParseError>)
        ensures
            agrees(r, routine_spec(self.fn_impl@, old(input).remaining())),
            final(input).remaining() == old(input).remaining().skip(
                routine_spec(self.fn_impl@, old(input).remaining()).len as int,
            ),
    {
        self.fn_impl.parse(input)
    }
}

} // verus!

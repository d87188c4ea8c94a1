//! Deriving the peek and parse procedures of a struct with named fields.

use crate::attr::{text_of, type_names, type_params, GenericParam, GlobalAttr};
use crate::buffer::Buffer;
use crate::builder::{
    field_names, find_repeat, first_repeat, names_of, owner_text, plans_of, routine_actions,
    FunctionBuilder, NamedField,
};
use crate::error::{DeriveError, Fault, ParseError};
use crate::grammar::{parse_spec, peek_spec, routine_spec, Grammar, Routine};
use crate::parsers::{agrees, clone_strings, texts_of, Procedure, TypeRef, Value};
use vstd::prelude::*;

verus! {

/// The declaration of a struct with named fields.
#[derive(Debug)]
pub struct NamedStructInput {
    /// The directives of the struct.
    pub attrs: GlobalAttr,
    /// The name of the struct.
    pub name: String,
    /// The names of its type parameters.
    pub args: Vec<String>,
    /// Its fields, in the order of their declaration.
    pub fields: Vec<NamedField>,
}

/// The procedure that is derived for a struct with the given directives,
/// name and fields.
pub open spec fn struct_routine(attrs: GlobalAttr, name: Seq<char>, fields: Seq<NamedField>) -> Routine {
    Routine {
        named: true,
        path: name,
        names: names_of(fields),
        steps: routine_actions(
            attrs.ignore_whitespace,
            text_of(attrs.prefix),
            text_of(attrs.suffix),
            plans_of(fields),
            owner_text("struct"@, name),
        ),
    }
}

impl NamedStructInput {
    /// The procedure that is derived from the declaration.
    pub open spec fn routine(&self) -> Routine {
        struct_routine(self.attrs, self.name@, self.fields@)
    }

    /// Takes the declaration of a struct. Of the generic parameters it keeps
    /// the names of the type parameters. Nothing can be derived from a
    /// declaration in which two fields share a name: such a declaration is
    /// not to be passed in. `find_repeat` tests for it, and `try_new` makes
    /// the test itself.
    pub fn new(
        name: String,
        generics: Vec<GenericParam>,
        attrs: GlobalAttr,
        fields: Vec<NamedField>,
    ) -> (input: NamedStructInput)
        requires
            first_repeat(names_of(fields@)) is None,
        ensures
            input.attrs == attrs,
            input.name == name,
            input.fields == fields,
            texts_of(input.args@) == type_names(generics@),
    {
        let args = type_params(&generics);
        NamedStructInput { attrs, name, args, fields }
    }

    /// Takes the declaration of a struct if something can be derived from
    /// it. A declaration in which two fields share a name is refused, with
    /// the name of the first field that repeats an earlier one.
    pub fn try_new(
        name: String,
        generics: Vec<GenericParam>,
        attrs: GlobalAttr,
        fields: Vec<NamedField>,
    ) -> (r: Result<NamedStructInput, DeriveError>)
        ensures
            match first_repeat(names_of(fields@)) {
                None => r matches Ok(input) && input.attrs == attrs && input.name == name
                    && input.fields == fields && texts_of(input.args@) == type_names(generics@),
                Some(j) => r matches Err(e) && e@ == Fault::DuplicateField(
                    names_of(fields@)[j as int],
                ),
            },
    {
        match find_repeat(&fields) {
            Some(j) => Err(DeriveError::DuplicateField(fields[j].name.clone())),
            None => Ok(NamedStructInput::new(name, generics, attrs, fields)),
        }
    }

    /// Derives the peek procedure and the parse procedure.
    pub fn process(self) -> (output: NamedStructOutput)
        ensures
            output@ == Grammar::Struct(self.routine()),
            output.peek_impl().fn_impl@ == self.routine(),
            output.parse_impl().fn_impl@ == self.routine(),
            output.peek_impl().attrs == self.attrs,
            output.parse_impl().attrs == self.attrs,
            output.peek_impl().name == self.name,
            output.parse_impl().name == self.name,
            texts_of(output.peek_impl().args@) == texts_of(self.args@),
            texts_of(output.parse_impl().args@) == texts_of(self.args@),
    {
        let peek_impl = NamedStructPeek::new(&self);
        let parse_impl = NamedStructParse::new(&self);
        NamedStructOutput { peek_impl, parse_impl }
    }
}

/// What is derived for a struct: its peek procedure and its parse procedure,
/// which run the same steps.
#[derive(Debug)]
pub struct NamedStructOutput {
    peek_impl: NamedStructPeek,
    parse_impl: NamedStructParse,
}

impl View for NamedStructOutput {
    type V = Grammar;

    /// The struct as a parser.
    closed spec fn view(&self) -> Grammar {
        Grammar::Struct(self.parse_impl.fn_impl@)
    }
}

impl NamedStructOutput {
    #[verifier::type_invariant]
    spec fn inv(self) -> bool {
        self.peek_impl.fn_impl@ == self.parse_impl.fn_impl@
    }

    /// The peek procedure.
    pub closed spec fn spec_peek_impl(&self) -> &NamedStructPeek {
        &self.peek_impl
    }

    /// The parse procedure.
    pub closed spec fn spec_parse_impl(&self) -> &NamedStructParse {
        &self.parse_impl
    }

    /// The peek procedure.
    #[verifier::when_used_as_spec(spec_peek_impl)]
    pub fn peek_impl(&self) -> (peek_impl: &NamedStructPeek)
        ensures
            peek_impl == self.spec_peek_impl(),
    {
        &self.peek_impl
    }

    /// The parse procedure.
    #[verifier::when_used_as_spec(spec_parse_impl)]
    pub fn parse_impl(&self) -> (parse_impl: &NamedStructParse)
        ensures
            parse_impl == self.spec_parse_impl(),
    {
        &self.parse_impl
    }

    /// The derived peek: tests on a cursor whether a parse would succeed. If
    /// it would, `input` moves past what the parse would read; if not,
    /// `input` stays where it was.
    pub fn peek<B: Buffer<char>>(&self, input: &mut B) -> (ok: bool)
        ensures
            ok == peek_spec(self@, old(input).remaining()),
            ok ==> final(input).remaining() == old(input).remaining().skip(
                parse_spec(self@, old(input).remaining()).len as int,
            ),
            !ok ==> final(input).remaining() == old(input).remaining(),
    {
        proof {
            use_type_invariant(self);
        }
        self.peek_impl.peek(input)
    }

    /// The derived parse: reads the struct from `input`.
    pub fn parse<B: Buffer<char>>(&self, input: &mut B) -> (r: Result<Value, ParseError>)
        ensures
            agrees(r, parse_spec(self@, old(input).remaining())),
            final(input).remaining() == old(input).remaining().skip(
                parse_spec(self@, old(input).remaining()).len as int,
            ),
    {
        self.parse_impl.parse(input)
    }

    /// The struct as a parser, to stand in a field of another datatype.
    pub fn type_ref(&self) -> (ty: TypeRef)
        ensures
            ty@ == self@,
    {
        TypeRef::Struct(self.parse_impl.fn_impl.duplicate())
    }
}

/// The peek procedure of a struct.
#[derive(Debug)]
pub struct NamedStructPeek {
    /// The steps of the procedure.
    pub fn_impl: Procedure,
    /// The directives of the struct.
    pub attrs: GlobalAttr,
    /// The name of the struct.
    pub name: String,
    /// The names of its type parameters.
    pub args: Vec<String>,
}

impl NamedStructPeek {
    /// The peek procedure of the struct that `input` declares.
    pub fn new(input: &NamedStructInput) -> (peek_impl: Self)
        ensures
            peek_impl.fn_impl@ == input.routine(),
            peek_impl.attrs == input.attrs,
            peek_impl.name == input.name,
            texts_of(peek_impl.args@) == texts_of(input.args@),
    {
        let mut peek_impl = NamedStructPeek {
            fn_impl: Procedure {
                named: true,
                path: input.name.clone(),
                names: Vec::new(),
                steps: Vec::new(),
            },
            attrs: input.attrs.duplicate(),
            name: input.name.clone(),
            args: clone_strings(&input.args),
        };
        peek_impl.enrich(&input.fields);
        peek_impl
    }

    /// Fills in the steps for `fields`, under the directives and the name
    /// that `self` holds.
    pub fn enrich(&mut self, fields: &Vec<NamedField>)
        ensures
            final(self).fn_impl@ == struct_routine(old(self).attrs, old(self).name@, fields@),
            final(self).attrs == old(self).attrs,
            final(self).name == old(self).name,
            final(self).args == old(self).args,
    {
        let mut builder = FunctionBuilder::new(
            self.attrs.ignore_whitespace,
            "struct",
            self.name.as_str(),
        );
        builder.procedure(&self.attrs, fields);
        self.fn_impl =
        Procedure {
            named: true,
            path: self.name.clone(),
            names: field_names(fields),
            steps: builder.finish(),
        };
    }

    /// Tests on a cursor whether the steps would all succeed. If they would,
    /// `input` moves past what they read; if not, `input` stays where it was.
    pub fn peek<B: Buffer<char>>(&self, input: &mut B) -> (ok: bool)
        ensures
            ok == routine_spec(self.fn_impl@, old(input).remaining()).result is Ok,
            ok ==> final(input).remaining() == old(input).remaining().skip(
                routine_spec(self.fn_impl@, old(input).remaining()).len as int,
            ),
            !ok ==> final(input).remaining() == old(input).remaining(),
    {
        self.fn_impl.peek(input)
    }
}

/// The parse procedure of a struct.
#[derive(Debug)]
pub struct NamedStructParse {
    /// The steps of the procedure, and how to build the value.
    pub fn_impl: Procedure,
    /// The directives of the struct.
    pub attrs: GlobalAttr,
    /// The name of the struct.
    pub name: String,
    /// The names of its type parameters.
    pub args: Vec<String>,
}

impl NamedStructParse {
    /// The parse procedure of the struct that `input` declares.
    pub fn new(input: &NamedStructInput) -> (parse_impl: Self)
        ensures
            parse_impl.fn_impl@ == input.routine(),
            parse_impl.attrs == input.attrs,
            parse_impl.name == input.name,
            texts_of(parse_impl.args@) == texts_of(input.args@),
    {
        let mut parse_impl = NamedStructParse {
            fn_impl: Procedure {
                named: true,
                path: input.name.clone(),
                names: Vec::new(),
                steps: Vec::new(),
            },
            attrs: input.attrs.duplicate(),
            name: input.name.clone(),
            args: clone_strings(&input.args),
        };
        parse_impl.enrich(&input.fields);
        parse_impl
    }

    /// Fills in the steps for `fields`, under the directives and the name
    /// that `self` holds.
    pub fn enrich(&mut self, fields: &Vec<NamedField>)
        ensures
            final(self).fn_impl@ == struct_routine(old(self).attrs, old(self).name@, fields@),
            final(self).attrs == old(self).attrs,
            final(self).name == old(self).name,
            final(self).args == old(self).args,
    {
        let mut builder = FunctionBuilder::new(
            self.attrs.ignore_whitespace,
            "struct",
            self.name.as_str(),
        );
        builder.procedure(&self.attrs, fields);
        self.fn_impl =
        Procedure {
            named: true,
            path: self.name.clone(),
            names: field_names(fields),
            steps: builder.finish(),
        };
    }

    /// Runs the steps on `input` and builds the struct from the values of
    /// the fields.
    pub fn parse<B: Buffer<char>>(&self, input: &mut B) -> (r: Result<Value, ParseError>)
        ensures
            agrees(r, routine_spec(self.fn_impl@, old(input).remaining())),
            final(input).remaining() == old(input).remaining().skip(
                routine_spec(self.fn_impl@, old(input).remaining()).len as int,
            ),
    {
        self.fn_impl.parse(input)
    }
}

} // verus!

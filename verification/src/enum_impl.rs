//! Deriving the peek and parse procedures of an enum.

use crate::attr::{text_of, type_names, type_params, GenericParam, GlobalAttr};
use crate::buffer::Buffer;
use crate::builder::{
    field_names, find_repeat, first_repeat, names_of, owner_text, plans_of, routine_actions,
    show_variant_path, variant_path, FieldType, FunctionBuilder, NamedField, UnnamedField,
};
use crate::error::{DeriveError, Fault, ParseError};
use crate::grammar::{parse_spec, peek_spec, Grammar, Routine};
use crate::parsers::{
    agrees, clone_strings, duplicate_procedures, lemma_routines_push, parse_variants,
    peek_variants, routines_of, texts_of, Choice, Procedure, TypeRef, Value,
};
use crate::text::{lowercase, to_lower};
use vstd::prelude::*;

verus! {

/// The fields of a variant as it is declared.
#[derive(Debug)]
pub enum Fields {
    /// Fields with names.
    Named(Vec<NamedField>),
    /// Fields that are known by their position.
    Unnamed(Vec<UnnamedField>),
    /// No fields at all.
    Unit,
}

/// A variant of an enum as it is declared.
#[derive(Debug)]
pub struct Variant {
    pub name: String,
    pub fields: Fields,
}

/// A variant of an enum from which a procedure can be derived.
#[derive(Debug)]
pub struct EnumField {
    pub name: String,
    pub field_type: EnumFieldType,
}

/// The fields of a variant from which a procedure can be derived.
#[derive(Debug)]
pub enum EnumFieldType {
    /// Fields that are known by their position.
    Tuple(Vec<UnnamedField>),
    /// Fields with names.
    Named(Vec<NamedField>),
}

/// The declaration of an enum.
#[derive(Debug)]
pub struct EnumInput {
    /// The directives of the enum; they hold for each variant.
    pub attrs: GlobalAttr,
    /// The name of the enum.
    pub name: String,
    /// The names of its type parameters.
    pub args: Vec<String>,
    /// Its variants, in the order of their declaration.
    pub fields: Vec<EnumField>,
}

/// Why nothing can be derived from the variant, if that is so: it has no
/// fields (it is a unit variant, or its list of fields is empty), or two of
/// its fields share a name.
pub open spec fn variant_fault(variant: Variant) -> Option<Fault> {
    match variant.fields {
        Fields::Unit => Some(Fault::UnitVariant(variant.name@)),
        Fields::Named(fields) => {
            if fields@.len() == 0 {
                Some(Fault::UnitVariant(variant.name@))
            } else {
                match first_repeat(names_of(fields@)) {
                    Some(j) => Some(Fault::DuplicateField(names_of(fields@)[j as int])),
                    None => None,
                }
            }
        },
        Fields::Unnamed(fields) => {
            if fields@.len() == 0 {
                Some(Fault::UnitVariant(variant.name@))
            } else {
                None
            }
        },
    }
}

/// The fault of the first variant that has one, from the `i`-th on.
pub open spec fn first_fault(variants: Seq<Variant>, i: nat) -> Option<Fault>
    decreases variants.len() - i,
{
    if i >= variants.len() {
        None
    } else {
        match variant_fault(variants[i as int]) {
            Some(fault) => Some(fault),
            None => first_fault(variants, i + 1),
        }
    }
}

/// Whether `field` is the variant `variant`, with its name and its fields.
pub open spec fn converts(variant: Variant, field: EnumField) -> bool {
    field.name == variant.name && match variant.fields {
        Fields::Named(fields) => field.field_type == EnumFieldType::Named(fields),
        Fields::Unnamed(fields) => field.field_type == EnumFieldType::Tuple(fields),
        Fields::Unit => false,
    }
}

/// The kind by which contexts call a variant.
pub open spec fn kind_text(named: bool) -> Seq<char> {
    if named {
        "struct"@
    } else {
        "tuple"@
    }
}

/// The procedure of a variant with the given fields, under the directives of
/// the enum.
pub open spec fn fields_routine<F: FieldType>(
    attrs: GlobalAttr,
    named: bool,
    path: Seq<char>,
    names: Seq<Seq<char>>,
    fields: Seq<F>,
) -> Routine {
    Routine {
        named,
        path,
        names,
        steps: routine_actions(
            attrs.ignore_whitespace,
            text_of(attrs.prefix),
            text_of(attrs.suffix),
            plans_of(fields),
            owner_text(kind_text(named), path),
        ),
    }
}

/// The procedure that is derived for one variant of the enum `name`.
pub open spec fn variant_routine(attrs: GlobalAttr, name: Seq<char>, field: EnumField) -> Routine {
    let path = variant_path(name, field.name@);
    match field.field_type {
        EnumFieldType::Named(fields) => fields_routine(
            attrs,
            true,
            path,
            names_of(fields@),
            fields@,
        ),
        EnumFieldType::Tuple(fields) => fields_routine(attrs, false, path, Seq::empty(), fields@),
    }
}

/// The procedures that are derived for the variants of the enum `name`, in
/// the order of the variants.
pub open spec fn enum_routines(attrs: GlobalAttr, name: Seq<char>, fields: Seq<EnumField>) -> Seq<
    Routine,
> {
    Seq::new(fields.len(), |i: int| variant_routine(attrs, name, fields[i]))
}

/// The name of the procedure of a variant: a prefix and the name of the
/// variant in lower case.
pub open spec fn procedure_name(prefix: Seq<char>, lowered: Seq<char>) -> Seq<char> {
    prefix + lowered
}

/// The names of the procedures of the variants.
pub open spec fn procedure_names(prefix: Seq<char>, fields: Seq<EnumField>) -> Seq<Seq<char>> {
    Seq::new(fields.len(), |i: int| procedure_name(prefix, lowercase(fields[i].name@)))
}

/// Joins the prefix of a procedure's name and the name of a variant that was
/// turned into lower case.
pub fn show_procedure_name(prefix: &str, lowered: &str) -> (name: String)
    ensures
        name@ == procedure_name(prefix@, lowered@),
{
    let mut name = String::from_str(prefix);
    name.append(lowered);
    name
}

/// Finds the first variant from which nothing can be derived.
pub fn find_fault(variants: &Vec<Variant>) -> (found: Option<DeriveError>)
    ensures
        match found {
            Some(e) => first_fault(variants@, 0) == Some(e@),
            None => first_fault(variants@, 0) is None,
        },
{
    let n: usize = variants.len();
    let mut i: usize = 0;
    while i < n
        invariant
            n == variants@.len(),
            i <= n,
            first_fault(variants@, 0) == first_fault(variants@, i as nat),
        decreases n - i,
    {
        match &variants[i].fields {
            Fields::Unit => {
                return Some(DeriveError::UnitVariant(variants[i].name.clone()));
            },
            Fields::Named(fields) => {
                if fields.len() == 0 {
                    return Some(DeriveError::UnitVariant(variants[i].name.clone()));
                }
                match find_repeat(fields) {
                    Some(j) => {
                        return Some(DeriveError::DuplicateField(fields[j].name.clone()));
                    },
                    None => {},
                }
            },
            Fields::Unnamed(fields) => {
                if fields.len() == 0 {
                    return Some(DeriveError::UnitVariant(variants[i].name.clone()));
                }
            },
        }
        i = i + 1;
    }
    None
}

impl EnumInput {
    /// The procedures that are derived from the declaration.
    pub open spec fn routines(&self) -> Seq<Routine> {
        enum_routines(self.attrs, self.name@, self.fields@)
    }

    /// The enum as a parser.
    pub open spec fn grammar(&self) -> Grammar {
        Grammar::Enum(self.name@, self.routines())
    }

    /// Takes the declaration of an enum. Of the generic parameters it keeps
    /// the names of the type parameters; the variants stay in the order of
    /// their declaration. Nothing can be derived from a declaration with a
    /// variant that has no fields or in which two fields share a name: such a
    /// declaration is not to be passed in. `find_fault` tests for it, and
    /// `try_new` makes the test itself.
    #[verifier::loop_isolation(false)]
    pub fn new(
        name: String,
        generics: Vec<GenericParam>,
        attrs: GlobalAttr,
        variants: Vec<Variant>,
    ) -> (input: EnumInput)
        requires
            first_fault(variants@, 0) is None,
        ensures
            input.attrs == attrs,
            input.name == name,
            texts_of(input.args@) == type_names(generics@),
            input.fields@.len() == variants@.len(),
            forall|i: int|
                0 <= i < variants@.len() ==> converts(variants@[i], #[trigger] input.fields@[i]),
    {
        let ghost declared = variants@;
        let mut rest = variants;
        let mut fields: Vec<EnumField> = Vec::new();
        let n: usize = rest.len();
        let mut left: usize = n;
        while left > 0
            invariant
                n == declared.len(),
                left <= n,
                rest@ == declared.take(left as int),
                fields@.len() == n - left,
                forall|i: int|
                    left <= i < n ==> converts(#[trigger] declared[i], fields@[i - left]),
            decreases left,
        {
            let ghost before = fields@;
            let variant = rest.pop().unwrap();
            proof {
                assert(variant == declared[left - 1]);
                lemma_no_fault(declared, 0, left - 1);
            }
            let field_type = match variant.fields {
                Fields::Named(named) => EnumFieldType::Named(named),
                Fields::Unnamed(unnamed) => EnumFieldType::Tuple(unnamed),
                // No variant is a unit variant here.
                Fields::Unit => EnumFieldType::Tuple(Vec::new()),
            };
            fields.insert(0, EnumField { name: variant.name, field_type });
            proof {
                assert(rest@ =~= declared.take(left - 1));
                assert forall|i: int| left - 1 <= i < n implies converts(
                    #[trigger] declared[i],
                    fields@[i - (left - 1)],
                ) by {
                    if i >= left {
                        assert(fields@[i - (left - 1)] == before[i - left]);
                    }
                }
            }
            left = left - 1;
        }
        let args = type_params(&generics);
        EnumInput { attrs, name, args, fields }
    }

    /// Takes the declaration of an enum if something can be derived from it.
    /// A declaration with a variant that has no fields, or in which two
    /// fields share a name, is refused; the error is that of the first such
    /// variant.
    pub fn try_new(
        name: String,
        generics: Vec<GenericParam>,
        attrs: GlobalAttr,
        variants: Vec<Variant>,
    ) -> (r: Result<EnumInput, DeriveError>)
        ensures
            match first_fault(variants@, 0) {
                Some(fault) => r matches Err(e) && e@ == fault,
                None => r matches Ok(input) && input.attrs == attrs && input.name == name
                    && texts_of(input.args@) == type_names(generics@) && input.fields@.len()
                    == variants@.len() && forall|i: int|
                    0 <= i < variants@.len() ==> converts(
                        variants@[i],
                        #[trigger] input.fields@[i],
                    ),
            },
    {
        match find_fault(&variants) {
            Some(e) => Err(e),
            None => Ok(EnumInput::new(name, generics, attrs, variants)),
        }
    }

    /// Derives the peek procedures and the parse procedures.
    pub fn process(self) -> (output: EnumOutput)
        ensures
            output@ == self.grammar(),
            output.peek_impl()@ == self.grammar(),
            output.parse_impl()@ == self.grammar(),
            texts_of(output.peek_impl().peek_fn_names@) == procedure_names(
                "__peek_"@,
                self.fields@,
            ),
            texts_of(output.parse_impl().parse_fn_names@) == procedure_names(
                "__parse_"@,
                self.fields@,
            ),
            output.peek_impl().attrs == self.attrs,
            output.parse_impl().attrs == self.attrs,
            output.peek_impl().name == self.name,
            output.parse_impl().name == self.name,
            texts_of(output.peek_impl().args@) == texts_of(self.args@),
            texts_of(output.parse_impl().args@) == texts_of(self.args@),
    {
        let peek_impl = EnumPeek::new(&self);
        let parse_impl = EnumParse::new(&self);
        EnumOutput { peek_impl, parse_impl }
    }
}

/// Where no variant from the `i`-th on has a fault, the `k`-th has none.
pub proof fn lemma_no_fault(variants: Seq<Variant>, i: nat, k: int)
    requires
        first_fault(variants, i) is None,
        i <= k < variants.len(),
    ensures
        variant_fault(variants[k]) is None,
    decreases variants.len() - i,
{
    if i < k {
        lemma_no_fault(variants, i + 1, k);
    }
}

/// What is derived for an enum: its peek procedures and its parse
/// procedures, which run the same steps.
#[derive(Debug)]
pub struct EnumOutput {
    peek_impl: EnumPeek,
    parse_impl: EnumParse,
}

impl View for EnumOutput {
    type V = Grammar;

    /// The enum as a parser.
    closed spec fn view(&self) -> Grammar {
        self.parse_impl@
    }
}

impl EnumOutput {
    #[verifier::type_invariant]
    spec fn inv(self) -> bool {
        self.peek_impl@ == self.parse_impl@
    }

    /// The peek procedures.
    pub closed spec fn spec_peek_impl(&self) -> &EnumPeek {
        &self.peek_impl
    }

    /// The parse procedures.
    pub closed spec fn spec_parse_impl(&self) -> &EnumParse {
        &self.parse_impl
    }

    /// The peek procedures.
    #[verifier::when_used_as_spec(spec_peek_impl)]
    pub fn peek_impl(&self) -> (peek_impl: &EnumPeek)
        ensures
            peek_impl == self.spec_peek_impl(),
    {
        &self.peek_impl
    }

    /// The parse procedures.
    #[verifier::when_used_as_spec(spec_parse_impl)]
    pub fn parse_impl(&self) -> (parse_impl: &EnumParse)
        ensures
            parse_impl == self.spec_parse_impl(),
    {
        &self.parse_impl
    }

    /// The derived peek: tests the variants in the order of their
    /// declaration. If one matches, `input` moves past what a parse would
    /// read; if none does, `input` stays where it was.
    pub fn peek<B: Buffer<char>>(&self, input: &mut B) -> (ok: bool)
        ensures
            ok == peek_spec(self@, old(input).remaining()),
            ok ==> final(input).remaining() == old(input).remaining().skip(
                parse_spec(self@, old(input).remaining()).len as int,
            ),
            !ok ==> final(input).remaining() == old(input).remaining(),
    {
        proof {
            use_type_invariant(self);
        }
        self.peek_impl.peek(input)
    }

    /// The derived parse: reads the first variant that matches.
    pub fn parse<B: Buffer<char>>(&self, input: &mut B) -> (r: Result<Value, ParseError>)
        ensures
            agrees(r, parse_spec(self@, old(input).remaining())),
            final(input).remaining() == old(input).remaining().skip(
                parse_spec(self@, old(input).remaining()).len as int,
            ),
    {
        self.parse_impl.parse(input)
    }

    /// The enum as a parser, to stand in a field of another datatype.
    pub fn type_ref(&self) -> (ty: TypeRef)
        ensures
            ty@ == self@,
    {
        TypeRef::Enum(
            Choice {
                name: self.parse_impl.name.clone(),
                variants: duplicate_procedures(&self.parse_impl.parse_fn_impl),
            },
        )
    }
}

/// The peek procedures of an enum.
#[derive(Debug)]
pub struct EnumPeek {
    /// The names of the procedures, one for each variant.
    pub peek_fn_names: Vec<String>,
    /// The procedures, one for each variant, in the order of dispatch.
    pub peek_fn_impl: Vec<Procedure>,
    /// The directives of the enum.
    pub attrs: GlobalAttr,
    /// The name of the enum.
    pub name: String,
    /// The names of its type parameters.
    pub args: Vec<String>,
}

impl View for EnumPeek {
    type V = Grammar;

    open spec fn view(&self) -> Grammar {
        Grammar::Enum(self.name@, routines_of(self.peek_fn_impl@))
    }
}

impl EnumPeek {
    /// The peek procedures of the enum that `input` declares.
    pub fn new(input: &EnumInput) -> (peek_impl: Self)
        ensures
            peek_impl@ == input.grammar(),
            texts_of(peek_impl.peek_fn_names@) == procedure_names("__peek_"@, input.fields@),
            peek_impl.attrs == input.attrs,
            peek_impl.name == input.name,
            texts_of(peek_impl.args@) == texts_of(input.args@),
    {
        let mut peek_impl = EnumPeek {
            peek_fn_names: Vec::new(),
            peek_fn_impl: Vec::new(),
            attrs: input.attrs.duplicate(),
            name: input.name.clone(),
            args: clone_strings(&input.args),
        };
        peek_impl.enrich(&input.fields);
        proof {
            assert(texts_of(Seq::<String>::empty()) + procedure_names("__peek_"@, input.fields@)
                =~= procedure_names("__peek_"@, input.fields@));
            assert(routines_of(Seq::<Procedure>::empty()) + input.routines()
                =~= input.routines());
        }
        peek_impl
    }

    /// Adds a procedure and its name for each of `fields`, in order.
    pub fn enrich(&mut self, fields: &Vec<EnumField>)
        ensures
            routines_of(final(self).peek_fn_impl@) == routines_of(old(self).peek_fn_impl@)
                + enum_routines(old(self).attrs, old(self).name@, fields@),
            texts_of(final(self).peek_fn_names@) == texts_of(old(self).peek_fn_names@)
                + procedure_names("__peek_"@, fields@),
            final(self).attrs == old(self).attrs,
            final(self).name == old(self).name,
            final(self).args == old(self).args,
    {
        let ghost routines = enum_routines(self.attrs, self.name@, fields@);
        let ghost names = procedure_names("__peek_"@, fields@);
        let n: usize = fields.len();
        let mut i: usize = 0;
        proof {
            assert(routines_of(self.peek_fn_impl@) + routines.take(0) =~= routines_of(
                self.peek_fn_impl@,
            ));
            assert(texts_of(self.peek_fn_names@) + names.take(0) =~= texts_of(
                self.peek_fn_names@,
            ));
        }
        while i < n
            invariant
                n == fields@.len(),
                i <= n,
                routines == enum_routines(old(self).attrs, old(self).name@, fields@),
                names == procedure_names("__peek_"@, fields@),
                routines_of(self.peek_fn_impl@) == routines_of(old(self).peek_fn_impl@)
                    + routines.take(i as int),
                texts_of(self.peek_fn_names@) == texts_of(old(self).peek_fn_names@) + names.take(
                    i as int,
                ),
                self.attrs == old(self).attrs,
                self.name == old(self).name,
                self.args == old(self).args,
            decreases n - i,
        {
            let field = &fields[i];
            let ghost names_before = self.peek_fn_names@;
            let lowered = to_lower(field.name.as_str());
            let peek = show_procedure_name("__peek_", lowered.as_str());
            self.peek_fn_names.push(peek);
            match &field.field_type {
                EnumFieldType::Named(named) => {
                    self.add_peek(true, field.name.as_str(), field_names(named), named);
                },
                EnumFieldType::Tuple(unnamed) => {
                    let names: Vec<String> = Vec::new();
                    assert(texts_of(names@) =~= Seq::<Seq<char>>::empty());
                    self.add_peek(false, field.name.as_str(), names, unnamed);
                },
            }
            proof {
                assert(texts_of(self.peek_fn_names@) =~= texts_of(names_before).push(peek@));
                assert(routines.take(i + 1) =~= routines.take(i as int).push(routines[i as int]));
                assert(names.take(i + 1) =~= names.take(i as int).push(names[i as int]));
                assert(routines_of(self.peek_fn_impl@) =~= routines_of(old(self).peek_fn_impl@)
                    + routines.take(i + 1));
                assert(texts_of(self.peek_fn_names@) =~= texts_of(old(self).peek_fn_names@)
                    + names.take(i + 1));
            }
            i = i + 1;
        }
        proof {
            assert(routines.take(n as int) =~= routines);
            assert(names.take(n as int) =~= names);
        }
    }

    /// Adds the procedure of the variant `variant_name` with the given
    /// fields. `named` says whether the fields have names; `names` holds
    /// them.
    pub fn add_peek<F: FieldType>(
        &mut self,
        named: bool,
        variant_name: &str,
        names: Vec<String>,
        fields: &Vec<F>,
    )
        ensures
            routines_of(final(self).peek_fn_impl@) == routines_of(old(self).peek_fn_impl@).push(
                fields_routine(
                    old(self).attrs,
                    named,
                    variant_path(old(self).name@, variant_name@),
                    texts_of(names@),
                    fields@,
                ),
            ),
            final(self).peek_fn_names == old(self).peek_fn_names,
            final(self).attrs == old(self).attrs,
            final(self).name == old(self).name,
            final(self).args == old(self).args,
    {
        let procedure = derive_procedure(
            &self.attrs,
            named,
            self.name.as_str(),
            variant_name,
            names,
            fields,
        );
        proof {
            lemma_routines_push(self.peek_fn_impl@, procedure);
        }
        self.peek_fn_impl.push(procedure);
    }

    /// Tests the variants in the order of their declaration, each on a cursor
    /// of its own. If one matches, `input` moves past what it would read; if
    /// none does, `input` stays where it was.
    pub fn peek<B: Buffer<char>>(&self, input: &mut B) -> (ok: bool)
        ensures
            ok == peek_spec(self@, old(input).remaining()),
            ok ==> final(input).remaining() == old(input).remaining().skip(
                parse_spec(self@, old(input).remaining()).len as int,
            ),
            !ok ==> final(input).remaining() == old(input).remaining(),
    {
        peek_variants(Ghost(self.name@), &self.peek_fn_impl, input)
    }
}

/// Builds the procedure of one variant: its steps under the directives of
/// the enum, and how to name the value.
pub fn derive_procedure<F: FieldType>(
    attrs: &GlobalAttr,
    named: bool,
    name: &str,
    variant_name: &str,
    names: Vec<String>,
    fields: &Vec<F>,
) -> (procedure: Procedure)
    ensures
        procedure@ == fields_routine(
            *attrs,
            named,
            variant_path(name@, variant_name@),
            texts_of(names@),
            fields@,
        ),
{
    let path = show_variant_path(name, variant_name);
    let mut builder = if named {
        FunctionBuilder::new(attrs.ignore_whitespace, "struct", path.as_str())
    } else {
        FunctionBuilder::new(attrs.ignore_whitespace, "tuple", path.as_str())
    };
    builder.procedure(attrs, fields);
    Procedure { named, path, names, steps: builder.finish() }
}

/// The parse procedures of an enum.
#[derive(Debug)]
pub struct EnumParse {
    /// The names of the procedures, one for each variant.
    pub parse_fn_names: Vec<String>,
    /// The procedures, one for each variant, in the order of dispatch.
    pub parse_fn_impl: Vec<Procedure>,
    /// The directives of the enum.
    pub attrs: GlobalAttr,
    /// The name of the enum.
    pub name: String,
    /// The names of its type parameters.
    pub args: Vec<String>,
}

impl View for EnumParse {
    type V = Grammar;

    open spec fn view(&self) -> Grammar {
        Grammar::Enum(self.name@, routines_of(self.parse_fn_impl@))
    }
}

impl EnumParse {
    /// The parse procedures of the enum that `input` declares.
    pub fn new(input: &EnumInput) -> (parse_impl: Self)
        ensures
            parse_impl@ == input.grammar(),
            texts_of(parse_impl.parse_fn_names@) == procedure_names("__parse_"@, input.fields@),
            parse_impl.attrs == input.attrs,
            parse_impl.name == input.name,
            texts_of(parse_impl.args@) == texts_of(input.args@),
    {
        let mut parse_impl = EnumParse {
            parse_fn_names: Vec::new(),
            parse_fn_impl: Vec::new(),
            attrs: input.attrs.duplicate(),
            name: input.name.clone(),
            args: clone_strings(&input.args),
        };
        parse_impl.enrich(&input.fields);
        proof {
            assert(texts_of(Seq::<String>::empty()) + procedure_names("__parse_"@, input.fields@)
                =~= procedure_names("__parse_"@, input.fields@));
            assert(routines_of(Seq::<Procedure>::empty()) + input.routines()
                =~= input.routines());
        }
        parse_impl
    }

    /// Adds a procedure and its name for each of `fields`, in order.
    pub fn enrich(&mut self, fields: &Vec<EnumField>)
        ensures
            routines_of(final(self).parse_fn_impl@) == routines_of(old(self).parse_fn_impl@)
                + enum_routines(old(self).attrs, old(self).name@, fields@),
            texts_of(final(self).parse_fn_names@) == texts_of(old(self).parse_fn_names@)
                + procedure_names("__parse_"@, fields@),
            final(self).attrs == old(self).attrs,
            final(self).name == old(self).name,
            final(self).args == old(self).args,
    {
        let ghost routines = enum_routines(self.attrs, self.name@, fields@);
        let ghost names = procedure_names("__parse_"@, fields@);
        let n: usize = fields.len();
        let mut i: usize = 0;
        proof {
            assert(routines_of(self.parse_fn_impl@) + routines.take(0) =~= routines_of(
                self.parse_fn_impl@,
            ));
            assert(texts_of(self.parse_fn_names@) + names.take(0) =~= texts_of(
                self.parse_fn_names@,
            ));
        }
        while i < n
            invariant
                n == fields@.len(),
                i <= n,
                routines == enum_routines(old(self).attrs, old(self).name@, fields@),
                names == procedure_names("__parse_"@, fields@),
                routines_of(self.parse_fn_impl@) == routines_of(old(self).parse_fn_impl@)
                    + routines.take(i as int),
                texts_of(self.parse_fn_names@) == texts_of(old(self).parse_fn_names@)
                    + names.take(i as int),
                self.attrs == old(self).attrs,
                self.name == old(self).name,
                self.args == old(self).args,
            decreases n - i,
        {
            let field = &fields[i];
            let ghost names_before = self.parse_fn_names@;
            let lowered = to_lower(field.name.as_str());
            let parse = show_procedure_name("__parse_", lowered.as_str());
            self.parse_fn_names.push(parse);
            match &field.field_type {
                EnumFieldType::Named(named) => {
                    self.add_parse(true, field.name.as_str(), field_names(named), named);
                },
                EnumFieldType::Tuple(unnamed) => {
                    let names: Vec<String> = Vec::new();
                    assert(texts_of(names@) =~= Seq::<Seq<char>>::empty());
                    self.add_parse(false, field.name.as_str(), names, unnamed);
                },
            }
            proof {
                assert(texts_of(self.parse_fn_names@) =~= texts_of(names_before).push(parse@));
                assert(routines.take(i + 1) =~= routines.take(i as int).push(routines[i as int]));
                assert(names.take(i + 1) =~= names.take(i as int).push(names[i as int]));
                assert(routines_of(self.parse_fn_impl@) =~= routines_of(old(self).parse_fn_impl@)
                    + routines.take(i + 1));
                assert(texts_of(self.parse_fn_names@) =~= texts_of(old(self).parse_fn_names@)
                    + names.take(i + 1));
            }
            i = i + 1;
        }
        proof {
            assert(routines.take(n as int) =~= routines);
            assert(names.take(n as int) =~= names);
        }
    }

    /// Adds the procedure of the variant `variant_name` with the given
    /// fields. `named` says whether the fields have names; `names` holds
    /// them.
    pub fn add_parse<F: FieldType>(
        &mut self,
        named: bool,
        variant_name: &str,
        names: Vec<String>,
        fields: &Vec<F>,
    )
        ensures
            routines_of(final(self).parse_fn_impl@) == routines_of(old(self).parse_fn_impl@).push(
                fields_routine(
                    old(self).attrs,
                    named,
                    variant_path(old(self).name@, variant_name@),
                    texts_of(names@),
                    fields@,
                ),
            ),
            final(self).parse_fn_names == old(self).parse_fn_names,
            final(self).attrs == old(self).attrs,
            final(self).name == old(self).name,
            final(self).args == old(self).args,
    {
        let procedure = derive_procedure(
            &self.attrs,
            named,
            self.name.as_str(),
            variant_name,
            names,
            fields,
        );
        proof {
            lemma_routines_push(self.parse_fn_impl@, procedure);
        }
        self.parse_fn_impl.push(procedure);
    }

    /// Peeks the variants in the order of their declaration, each on a fresh
    /// cursor, and parses the first one that matches. Where none matches,
    /// nothing is read and the error names the enum.
    pub fn parse<B: Buffer<char>>(&self, input: &mut B) -> (r: Result<Value, ParseError>)
        ensures
            agrees(r, parse_spec(self@, old(input).remaining())),
            final(input).remaining() == old(input).remaining().skip(
                parse_spec(self@, old(input).remaining()).len as int,
            ),
    {
        parse_variants(self.name.as_str(), &self.parse_fn_impl, input)
    }
}

} // verus!

//! Building the steps of a derived procedure from the directives of a
//! datatype and of its fields.

use crate::attr::{text_of, FieldAttr, GlobalAttr, IgnoreWS};
use crate::grammar::{Action, Grammar};
use crate::parsers::{actions_of, lemma_actions_push, texts_of, Step, TypeRef};
use crate::text::tag::Tag;
use vstd::prelude::*;

verus! {

/// The decimal digit `d` as a character.
pub open spec fn digit(d: nat) -> char {
    if d == 0 {
        '0'
    } else if d == 1 {
        '1'
    } else if d == 2 {
        '2'
    } else if d == 3 {
        '3'
    } else if d == 4 {
        '4'
    } else if d == 5 {
        '5'
    } else if d == 6 {
        '6'
    } else if d == 7 {
        '7'
    } else if d == 8 {
        '8'
    } else {
        '9'
    }
}

/// The number `n` in decimal digits.
pub open spec fn decimal(n: nat) -> Seq<char>
    decreases n,
{
    if n < 10 {
        seq![digit(n)]
    } else {
        decimal(n / 10).push(digit(n % 10))
    }
}

/// A name between double quotes.
pub open spec fn quoted(name: Seq<char>) -> Seq<char> {
    "\""@ + name + "\""@
}

/// What names a datatype in a context: its kind, and its path in quotes.
pub open spec fn owner_text(kind: Seq<char>, path: Seq<char>) -> Seq<char> {
    kind + " "@ + quoted(path)
}

/// The path of a variant of an enum.
pub open spec fn variant_path(name: Seq<char>, variant: Seq<char>) -> Seq<char> {
    name + "::"@ + variant
}

/// The context of a prefix or a suffix: its role and what it belongs to.
pub open spec fn fix_context(role: Seq<char>, owner: Seq<char>) -> Seq<char> {
    role + " of "@ + owner
}

/// The context of a field: its label and the datatype it belongs to.
pub open spec fn field_context(label: Seq<char>, owner: Seq<char>) -> Seq<char> {
    "field "@ + label + " of "@ + owner
}

/// What the derivation reads of one field: how errors name it, the literals
/// around it, and the parser that reads it.
pub struct FieldPlan {
    pub label: Seq<char>,
    pub prefix: Option<Seq<char>>,
    pub suffix: Option<Seq<char>>,
    pub parser: Grammar,
}

/// The step that skips what the policy ignores, if there is a policy.
pub open spec fn skip_actions(policy: Option<IgnoreWS>) -> Seq<Action> {
    match policy {
        Some(p) => seq![Action::Whitespace(p)],
        None => Seq::empty(),
    }
}

/// The step that matches a prefix or a suffix, if there is one.
pub open spec fn fix_actions(fix: Option<Seq<char>>, role: Seq<char>, owner: Seq<char>) -> Seq<
    Action,
> {
    match fix {
        Some(tag) => seq![Action::Fix { tag, context: fix_context(role, owner) }],
        None => Seq::empty(),
    }
}

/// The steps of one field: its prefix, the field and its suffix, each after a
/// skip.
pub open spec fn field_actions(policy: Option<IgnoreWS>, plan: FieldPlan, owner: Seq<char>) -> Seq<
    Action,
> {
    let this = field_context(plan.label, owner);
    skip_actions(policy) + (match plan.prefix {
        Some(_) => fix_actions(plan.prefix, "prefix"@, this) + skip_actions(policy),
        None => Seq::empty(),
    }) + seq![Action::Field { parser: plan.parser, context: this }] + (match plan.suffix {
        Some(_) => skip_actions(policy) + fix_actions(plan.suffix, "suffix"@, this),
        None => Seq::empty(),
    })
}

/// The steps of the fields, in the order of the fields.
pub open spec fn fields_actions(
    policy: Option<IgnoreWS>,
    plans: Seq<FieldPlan>,
    owner: Seq<char>,
) -> Seq<Action>
    decreases plans.len(),
{
    if plans.len() == 0 {
        Seq::empty()
    } else {
        fields_actions(policy, plans.drop_last(), owner) + field_actions(
            policy,
            plans.last(),
            owner,
        )
    }
}

/// The steps of a whole procedure: a skip, the prefix, the fields, a skip and
/// the suffix.
pub open spec fn routine_actions(
    policy: Option<IgnoreWS>,
    prefix: Option<Seq<char>>,
    suffix: Option<Seq<char>>,
    plans: Seq<FieldPlan>,
    owner: Seq<char>,
) -> Seq<Action> {
    skip_actions(policy) + fix_actions(prefix, "prefix"@, owner) + fields_actions(
        policy,
        plans,
        owner,
    ) + skip_actions(policy) + fix_actions(suffix, "suffix"@, owner)
}

/// The decimal digit `d` as a character.
pub fn digit_char(d: usize) -> (c: char)
    requires
        d < 10,
    ensures
        c == digit(d as nat),
{
    if d == 0 {
        '0'
    } else if d == 1 {
        '1'
    } else if d == 2 {
        '2'
    } else if d == 3 {
        '3'
    } else if d == 4 {
        '4'
    } else if d == 5 {
        '5'
    } else if d == 6 {
        '6'
    } else if d == 7 {
        '7'
    } else if d == 8 {
        '8'
    } else {
        '9'
    }
}

/// Writes `n` in decimal digits.
pub fn show_index(n: usize) -> (text: String)
    ensures
        text@ == decimal(n as nat),
    decreases n,
{
    if n < 10 {
        let mut text = String::new();
        text.push(digit_char(n));
        assert(text@ =~= seq![digit(n as nat)]);
        text
    } else {
        let mut text = show_index(n / 10);
        text.push(digit_char(n % 10));
        text
    }
}

/// Puts a name between double quotes.
pub fn show_quoted(name: &str) -> (text: String)
    ensures
        text@ == quoted(name@),
{
    let mut text = String::from_str("\"");
    text.append(name);
    text.append("\"");
    text
}

/// Names a datatype for a context.
pub fn show_owner(kind: &str, path: &str) -> (text: String)
    ensures
        text@ == owner_text(kind@, path@),
{
    let mut text = String::from_str(kind);
    text.append(" ");
    let shown = show_quoted(path);
    text.append(shown.as_str());
    text
}

/// Joins the name of an enum and the name of one of its variants.
pub fn show_variant_path(name: &str, variant: &str) -> (text: String)
    ensures
        text@ == variant_path(name@, variant@),
{
    let mut text = String::from_str(name);
    text.append("::");
    text.append(variant);
    text
}

/// Writes the context of a prefix or a suffix.
pub fn show_fix_context(role: &str, owner: &str) -> (text: String)
    ensures
        text@ == fix_context(role@, owner@),
{
    let mut text = String::from_str(role);
    text.append(" of ");
    text.append(owner);
    text
}

/// Writes the context of a field.
pub fn show_field_context(label: &str, owner: &str) -> (text: String)
    ensures
        text@ == field_context(label@, owner@),
{
    let mut text = String::from_str("field ");
    text.append(label);
    text.append(" of ");
    text.append(owner);
    text
}


/// A field of a struct or of a variant, as the derivation sees it.
pub trait FieldType {
    /// The directives of the field.
    spec fn field_attrs(&self) -> FieldAttr;

    /// The parser of the field's declared type.
    spec fn field_ty(&self) -> TypeRef;

    /// How errors name the field when it is the `i`-th of its datatype.
    spec fn label(&self, i: nat) -> Seq<char>;

    /// The directives of the field.
    fn attrs(&self) -> (attrs: &FieldAttr)
        ensures
            *attrs == self.field_attrs(),
    ;

    /// The parser of the field's declared type.
    fn ty(&self) -> (ty: &TypeRef)
        ensures
            *ty == self.field_ty(),
    ;

    /// How errors name the field when it is the `i`-th of its datatype.
    fn name(&self, i: usize) -> (label: String)
        ensures
            label@ == self.label(i as nat),
    ;
}

/// A field with a name.
#[derive(Debug)]
pub struct NamedField {
    pub attrs: FieldAttr,
    pub name: String,
    pub ty: TypeRef,
}

/// A field that is known by its position.
#[derive(Debug)]
pub struct UnnamedField {
    pub attrs: FieldAttr,
    pub ty: TypeRef,
}

impl FieldType for NamedField {
    open spec fn field_attrs(&self) -> FieldAttr {
        self.attrs
    }

    open spec fn field_ty(&self) -> TypeRef {
        self.ty
    }

    /// The name of the field in quotes.
    open spec fn label(&self, i: nat) -> Seq<char> {
        quoted(self.name@)
    }

    fn attrs(&self) -> (attrs: &FieldAttr) {
        &self.attrs
    }

    fn ty(&self) -> (ty: &TypeRef) {
        &self.ty
    }

    fn name(&self, i: usize) -> (label: String) {
        show_quoted(self.name.as_str())
    }
}

impl FieldType for UnnamedField {
    open spec fn field_attrs(&self) -> FieldAttr {
        self.attrs
    }

    open spec fn field_ty(&self) -> TypeRef {
        self.ty
    }

    /// The position of the field in decimal digits.
    open spec fn label(&self, i: nat) -> Seq<char> {
        decimal(i)
    }

    fn attrs(&self) -> (attrs: &FieldAttr) {
        &self.attrs
    }

    fn ty(&self) -> (ty: &TypeRef) {
        &self.ty
    }

    fn name(&self, i: usize) -> (label: String) {
        show_index(i)
    }
}

/// The parser that reads a field: the override of its directives where there
/// is one, else the parser of its declared type.
pub open spec fn effective_parser(attrs: FieldAttr, ty: TypeRef) -> Grammar {
    match attrs.parser {
        Some(parser) => parser@,
        None => ty@,
    }
}

/// What the derivation reads of `field` when it is the `i`-th of its
/// datatype.
pub open spec fn plan_of<F: FieldType>(field: F, i: nat) -> FieldPlan {
    FieldPlan {
        label: field.label(i),
        prefix: text_of(field.field_attrs().prefix),
        suffix: text_of(field.field_attrs().suffix),
        parser: effective_parser(field.field_attrs(), field.field_ty()),
    }
}

/// What the derivation reads of a list of fields.
pub open spec fn plans_of<F: FieldType>(fields: Seq<F>) -> Seq<FieldPlan> {
    Seq::new(fields.len(), |i: int| plan_of(fields[i], i as nat))
}

/// Collects the steps of one procedure.
pub struct FunctionBuilder {
    /// The steps so far.
    pub steps: Vec<Step>,
    /// What to skip between two elements.
    pub ignore_whitespace: Option<IgnoreWS>,
    /// What names the datatype in contexts.
    pub owner: String,
}

impl FunctionBuilder {
    /// The models of the steps so far.
    pub open spec fn actions(&self) -> Seq<Action> {
        actions_of(self.steps@)
    }

    /// A builder without steps, for the datatype of the given kind and path.
    pub fn new(ignore_whitespace: Option<IgnoreWS>, kind: &str, path: &str) -> (builder: Self)
        ensures
            builder.actions() == Seq::<Action>::empty(),
            builder.ignore_whitespace == ignore_whitespace,
            builder.owner@ == owner_text(kind@, path@),
    {
        FunctionBuilder { steps: Vec::new(), ignore_whitespace, owner: show_owner(kind, path) }
    }

    fn push(&mut self, step: Step)
        ensures
            final(self).actions() == old(self).actions().push(step@),
            final(self).ignore_whitespace == old(self).ignore_whitespace,
            final(self).owner == old(self).owner,
    {
        proof {
            lemma_actions_push(self.steps@, step);
        }
        self.steps.push(step);
    }

    /// Adds the step that skips what the policy ignores, if there is a
    /// policy.
    pub fn skip(&mut self)
        ensures
            final(self).actions() == old(self).actions() + skip_actions(
                old(self).ignore_whitespace,
            ),
            final(self).ignore_whitespace == old(self).ignore_whitespace,
            final(self).owner == old(self).owner,
    {
        match self.ignore_whitespace {
            Some(policy) => {
                self.push(Step::Whitespace(policy));
                assert(final(self).actions() =~= old(self).actions() + skip_actions(
                    old(self).ignore_whitespace,
                ));
            },
            None => {
                assert(self.actions() =~= old(self).actions() + skip_actions(
                    old(self).ignore_whitespace,
                ));
            },
        }
    }

    /// Adds the step that matches a prefix or a suffix of `owner`, if `fix`
    /// holds one.
    fn fix_of(&mut self, fix: &Option<String>, role: &str, owner: &str)
        ensures
            final(self).actions() == old(self).actions() + fix_actions(
                text_of(*fix),
                role@,
                owner@,
            ),
            final(self).ignore_whitespace == old(self).ignore_whitespace,
            final(self).owner == old(self).owner,
    {
        match fix {
            Some(tag) => {
                let step = Step::Fix {
                    tag: Tag::new(tag.as_str()),
                    context: show_fix_context(role, owner),
                };
                self.push(step);
                assert(self.actions() =~= old(self).actions() + fix_actions(
                    text_of(*fix),
                    role@,
                    owner@,
                ));
            },
            None => {
                assert(self.actions() =~= old(self).actions() + fix_actions(
                    text_of(*fix),
                    role@,
                    owner@,
                ));
            },
        }
    }

    /// Adds the step that matches a prefix or a suffix of the datatype, if
    /// `fix` holds one. `role` says which of the two it is.
    pub fn fix(&mut self, fix: &Option<String>, role: &str)
        ensures
            final(self).actions() == old(self).actions() + fix_actions(
                text_of(*fix),
                role@,
                old(self).owner@,
            ),
            final(self).ignore_whitespace == old(self).ignore_whitespace,
            final(self).owner == old(self).owner,
    {
        let owner = self.owner.clone();
        self.fix_of(fix, role, owner.as_str());
    }

    /// Adds the steps of `field`, the `i`-th field of the datatype.
    pub fn field<F: FieldType>(&mut self, field: &F, i: usize)
        ensures
            final(self).actions() == old(self).actions() + field_actions(
                old(self).ignore_whitespace,
                plan_of(*field, i as nat),
                old(self).owner@,
            ),
            final(self).ignore_whitespace == old(self).ignore_whitespace,
            final(self).owner == old(self).owner,
    {
        let ghost plan = plan_of(*field, i as nat);
        let ghost policy = self.ignore_whitespace;
        let ghost before = self.actions();
        let label = field.name(i);
        let this = show_field_context(label.as_str(), self.owner.as_str());
        let attrs = field.attrs();
        self.skip();
        match &attrs.prefix {
            Some(_) => {
                self.fix_of(&attrs.prefix, "prefix", this.as_str());
                self.skip();
            },
            None => {},
        }
        let ghost middle = self.actions();
        let parser = match &attrs.parser {
            Some(parser) => parser.duplicate(),
            None => field.ty().duplicate(),
        };
        self.push(Step::Field { parser, context: this.clone() });
        match &attrs.suffix {
            Some(_) => {
                self.skip();
                self.fix_of(&attrs.suffix, "suffix", this.as_str());
            },
            None => {},
        }
        proof {
            let head = skip_actions(policy) + (match plan.prefix {
                Some(_) => fix_actions(plan.prefix, "prefix"@, this@) + skip_actions(policy),
                None => Seq::empty(),
            });
            assert(middle =~= before + head);
            assert(self.actions() =~= before + field_actions(policy, plan, old(self).owner@));
        }
    }

    /// Adds the steps of all of `fields`, in their order.
    pub fn fields<F: FieldType>(&mut self, fields: &Vec<F>)
        ensures
            final(self).actions() == old(self).actions() + fields_actions(
                old(self).ignore_whitespace,
                plans_of(fields@),
                old(self).owner@,
            ),
            final(self).ignore_whitespace == old(self).ignore_whitespace,
            final(self).owner == old(self).owner,
    {
        let ghost before = self.actions();
        let ghost policy = self.ignore_whitespace;
        let ghost owner = self.owner@;
        let ghost plans = plans_of(fields@);
        let n: usize = fields.len();
        let mut i: usize = 0;
        proof {
            assert(plans.take(0) =~= Seq::<FieldPlan>::empty());
            assert(before + fields_actions(policy, plans.take(0), owner) =~= before);
        }
        while i < n
            invariant
                n == fields@.len(),
                i <= n,
                plans == plans_of(fields@),
                self.ignore_whitespace == policy,
                self.owner@ == owner,
                self.owner == old(self).owner,
                self.actions() == before + fields_actions(policy, plans.take(i as int), owner),
            decreases n - i,
        {
            let ghost so_far = fields_actions(policy, plans.take(i as int), owner);
            self.field(&fields[i], i);
            proof {
                assert(plans.take(i + 1).drop_last() =~= plans.take(i as int));
                assert(plans.take(i + 1).last() == plan_of(fields@[i as int], i as nat));
                assert(self.actions() =~= before + (so_far + field_actions(
                    policy,
                    plans[i as int],
                    owner,
                )));
            }
            i = i + 1;
        }
        proof {
            assert(plans.take(n as int) =~= plans);
        }
    }

    /// Adds the steps of a whole procedure: a skip, the prefix, the fields,
    /// a skip and the suffix, under the policy of the builder.
    pub fn procedure<F: FieldType>(&mut self, attrs: &GlobalAttr, fields: &Vec<F>)
        ensures
            final(self).actions() == old(self).actions() + routine_actions(
                old(self).ignore_whitespace,
                text_of(attrs.prefix),
                text_of(attrs.suffix),
                plans_of(fields@),
                old(self).owner@,
            ),
            final(self).ignore_whitespace == old(self).ignore_whitespace,
            final(self).owner == old(self).owner,
    {
        self.skip();
        self.fix(&attrs.prefix, "prefix");
        self.fields(fields);
        self.skip();
        self.fix(&attrs.suffix, "suffix");
        proof {
            assert(self.actions() =~= old(self).actions() + routine_actions(
                old(self).ignore_whitespace,
                text_of(attrs.prefix),
                text_of(attrs.suffix),
                plans_of(fields@),
                old(self).owner@,
            ));
        }
    }

    /// The steps that were collected.
    pub fn finish(self) -> (steps: Vec<Step>)
        ensures
            actions_of(steps@) == self.actions(),
    {
        self.steps
    }
}


/// The names of a list of named fields.
pub open spec fn names_of(fields: Seq<NamedField>) -> Seq<Seq<char>> {
    Seq::new(fields.len(), |i: int| fields[i].name@)
}

/// The first place in `names`, from `j` on, whose name stands at an earlier
/// place too.
pub open spec fn first_repeat_from(names: Seq<Seq<char>>, j: nat) -> Option<nat>
    decreases names.len() - j,
{
    if j >= names.len() {
        None
    } else if names.take(j as int).contains(names[j as int]) {
        Some(j)
    } else {
        first_repeat_from(names, j + 1)
    }
}

/// The first place in `names` whose name stands at an earlier place too.
pub open spec fn first_repeat(names: Seq<Seq<char>>) -> Option<nat> {
    first_repeat_from(names, 0)
}

/// Copies the names of a list of named fields.
pub fn field_names(fields: &Vec<NamedField>) -> (names: Vec<String>)
    ensures
        texts_of(names@) == names_of(fields@),
{
    let mut names: Vec<String> = Vec::new();
    let n: usize = fields.len();
    let mut i: usize = 0;
    while i < n
        invariant
            n == fields@.len(),
            i <= n,
            names@.len() == i,
            forall|j: int| 0 <= j < i ==> names@[j]@ == fields@[j].name@,
        decreases n - i,
    {
        names.push(fields[i].name.clone());
        i = i + 1;
    }
    assert(texts_of(names@) =~= names_of(fields@));
    names
}

/// Finds the first field whose name an earlier field has too.
pub fn find_repeat(fields: &Vec<NamedField>) -> (found: Option<usize>)
    ensures
        match found {
            Some(j) => j < fields@.len() && first_repeat(names_of(fields@)) == Some(j as nat),
            None => first_repeat(names_of(fields@)) is None,
        },
{
    let ghost names = names_of(fields@);
    let n: usize = fields.len();
    let mut j: usize = 0;
    while j < n
        invariant
            n == fields@.len(),
            names == names_of(fields@),
            j <= n,
            first_repeat(names) == first_repeat_from(names, j as nat),
        decreases n - j,
    {
        let mut i: usize = 0;
        while i < j
            invariant
                n == fields@.len(),
                names == names_of(fields@),
                j < n,
                i <= j,
                first_repeat(names) == first_repeat_from(names, j as nat),
                forall|k: int| 0 <= k < i ==> names[k] != names[j as int],
            decreases j - i,
        {
            if fields[i].name == fields[j].name {
                assert(names.take(j as int)[i as int] == names[j as int]);
                return Some(j);
            }
            i = i + 1;
        }
        j = j + 1;
    }
    None
}

} // verus!

use nommy::attr::IgnoreWS;
use nommy::buffer::{Buf, Buffer};
use nommy::parsers::{no_variant, Choice, Procedure, Step, TypeRef, Value};
use nommy::text::one_of::{OneInRange, OneOf};
use nommy::text::tag::Tag;

fn buffer(text: &str) -> Buf<char> {
    Buf::new(text.chars().collect())
}

fn rest(input: &mut Buf<char>) -> String {
    let mut text = String::new();
    while let Some(c) = input.next() {
        text.push(c);
    }
    text
}

fn tag(text: &str) -> TypeRef {
    TypeRef::Tag(Tag::new(text))
}

fn digit() -> TypeRef {
    TypeRef::OneInRange(OneInRange::digits())
}

fn letter() -> TypeRef {
    TypeRef::OneInRange(OneInRange::lowercase())
}

fn chars(text: &str) -> Value {
    Value::List(text.chars().map(Value::Char).collect())
}

#[test]
fn primitives_as_type_refs() {
    let mut input = buffer("let-7");
    assert_eq!(tag("let").parse(&mut input).unwrap(), Value::Unit);
    assert_eq!(TypeRef::OneOf(OneOf::new("-_")).parse(&mut input).unwrap(), Value::Char('-'));
    assert_eq!(digit().parse(&mut input).unwrap(), Value::Char('7'));
    assert_eq!(input.next(), None);
}

#[test]
fn primitive_errors_as_type_refs() {
    let e = tag("let").parse(&mut buffer("lot")).unwrap_err();
    assert_eq!(e.to_string(), "failed to parse tag \"let\", found \"lot\"");
    let e = TypeRef::OneOf(OneOf::new("-_")).parse(&mut buffer("a")).unwrap_err();
    assert_eq!(e.to_string(), "error parsing one of \"-_\", found 'a'");
    let e = digit().parse(&mut buffer("")).unwrap_err();
    assert_eq!(e.to_string(), "could not parse char in range '0'..='9', reached EOF");
}

#[test]
fn optional_present_and_absent() {
    let optional = TypeRef::Optional(Box::new(tag("-")));
    let mut input = buffer("-1");
    assert_eq!(optional.parse(&mut input).unwrap(), Value::Present(Box::new(Value::Unit)));
    assert_eq!(optional.parse(&mut input).unwrap(), Value::Absent);
    assert_eq!(rest(&mut input), "1");
}

#[test]
fn optional_peek_always_succeeds() {
    let optional = TypeRef::Optional(Box::new(tag("ab")));
    let mut input = buffer("abac");
    assert!(optional.peek(&mut input));
    assert_eq!(input.available(), 2);
    assert!(optional.peek(&mut input));
    assert_eq!(input.available(), 2);
    assert!(optional.peek(&mut buffer("")));
}

#[test]
fn vector_reads_while_the_item_matches() {
    let digits = TypeRef::Vector(Box::new(digit()));
    let mut input = buffer("123abc");
    assert_eq!(digits.parse(&mut input).unwrap(), chars("123"));
    assert_eq!(rest(&mut input), "abc");
}

#[test]
fn vector_may_be_empty() {
    let digits = TypeRef::Vector(Box::new(digit()));
    let mut input = buffer("abc");
    assert_eq!(digits.parse(&mut input).unwrap(), Value::List(vec![]));
    assert_eq!(input.available(), 3);
    assert_eq!(digits.parse(&mut buffer("")).unwrap(), Value::List(vec![]));
}

#[test]
fn vector_reads_to_the_end() {
    let digits = TypeRef::Vector(Box::new(digit()));
    let mut input = buffer("2024");
    assert_eq!(digits.parse(&mut input).unwrap(), chars("2024"));
    assert_eq!(input.next(), None);
}

#[test]
fn vector_ends_where_the_item_peek_fails() {
    let pairs = TypeRef::Vector(Box::new(tag("ab")));
    let mut input = buffer("ababa");
    assert_eq!(pairs.parse(&mut input).unwrap(), Value::List(vec![Value::Unit, Value::Unit]));
    assert!(!tag("ab").peek(&mut input.cursor()));
    assert_eq!(rest(&mut input), "a");
}

#[test]
fn vector_of_items_that_read_nothing_ends() {
    let blanks = TypeRef::Vector(Box::new(TypeRef::Optional(Box::new(tag("x")))));
    let mut input = buffer("xxy");
    assert_eq!(
        blanks.parse(&mut input).unwrap(),
        Value::List(vec![
            Value::Present(Box::new(Value::Unit)),
            Value::Present(Box::new(Value::Unit)),
        ])
    );
    assert_eq!(rest(&mut input), "y");
    let empties = TypeRef::Vector(Box::new(tag("")));
    let mut input = buffer("abc");
    assert_eq!(empties.parse(&mut input).unwrap(), Value::List(vec![]));
    assert!(empties.peek(&mut input));
    assert_eq!(input.available(), 3);
}

#[test]
fn vector_peek_moves_past_the_items() {
    let digits = TypeRef::Vector(Box::new(digit()));
    let mut input = buffer("12ab");
    assert!(digits.peek(&mut input));
    assert_eq!(rest(&mut input), "ab");
    let mut input = buffer("ab");
    assert!(digits.peek(&mut input));
    assert_eq!(input.available(), 2);
}

#[test]
fn separated_list() {
    let list = TypeRef::SeparatedBy(Box::new(digit()), Box::new(tag(",")));
    let mut input = buffer("1,2,3;");
    assert_eq!(list.parse(&mut input).unwrap(), chars("123"));
    assert_eq!(rest(&mut input), ";");
    let mut input = buffer("7");
    assert_eq!(list.parse(&mut input).unwrap(), chars("7"));
    assert_eq!(input.next(), None);
}

#[test]
fn separated_list_needs_a_first_item() {
    let list = TypeRef::SeparatedBy(Box::new(digit()), Box::new(tag(",")));
    let mut input = buffer(",1");
    let e = list.parse(&mut input).unwrap_err();
    assert_eq!(e.to_string(), "could not parse char in range '0'..='9', found ','");
    assert!(!list.peek(&mut buffer(",1")));
}

#[test]
fn separated_list_fails_after_a_separator() {
    let list = TypeRef::SeparatedBy(Box::new(digit()), Box::new(tag(",")));
    let mut input = buffer("1,2,x");
    let e = list.parse(&mut input).unwrap_err();
    assert_eq!(e.to_string(), "could not parse char in range '0'..='9', found 'x'");
    assert_eq!(input.next(), None);
    let mut input = buffer("1,2,x");
    assert!(!list.peek(&mut input));
    assert_eq!(input.available(), 5);
}

#[test]
fn separated_list_peek() {
    let list = TypeRef::SeparatedBy(Box::new(digit()), Box::new(tag(", ")));
    let mut input = buffer("1, 2, 3,4");
    assert!(list.peek(&mut input));
    assert_eq!(rest(&mut input), ",4");
}

#[test]
fn separated_list_without_progress_ends() {
    let list = TypeRef::SeparatedBy(
        Box::new(TypeRef::Optional(Box::new(digit()))),
        Box::new(tag("")),
    );
    let mut input = buffer("12x");
    assert_eq!(
        list.parse(&mut input).unwrap(),
        Value::List(vec![
            Value::Present(Box::new(Value::Char('1'))),
            Value::Present(Box::new(Value::Char('2'))),
        ])
    );
    assert_eq!(rest(&mut input), "x");
    let mut input = buffer("12x");
    assert!(list.peek(&mut input));
    assert_eq!(rest(&mut input), "x");
}

#[test]
fn until_stops_before_the_delimiter() {
    let word = TypeRef::Until(Box::new(letter()), Box::new(tag(";")));
    let mut input = buffer("abc;d");
    assert_eq!(word.parse(&mut input).unwrap(), chars("abc"));
    assert_eq!(rest(&mut input), ";d");
    let mut input = buffer(";d");
    assert_eq!(word.parse(&mut input).unwrap(), Value::List(vec![]));
    assert_eq!(input.available(), 2);
}

#[test]
fn until_fails_where_the_item_fails() {
    let word = TypeRef::Until(Box::new(letter()), Box::new(tag(";")));
    let mut input = buffer("ab1;");
    let e = word.parse(&mut input).unwrap_err();
    assert_eq!(e.to_string(), "could not parse char in range 'a'..='z', found '1'");
    assert_eq!(rest(&mut input), ";");
    let e = word.parse(&mut buffer("ab")).unwrap_err();
    assert_eq!(e.to_string(), "could not parse char in range 'a'..='z', reached EOF");
}

#[test]
fn until_peek() {
    let word = TypeRef::Until(Box::new(letter()), Box::new(tag(";")));
    let mut input = buffer("abc;d");
    assert!(word.peek(&mut input));
    assert_eq!(rest(&mut input), ";d");
    let mut input = buffer("ab1;");
    assert!(!word.peek(&mut input));
    assert_eq!(input.available(), 4);
}

#[test]
fn until_without_progress_ends() {
    let odd = TypeRef::Until(Box::new(TypeRef::Optional(Box::new(letter()))), Box::new(tag(";")));
    let mut input = buffer("ab1;");
    assert_eq!(
        odd.parse(&mut input).unwrap(),
        Value::List(vec![
            Value::Present(Box::new(Value::Char('a'))),
            Value::Present(Box::new(Value::Char('b'))),
        ])
    );
    assert_eq!(rest(&mut input), "1;");
}

fn pair() -> Procedure {
    Procedure {
        named: true,
        path: String::from("Pair"),
        names: vec![String::from("a"), String::from("b")],
        steps: vec![
            Step::Fix { tag: Tag::new("("), context: String::from("open") },
            Step::Whitespace(IgnoreWS::Spaces),
            Step::Field { parser: digit(), context: String::from("first") },
            Step::Whitespace(IgnoreWS::All),
            Step::Field { parser: digit(), context: String::from("second") },
            Step::Fix { tag: Tag::new(")"), context: String::from("close") },
        ],
    }
}

#[test]
fn procedure_runs_its_steps() {
    let mut input = buffer("( \t1 \n\r 2)x");
    assert_eq!(
        pair().parse(&mut input).unwrap(),
        Value::Struct {
            path: String::from("Pair"),
            names: vec![String::from("a"), String::from("b")],
            fields: vec![Value::Char('1'), Value::Char('2')],
        }
    );
    assert_eq!(rest(&mut input), "x");
}

#[test]
fn procedure_whitespace_policies_differ() {
    let mut input = buffer("(\n1 2)");
    let e = pair().parse(&mut input).unwrap_err();
    assert_eq!(e.to_string(), "first: could not parse char in range '0'..='9', found '\\n'");
    assert!(!pair().peek(&mut buffer("(\n1 2)")));
    assert!(pair().peek(&mut buffer("(1\n2)")));
}

#[test]
fn procedure_errors_carry_the_context_of_the_step() {
    let e = pair().parse(&mut buffer("[12)")).unwrap_err();
    assert_eq!(e.len(), 2);
    assert_eq!(e.message(0), "open");
    assert_eq!(e.message(1), "failed to parse tag \"(\", found \"[\"");
    let e = pair().parse(&mut buffer("(1x)")).unwrap_err();
    assert_eq!(e.to_string(), "second: could not parse char in range '0'..='9', found 'x'");
    let mut input = buffer("(12]rest");
    let e = pair().parse(&mut input).unwrap_err();
    assert_eq!(e.to_string(), "close: failed to parse tag \")\", found \"]\"");
    assert_eq!(rest(&mut input), "rest");
}

#[test]
fn procedure_peek_agrees_with_parse() {
    for text in ["(12)", "( 1 2)", "(12", "12)", "", "(1 2)tail", "(a2)"] {
        let peeked = pair().peek(&mut buffer(text));
        let parsed = pair().parse(&mut buffer(text));
        assert_eq!(peeked, parsed.is_ok());
    }
}

#[test]
fn procedure_peek_moves_as_parse_does() {
    let mut peeked = buffer("( 1 2)tail");
    let mut parsed = buffer("( 1 2)tail");
    assert!(pair().peek(&mut peeked));
    pair().parse(&mut parsed).unwrap();
    assert_eq!(peeked.available(), parsed.available());
    assert_eq!(rest(&mut peeked), "tail");
    let mut failed = buffer("( 1 x)");
    assert!(!pair().peek(&mut failed));
    assert_eq!(failed.available(), 6);
}

#[test]
fn procedure_without_steps() {
    let empty = Procedure { named: false, path: String::from("Unit"), names: vec![], steps: vec![] };
    let mut input = buffer("x");
    assert!(empty.peek(&mut input));
    assert_eq!(
        empty.parse(&mut input).unwrap(),
        Value::Tuple { path: String::from("Unit"), fields: vec![] }
    );
    assert_eq!(input.available(), 1);
}

fn variant(path: &str, text: &str) -> Procedure {
    Procedure {
        named: false,
        path: String::from(path),
        names: vec![],
        steps: vec![Step::Field { parser: tag(text), context: String::from(path) }],
    }
}

#[test]
fn choice_takes_the_first_match() {
    let choice = Choice {
        name: String::from("Op"),
        variants: vec![variant("Op::Less", "<"), variant("Op::LessEq", "<="), variant("Op::Less2", "<")],
    };
    let mut input = buffer("<=1");
    assert_eq!(
        choice.parse(&mut input).unwrap(),
        Value::Tuple { path: String::from("Op::Less"), fields: vec![Value::Unit] }
    );
    assert_eq!(rest(&mut input), "=1");
}

#[test]
fn choice_skips_variants_that_do_not_match() {
    let choice = Choice {
        name: String::from("Op"),
        variants: vec![variant("Op::Plus", "+"), variant("Op::Minus", "-")],
    };
    let ty = TypeRef::Enum(choice);
    let mut input = buffer("-+");
    assert!(ty.peek(&mut input.cursor()));
    assert_eq!(
        ty.parse(&mut input).unwrap(),
        Value::Tuple { path: String::from("Op::Minus"), fields: vec![Value::Unit] }
    );
    assert!(ty.peek(&mut input));
    assert_eq!(input.next(), None);
}

#[test]
fn choice_without_a_match() {
    let choice = Choice {
        name: String::from("Op"),
        variants: vec![variant("Op::Plus", "+"), variant("Op::Minus", "-")],
    };
    let mut input = buffer("!");
    assert!(!choice.peek(&mut input));
    let e = choice.parse(&mut input).unwrap_err();
    assert_eq!(e.to_string(), "no variants of Op could be parsed");
    assert_eq!(e.len(), 1);
    assert_eq!(input.available(), 1);
    let none = Choice { name: String::from("Never"), variants: vec![] };
    assert_eq!(
        none.parse(&mut buffer("")).unwrap_err().to_string(),
        "no variants of Never could be parsed"
    );
}

#[test]
fn no_variant_text() {
    assert_eq!(no_variant("Token"), "no variants of Token could be parsed");
}

#[test]
fn nested_type_refs() {
    let numbers = TypeRef::SeparatedBy(
        Box::new(TypeRef::Vector(Box::new(digit()))),
        Box::new(tag(",")),
    );
    let list = TypeRef::Struct(Procedure {
        named: false,
        path: String::from("List"),
        names: vec![],
        steps: vec![
            Step::Fix { tag: Tag::new("["), context: String::from("open") },
            Step::Field { parser: numbers, context: String::from("items") },
            Step::Fix { tag: Tag::new("]"), context: String::from("close") },
        ],
    });
    let mut input = buffer("[12,3,]");
    assert!(list.peek(&mut input.cursor()));
    assert_eq!(
        list.parse(&mut input).unwrap(),
        Value::Tuple {
            path: String::from("List"),
            fields: vec![Value::List(vec![chars("12"), chars("3"), chars("")])],
        }
    );
    assert_eq!(input.next(), None);
}

#[test]
fn duplicates_parse_alike() {
    let source = TypeRef::Struct(pair());
    let copy = source.duplicate();
    for text in ["(12)", "( 1 2)", "(1", ""] {
        assert_eq!(copy.parse(&mut buffer(text)), source.parse(&mut buffer(text)));
        assert_eq!(copy.peek(&mut buffer(text)), source.peek(&mut buffer(text)));
    }
    let choice = TypeRef::Enum(Choice {
        name: String::from("Op"),
        variants: vec![variant("Op::Plus", "+"), variant("Op::Minus", "-")],
    });
    let copy = choice.duplicate();
    for text in ["+", "-", "!"] {
        assert_eq!(copy.parse(&mut buffer(text)), choice.parse(&mut buffer(text)));
    }
    let wrapped = TypeRef::Until(
        Box::new(TypeRef::Optional(Box::new(TypeRef::OneOf(OneOf::new("ab"))))),
        Box::new(TypeRef::Vector(Box::new(tag(";")))),
    );
    assert_eq!(
        wrapped.duplicate().parse(&mut buffer("ab;")),
        wrapped.parse(&mut buffer("ab;"))
    );
}

#[test]
fn value_character() {
    assert_eq!(Value::character('x'), Value::Char('x'));
}

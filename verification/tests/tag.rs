use nommy::buffer::{Buf, Buffer};
use nommy::text::tag::Tag;

fn buffer(text: &str) -> Buf<char> {
    Buf::new(text.chars().collect())
}

#[test]
fn test_parse_matches() {
    let mut input = buffer("(){}[]<>");
    Tag::new("(").parse(&mut input).unwrap();
    Tag::new(")").parse(&mut input).unwrap();
    Tag::new("{").parse(&mut input).unwrap();
    Tag::new("}").parse(&mut input).unwrap();
    Tag::new("[").parse(&mut input).unwrap();
    Tag::new("]").parse(&mut input).unwrap();
    Tag::new("<").parse(&mut input).unwrap();
    Tag::new(">").parse(&mut input).unwrap();
    assert!(input.next().is_none())
}

#[test]
fn test_peek_matches() {
    let input = buffer("(){}[]<>");
    let mut cursor = input.cursor();
    assert!(Tag::new("(").peek(&mut cursor));
    assert!(Tag::new(")").peek(&mut cursor));
    assert!(Tag::new("{").peek(&mut cursor));
    assert!(Tag::new("}").peek(&mut cursor));
    assert!(Tag::new("[").peek(&mut cursor));
    assert!(Tag::new("]").peek(&mut cursor));
    assert!(Tag::new("<").peek(&mut cursor));
    assert!(Tag::new(">").peek(&mut cursor));
    assert!(cursor.next().is_none())
}

#[test]
fn test_parse_errors() {
    let res = Tag::new("(").parse(&mut buffer("1"));
    assert_eq!(
        format!("{}", res.unwrap_err().to_string()),
        "failed to parse tag \"(\", found \"1\""
    );

    let res = Tag::new(")").parse(&mut buffer("1"));
    assert_eq!(
        format!("{}", res.unwrap_err().to_string()),
        "failed to parse tag \")\", found \"1\""
    );
}

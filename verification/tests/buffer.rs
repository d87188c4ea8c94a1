use nommy::buffer::{Buf, Buffer};
use nommy::text::one_of::OneInRange;
use nommy::text::tag::Tag;

fn buffer(text: &str) -> Buf<char> {
    Buf::new(text.chars().collect())
}

#[test]
fn next_reads_tokens_in_order() {
    let mut input = buffer("ab");
    assert_eq!(input.next(), Some('a'));
    assert_eq!(input.next(), Some('b'));
    assert_eq!(input.next(), None);
    assert_eq!(input.next(), None);
}

#[test]
fn peek_one_does_not_advance() {
    let mut input = buffer("xy");
    assert_eq!(input.peek_one(), Some('x'));
    assert_eq!(input.peek_one(), Some('x'));
    assert_eq!(input.next(), Some('x'));
    assert_eq!(input.peek_one(), Some('y'));
    assert_eq!(input.next(), Some('y'));
    assert_eq!(input.peek_one(), None);
}

#[test]
fn available_and_fast_forward() {
    let mut input = buffer("hello");
    assert_eq!(input.available(), 5);
    input.fast_forward(2);
    assert_eq!(input.available(), 3);
    assert_eq!(input.next(), Some('l'));
    input.fast_forward(2);
    assert_eq!(input.available(), 0);
    assert_eq!(input.next(), None);
}

#[test]
fn cursors_leave_the_buffer_alone() {
    let mut input = buffer("abcdef");
    assert_eq!(input.next(), Some('a'));
    {
        let mut first = input.cursor();
        let mut second = input.cursor();
        assert_eq!(first.next(), Some('b'));
        assert_eq!(first.next(), Some('c'));
        assert_eq!(second.next(), Some('b'));
        let mut sub = first.cursor();
        assert_eq!(sub.next(), Some('d'));
        assert_eq!(sub.next(), Some('e'));
        assert_eq!(first.next(), Some('d'));
        assert_eq!(second.next(), Some('c'));
    }
    assert_eq!(input.available(), 5);
    assert_eq!(input.next(), Some('b'));
}

#[test]
fn cursor_reads_to_the_end() {
    let input = buffer("ab");
    let mut cursor = input.cursor();
    assert_eq!(cursor.peek_one(), Some('a'));
    assert_eq!(cursor.next(), Some('a'));
    assert_eq!(cursor.next(), Some('b'));
    assert_eq!(cursor.next(), None);
    assert_eq!(cursor.available(), 0);
    assert_eq!(input.available(), 2);
}

#[test]
fn peeks_on_cursors_leave_the_buffer_alone() {
    let mut input = buffer("(1");
    {
        let mut cursor = input.cursor();
        assert!(Tag::new("(").peek(&mut cursor));
        assert!(OneInRange::digits().peek(&mut cursor));
        assert_eq!(cursor.next(), None);
    }
    assert_eq!(input.available(), 2);
    assert_eq!(input.next(), Some('('));
}

#[test]
fn empty_buffer() {
    let mut input: Buf<char> = Buf::new(Vec::new());
    assert_eq!(input.available(), 0);
    assert_eq!(input.peek_one(), None);
    assert_eq!(input.next(), None);
    let mut cursor = input.cursor();
    assert_eq!(cursor.next(), None);
}

#[test]
fn buffer_of_other_tokens() {
    let mut input: Buf<u8> = Buf::new(vec![1, 2, 3]);
    assert_eq!(input.next(), Some(1));
    let mut cursor = input.cursor();
    assert_eq!(cursor.next(), Some(2));
    assert_eq!(input.next(), Some(2));
    assert_eq!(input.next(), Some(3));
    assert_eq!(input.next(), None);
}

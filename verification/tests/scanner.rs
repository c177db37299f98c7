use conftaal::consume::{CharPred, Consume, Cursor};

fn text(m: &Cursor, span: conftaal::span::Span) -> Vec<u8> {
    m.src[span.start..span.end].to_vec()
}

#[test]
fn consume_n() {
    let mut m = Cursor::new(b"hello".to_vec());
    let c = m.consume_n(3);
    assert_eq!(text(&m, c), b"hel");
    assert_eq!(m.rest(), b"lo");
    assert_eq!(c.start, 0);
    assert_eq!(m.pos, 3);
}

#[test]
fn consume() {
    let mut m = Cursor::new(b"hello".to_vec());
    let c = m.consume(b"he");
    assert!(c.is_some());
    assert_eq!(text(&m, c.unwrap()), b"he");
    assert_eq!(c.unwrap().start, 0);
    assert_eq!(m.consume(b"xyz"), None);
    assert_eq!(m.rest(), b"llo");
    assert_eq!(m.pos, 2);
}

#[test]
fn consume_one_of() {
    let mut m = Cursor::new(b"hello".to_vec());
    let h = m.consume_one_of(b"abcdefgh");
    let x = m.consume_one_of(b"xyz");
    let y = m.consume_one_of(b"");
    assert_eq!(m.rest(), b"ello");
    assert!(h.is_some());
    assert_eq!(text(&m, h.unwrap()), b"h");
    assert_eq!(x, None);
    assert_eq!(y, None);
    assert_eq!(m.pos, 1);
    assert_eq!(h.unwrap().start, 0);
}

// consume_one_of only works on ascii.
// This test verifies that it just stops at the first non-ascii byte.
#[test]
fn wide_char() {
    let mut m = Cursor::new("aαβ".as_bytes().to_vec());
    let x = m.consume_one_of("αa".as_bytes());
    let y = m.consume_one_of("ξ".as_bytes());
    assert!(x.is_some());
    assert_eq!(text(&m, x.unwrap()), b"a");
    assert_eq!(y, None);
}

#[test]
fn empty() {
    let mut m = Cursor::new(b"".to_vec());
    assert_eq!(m.consume_one_of(b"\0\nfoo bar"), None);
    assert_eq!(m.rest(), b"");
    assert_eq!(m.pos, 0);
}

#[test]
fn while_() {
    let mut m = Cursor::new(b"----+++".to_vec());
    let a = m.consume_while(CharPred::Is(b'-'));
    assert_eq!(text(&m, a), b"----");
    assert_eq!(m.rest(), b"+++");
    let b = m.consume_while(CharPred::IsNot(b'+'));
    assert_eq!(text(&m, b), b"");
    assert_eq!(m.rest(), b"+++");
    let c = m.consume_while(CharPred::Is(b'+'));
    assert_eq!(text(&m, c), b"+++");
    assert_eq!(m.rest(), b"");
}

#[test]
fn consume_byte_exact() {
    let mut m = Cursor::new(b"=x".to_vec());
    assert!(m.consume_byte(b'x').is_none());
    let e = m.consume_byte(b'=');
    assert!(e.is_some());
    assert_eq!(text(&m, e.unwrap()), b"=");
    assert_eq!(m.pos, 1);
}

#[test]
fn digit_runs() {
    let mut m = Cursor::new(b"1f9Xray".to_vec());
    let hex = m.consume_while(CharPred::Digit(16));
    assert_eq!(text(&m, hex), b"1f9");
    assert_eq!(m.rest(), b"Xray");
    let mut d = Cursor::new(b"42x".to_vec());
    let dec = d.consume_while(CharPred::Digit(10));
    assert_eq!(text(&d, dec), b"42");
    let mut b2 = Cursor::new(b"1012".to_vec());
    let bin = b2.consume_while(CharPred::Digit(2));
    assert_eq!(text(&b2, bin), b"101");
}

#[test]
fn digit_value_table() {
    assert_eq!(conftaal::hex::digit_value('0'), Ok(0));
    assert_eq!(conftaal::hex::digit_value('9'), Ok(9));
    assert_eq!(conftaal::hex::digit_value('a'), Ok(10));
    assert_eq!(conftaal::hex::digit_value('A'), Ok(10));
    assert_eq!(conftaal::hex::digit_value('f'), Ok(15));
    assert_eq!(conftaal::hex::digit_value('F'), Ok(15));
    assert_eq!(conftaal::hex::digit_value('g'), Err(()));
    assert_eq!(conftaal::hex::digit_value(' '), Err(()));
}

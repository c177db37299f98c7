use conftaal::consume::Cursor;
use conftaal::end::End;
use conftaal::matcher::{MatchMode, Matcher};
use conftaal::operator::{BinaryOperator, Operator, Order, UnaryOperator, higher_precedence};
use conftaal::span::Span;

#[test]
fn end_consumes_its_delimiter() {
    let mut c = Cursor::new(b" , x".to_vec());
    let end = End::Specific(b',').as_optional();
    assert!(end.parse(&mut c).unwrap());
    assert_eq!(c.rest(), b" x");
}

#[test]
fn end_fallback_does_not_consume() {
    let mut c = Cursor::new(b"  ]x".to_vec());
    let end = End::Specific(b',').or_before(End::Specific(b']'));
    assert!(end.parse(&mut c).unwrap());
    assert_eq!(c.rest(), b"]x");
}

#[test]
fn end_not_yet_reached() {
    let mut c = Cursor::new(b"y, x".to_vec());
    let end = End::Specific(b',').as_optional();
    assert!(!end.parse(&mut c).unwrap());
    assert_eq!(c.pos, 0);
}

#[test]
fn end_error_at_end_of_input() {
    let mut c = Cursor::new(b"   ".to_vec());
    let e = End::Specific(b',').as_optional().parse(&mut c).unwrap_err();
    assert_eq!(e.message.message, "expected `,'");
    assert!(e.notes.is_empty());
}

#[test]
fn element_end_stops_at_newline() {
    let mut c = Cursor::new(b" \n x".to_vec());
    let end = End::ElementEnd.as_optional();
    assert!(end.parse(&mut c).unwrap());
    assert_eq!(c.rest(), b" x");
}

#[test]
fn end_descriptions() {
    assert_eq!(End::EndOfFile.description(), "end of file");
    assert_eq!(End::Specific(b',').description(), "`,'");
    assert_eq!(
        End::MatchingBracket(Span { start: 0, end: 1 }, b')').description(),
        "`)'"
    );
    assert_eq!(End::ElementEnd.description(), "newline or `,` or `;'");
    assert_eq!(
        End::Specific(b',').or_before(End::EndOfFile).description(),
        "`,' or end of file"
    );
}

#[test]
fn matcher_parse_end() {
    let m = Matcher::bracket(Span { start: 0, end: 1 }, b')');
    let mut c = Cursor::new(b"  ) x".to_vec());
    assert!(m.parse_end(&mut c).unwrap());
    assert_eq!(c.rest(), b" x");

    let mut c = Cursor::new(b"y )".to_vec());
    assert!(!m.parse_end(&mut c).unwrap());
    assert_eq!(c.pos, 0);
}

#[test]
fn matcher_error_names_opener() {
    let mut c = Cursor::new(b"(a  ".to_vec());
    c.pos = 2;
    let m = Matcher::bracket(Span { start: 0, end: 1 }, b')');
    let e = m.parse_end(&mut c).unwrap_err();
    assert_eq!(e.message.message, "`)'");
    assert_eq!(e.notes.len(), 1);
    assert_eq!(e.notes[0].message, "... to match this `('");
    assert_eq!(e.notes[0].location.unwrap().start, 0);
}

#[test]
fn matcher_fallback_does_not_consume() {
    let m = Matcher::specific(b',').or_before(Matcher::specific(b']'));
    let mut c = Cursor::new(b"]".to_vec());
    assert!(m.parse_end(&mut c).unwrap());
    assert_eq!(c.pos, 0);
}

#[test]
fn matcher_descriptions() {
    assert_eq!(Matcher::new(MatchMode::EndOfFile).description(), "end of file");
    assert_eq!(
        Matcher::specific(b',').or_before(Matcher::new(MatchMode::EndOfFile)).description(),
        "`,' or end of file"
    );
    assert_eq!(
        Matcher::new(MatchMode::Nothing).or_before(Matcher::specific(b';')).description(),
        "`;'"
    );
    assert_eq!(Matcher::new(MatchMode::ElementEnd).description(), "newline or `,` or `;'");
}

#[test]
fn precedence_table() {
    let b = |x: BinaryOperator| Operator::Binary(x);
    assert_eq!(higher_precedence(b(BinaryOperator::Times), b(BinaryOperator::Plus)), Order::Left);
    assert_eq!(higher_precedence(b(BinaryOperator::Plus), b(BinaryOperator::Times)), Order::Right);
    assert_eq!(higher_precedence(b(BinaryOperator::Plus), b(BinaryOperator::Minus)), Order::Left);
    assert_eq!(higher_precedence(b(BinaryOperator::Power), b(BinaryOperator::Power)), Order::Right);
    assert_eq!(
        higher_precedence(b(BinaryOperator::Equal), b(BinaryOperator::Inequal)),
        Order::Unordered
    );
    assert_eq!(
        higher_precedence(b(BinaryOperator::Less), b(BinaryOperator::GreaterOrEqual)),
        Order::Unordered
    );
    assert_eq!(
        higher_precedence(Operator::Unary(UnaryOperator::Minus), b(BinaryOperator::Power)),
        Order::Left
    );
    assert_eq!(
        higher_precedence(b(BinaryOperator::Dot), Operator::Unary(UnaryOperator::Plus)),
        Order::Left
    );
    assert_eq!(
        higher_precedence(b(BinaryOperator::LogicalOr), b(BinaryOperator::LogicalAnd)),
        Order::Right
    );
}

use conftaal::consume::Cursor;
use conftaal::end::End;
use conftaal::error::Error;
use conftaal::expression::Expression;
use conftaal::parse::Parser;
use conftaal::render::reconstruct;

fn parse(src: &str) -> Result<(Expression, Vec<u8>), Error> {
    let mut p = Parser {
        source: Cursor::new(src.as_bytes().to_vec()),
    };
    let end = End::EndOfFile.as_optional();
    match p.parse_expression(&end) {
        Ok(e) => Ok((e, p.source.src)),
        Err(e) => Err(e),
    }
}

fn fmt(src: &str) -> String {
    let (e, bytes) = parse(src).expect("expected a successful parse");
    conftaal::render::format(&e, &bytes)
}

fn parse_err(src: &str) -> Error {
    match parse(src) {
        Ok((e, bytes)) => panic!("unexpectedly parsed: {}", conftaal::render::format(&e, &bytes)),
        Err(e) => e,
    }
}

// Tighter-binding operators sit deeper in the tree, for parenthesis-free
// input, all the way down the precedence table.
#[test]
fn precedence_depth() {
    assert_eq!(fmt("a + b * c"), "(op+ id:a (op* id:b id:c))");
    assert_eq!(fmt("a * b + c"), "(op+ (op* id:a id:b) id:c)");
    assert_eq!(fmt("a << b + c"), "(op<< id:a (op+ id:b id:c))");
    assert_eq!(fmt("a | b ^ c & d"), "(op| id:a (op^ id:b (op& id:c id:d)))");
    assert_eq!(fmt("a && b | c"), "(op&& id:a (op| id:b id:c))");
    assert_eq!(fmt("a || b && c"), "(op|| id:a (op&& id:b id:c))");
    assert_eq!(fmt("a == b + c"), "(op== id:a (op+ id:b id:c))");
    assert_eq!(fmt("a < b >> c"), "(op< id:a (op>> id:b id:c))");
    assert_eq!(fmt("a : b + c"), "(op+ (op: id:a id:b) id:c)");
    assert_eq!(fmt("a ** b * c"), "(op* (op** id:a id:b) id:c)");
}

#[test]
fn precedence_unary_binds_tighter() {
    assert_eq!(fmt("-a + b"), "(op+ (op- id:a) id:b)");
    assert_eq!(fmt("-a ** b"), "(op** (op- id:a) id:b)");
    assert_eq!(fmt("a * -b"), "(op* id:a (op- id:b))");
    assert_eq!(fmt("--a"), "(op- (op- id:a))");
    assert_eq!(fmt("!a && ~b"), "(op&& (op! id:a) (op~ id:b))");
}

#[test]
fn unary_spellings() {
    let unary_of = |src: &str| -> conftaal::operator::UnaryOperator {
        let (e, _) = parse(src).expect("expected a successful parse");
        match e {
            Expression::Op {
                op: conftaal::expression::Op::UnaryOp { op, .. },
                ..
            } => op,
            _ => panic!("expected a unary node at the root"),
        }
    };
    assert_eq!(unary_of("+a"), conftaal::operator::UnaryOperator::Plus);
    assert_eq!(unary_of("-a"), conftaal::operator::UnaryOperator::Minus);
    assert_eq!(unary_of("~a"), conftaal::operator::UnaryOperator::Complement);
    assert_eq!(unary_of("!a"), conftaal::operator::UnaryOperator::LogicalNot);
}

#[test]
fn associativity() {
    assert_eq!(fmt("a - b - c"), "(op- (op- id:a id:b) id:c)");
    assert_eq!(fmt("a ** b ** c"), "(op** id:a (op** id:b id:c))");
    assert_eq!(fmt("a + b - c + d"), "(op+ (op- (op+ id:a id:b) id:c) id:d)");
    assert_eq!(fmt("a / b * c % d"), "(op% (op* (op/ id:a id:b) id:c) id:d)");
}

#[test]
fn non_associative_self_conflict() {
    let e = parse_err("a == b == c");
    assert_eq!(e.message.message, "operator `==' is non-associative");
    let loc = e.message.location.unwrap();
    assert_eq!((loc.start, loc.end), (7, 9));
    assert_eq!(e.notes.len(), 1);
    assert_eq!(e.notes[0].message, "conflicting `==' here");
    let note = e.notes[0].location.unwrap();
    assert_eq!((note.start, note.end), (2, 4));

    let e = parse_err("a < b < c");
    assert_eq!(e.message.message, "operator `<' is non-associative");
    let loc = e.message.location.unwrap();
    assert_eq!((loc.start, loc.end), (6, 7));
    assert_eq!(e.notes[0].location.unwrap().start, 2);
}

#[test]
fn non_associative_cross_conflict() {
    let e = parse_err("a != b == c");
    assert_eq!(
        e.message.message,
        "operator `==' has equal precedence as `!=' and is non-associative"
    );
    assert_eq!(e.notes[0].message, "conflicting `!=' here");

    let e = parse_err("a <= b > c");
    assert_eq!(
        e.message.message,
        "operator `>' has equal precedence as `<=' and is non-associative"
    );
}

// The comparison class binds tighter than the equality class, so mixing the
// two classes is no conflict: the comparison nests inside the equality.
#[test]
fn comparison_inside_equality() {
    assert_eq!(fmt("a == b < c"), "(op== id:a (op< id:b id:c))");
    assert_eq!(fmt("a < b == c"), "(op== (op< id:a id:b) id:c)");
}

#[test]
fn parenthesization_blocks_splicing() {
    assert_eq!(fmt("(a + b) * c"), "(op* (op+ id:a id:b) id:c)");
    let (e, _) = parse("(a + b) * c").unwrap();
    match e {
        Expression::Op {
            op: conftaal::expression::Op::BinaryOp { op, .. },
            ..
        } => assert_eq!(op, conftaal::operator::BinaryOperator::Times),
        _ => panic!("expected an operator node at the root"),
    }
    assert_eq!(fmt("(a == b) == c"), "(op== (op== id:a id:b) id:c)");
    assert_eq!(fmt("a * (b + c)"), "(op* id:a (op+ id:b id:c))");
}

fn round_trip(src: &str) {
    let (e1, b1) = parse(src).expect("expected a successful parse");
    let t1 = conftaal::render::format(&e1, &b1);
    let rebuilt = reconstruct(&e1, &b1);
    let (e2, b2) = parse(&rebuilt).expect("expected the reconstruction to reparse");
    let t2 = conftaal::render::format(&e2, &b2);
    assert_eq!(t1, t2, "round trip changed the tree of {:?}", src);
}

#[test]
fn reconstruct_round_trip() {
    round_trip("a + b * c");
    round_trip("(a + b) * c");
    round_trip("a ** b ** c");
    round_trip("-a + ~b - !c");
    round_trip("a : b + c * (d - e)");
    round_trip("a && b || c == d");
}

#[test]
fn reconstruct_text() {
    let (e, b) = parse("(a + b) * c").unwrap();
    assert_eq!(reconstruct(&e, &b), "(a + b) * c");
    let (e, b) = parse("[a, b]").unwrap();
    assert_eq!(reconstruct(&e, &b), "list(a, b)");
    let (e, b) = parse("-x").unwrap();
    assert_eq!(reconstruct(&e, &b), "-x");
}

#[test]
fn list_literals() {
    assert_eq!(fmt("[a, b, c]"), "(list id:a id:b id:c)");
    assert_eq!(fmt("[]"), "(list)");
    assert_eq!(fmt("[a,]"), "(list id:a)");
    assert_eq!(fmt("[a, [b, c]]"), "(list id:a (list id:b id:c))");
    assert_eq!(fmt("[\n  a,\n  b\n]"), "(list id:a id:b)");
}

#[test]
fn object_literals() {
    assert_eq!(
        fmt("{a = 1, b = 2}"),
        "(object keys=(list str:\"a\" str:\"b\") values=(list int:1 int:2))"
    );
    assert_eq!(fmt("{}"), "(object keys=(list) values=(list))");
    assert_eq!(
        fmt("{x = a + b; y = [c]}"),
        "(object keys=(list str:\"x\" str:\"y\") values=(list (op+ id:a id:b) (list id:c)))"
    );
    assert_eq!(fmt("{a = 1,}"), "(object keys=(list str:\"a\") values=(list int:1))");
    assert_eq!(
        fmt("{a = 1\nb = 2}"),
        "(object keys=(list str:\"a\" str:\"b\") values=(list int:1 int:2))"
    );
}

#[test]
fn numeric_literals() {
    assert_eq!(fmt("0x1F"), "int:31");
    assert_eq!(fmt("0b101"), "int:5");
    assert_eq!(fmt("0o17"), "int:15");
    assert_eq!(fmt("0"), "int:0");
    assert_eq!(fmt("42"), "int:42");
    assert_eq!(fmt("18446744073709551615"), "int:18446744073709551615");
}

#[test]
fn integer_overflow() {
    let e = parse_err("999999999999999999999");
    assert_eq!(e.message.message, "integer too large");
    let e = parse_err("18446744073709551616");
    assert_eq!(e.message.message, "integer too large");
    let e = parse_err("0x10000000000000000");
    assert_eq!(e.message.message, "integer too large");
}

#[test]
fn bare_dot_is_no_number() {
    let e = parse_err(".");
    assert_eq!(e.message.message, "missing expression");
}

#[test]
fn missing_digits() {
    let e = parse_err("0x");
    assert_eq!(e.message.message, "missing digits");
}

#[test]
fn float_forms_are_rejected() {
    let e = parse_err("1.5");
    assert_eq!(e.message.message, "floating point literals are not supported");
    let e = parse_err("1e5");
    assert_eq!(e.message.message, "floating point literals are not supported");
    let e = parse_err(".5");
    assert_eq!(e.message.message, "floating point literals are not supported");
    let e = parse_err("0x1p-3");
    assert_eq!(e.message.message, "floating point literals are not supported");
}

#[test]
fn unmatched_bracket() {
    let e = parse_err("(a + b");
    assert_eq!(e.message.message, "expected `)'");
    let loc = e.message.location.unwrap();
    assert_eq!((loc.start, loc.end), (6, 6));
    assert_eq!(e.notes.len(), 1);
    assert_eq!(e.notes[0].message, "... to match this `('");
    let note = e.notes[0].location.unwrap();
    assert_eq!((note.start, note.end), (0, 1));
}

#[test]
fn comments_are_skipped() {
    assert_eq!(fmt("a #comment\n + b"), fmt("a + b"));
    assert_eq!(fmt("a + b"), "(op+ id:a id:b)");
    assert_eq!(fmt("#leading\na"), "id:a");
}

#[test]
fn calls_indexes_and_dots() {
    assert_eq!(fmt("f(a, b)"), "(op( id:f (list id:a id:b))");
    assert_eq!(fmt("a[b]"), "(op[ id:a (list id:b))");
    assert_eq!(fmt("a.b"), "(op. id:a id:b)");
    assert_eq!(fmt("a.b.c"), "(op. (op. id:a id:b) id:c)");
    assert_eq!(fmt("f(a)(b)"), "(op( (op( id:f (list id:a)) (list id:b))");
}

#[test]
fn missing_expression_errors() {
    let e = parse_err("");
    assert_eq!(e.message.message, "missing expression");
    let e = parse_err("-");
    assert_eq!(e.message.message, "missing expression after unary `-' operator");
    let e = parse_err("a + ");
    assert_eq!(e.message.message, "expected expression after binary operator `+'");
}

#[test]
fn expected_binary_operator() {
    let e = parse_err("a b");
    assert_eq!(e.message.message, "expected binary operator or end of file");
}

#[test]
fn expected_identifier_after_dot() {
    let e = parse_err("a.1");
    assert_eq!(e.message.message, "expected identifier after `.'");
}

#[test]
fn object_key_errors() {
    let e = parse_err("{1 = 2}");
    assert_eq!(e.message.message, "expected identifier as object key");
    let e = parse_err("{a 1}");
    assert_eq!(e.message.message, "expected `='");
}

#[test]
fn reserved_forms_are_rejected() {
    let e = parse_err("\"text\"");
    assert_eq!(e.message.message, "string literals are not supported");
    let e = parse_err("\\x");
    assert_eq!(e.message.message, "lambdas are not supported");
}

#[test]
fn nested_demo_input() {
    let src = "bla_0[x, f(a, b+c), [a, b] + {a = ~b, c = a+b+c; x = y; y = -x;}]";
    assert!(parse(src).is_ok());
}

#[test]
fn identifier_grammar() {
    assert_eq!(fmt("_x9"), "id:_x9");
    assert_eq!(fmt("A_b_1"), "id:A_b_1");
    let e = parse_err("9x");
    assert_eq!(e.message.message, "expected binary operator or end of file");
}

#[test]
fn greedy_two_byte_operators() {
    assert_eq!(fmt("a << b"), "(op<< id:a id:b)");
    assert_eq!(fmt("a < b"), "(op< id:a id:b)");
    assert_eq!(fmt("a <= b"), "(op<= id:a id:b)");
    assert_eq!(fmt("a ** b"), "(op** id:a id:b)");
    assert_eq!(fmt("a * b"), "(op* id:a id:b)");
}

#[test]
fn decimal_rendering() {
    assert_eq!(conftaal::render::u64_to_string(0), "0");
    assert_eq!(conftaal::render::u64_to_string(7), "7");
    assert_eq!(conftaal::render::u64_to_string(12345), "12345");
    assert_eq!(
        conftaal::render::u64_to_string(u64::MAX),
        "18446744073709551615"
    );
}

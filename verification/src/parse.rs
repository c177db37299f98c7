use vstd::prelude::*;

use crate::consume::{CharPred, Consume, Cursor, is_identifier_char, while_stop};
use crate::end::{End, OptionalEnd};
use crate::error::{Error, ErrorView, error, spec_error};
use crate::expression::{ExprView, Expression, LitView, Literal, OpView, exprs_view, lit_view};
use crate::hex::{is_digit, is_digit_of_base, spec_digit_value};
use crate::operator::{BinaryOperator, UnaryOperator};
use crate::span::Span;
use crate::splice::spec_splice;
use crate::text::span_chars;

verus! {

/// The parser: it owns the cursor over the shrinking remaining input.
pub struct Parser {
    pub source: Cursor,
}

/// The unary operator a leading byte spells: `~` is the bitwise complement
/// and `!` the logical not, as the operator enum's spellings say.
pub open spec fn spec_unary_op(b: u8) -> Option<UnaryOperator> {
    if b == ('+' as u8) {
        Some(UnaryOperator::Plus)
    } else if b == ('-' as u8) {
        Some(UnaryOperator::Minus)
    } else if b == ('~' as u8) {
        Some(UnaryOperator::Complement)
    } else if b == ('!' as u8) {
        Some(UnaryOperator::LogicalNot)
    } else {
        None
    }
}

/// The binary operator two leading bytes spell; two-byte operators are
/// matched greedily ahead of their one-byte prefixes.
pub open spec fn spec_binary_op2(a: u8, b: u8) -> Option<BinaryOperator> {
    if a == ('*' as u8) && b == ('*' as u8) {
        Some(BinaryOperator::Power)
    } else if a == ('<' as u8) && b == ('=' as u8) {
        Some(BinaryOperator::LessOrEqual)
    } else if a == ('<' as u8) && b == ('<' as u8) {
        Some(BinaryOperator::LeftShift)
    } else if a == ('>' as u8) && b == ('=' as u8) {
        Some(BinaryOperator::GreaterOrEqual)
    } else if a == ('>' as u8) && b == ('>' as u8) {
        Some(BinaryOperator::RightShift)
    } else if a == ('=' as u8) && b == ('=' as u8) {
        Some(BinaryOperator::Equal)
    } else if a == ('!' as u8) && b == ('=' as u8) {
        Some(BinaryOperator::Inequal)
    } else if a == ('&' as u8) && b == ('&' as u8) {
        Some(BinaryOperator::LogicalAnd)
    } else if a == ('|' as u8) && b == ('|' as u8) {
        Some(BinaryOperator::LogicalOr)
    } else {
        None
    }
}

/// The binary operator a single leading byte spells.
pub open spec fn spec_binary_op1(b: u8) -> Option<BinaryOperator> {
    if b == ('.' as u8) {
        Some(BinaryOperator::Dot)
    } else if b == ('[' as u8) {
        Some(BinaryOperator::Index)
    } else if b == ('(' as u8) {
        Some(BinaryOperator::Call)
    } else if b == (':' as u8) {
        Some(BinaryOperator::Colon)
    } else if b == ('*' as u8) {
        Some(BinaryOperator::Times)
    } else if b == ('/' as u8) {
        Some(BinaryOperator::Divide)
    } else if b == ('%' as u8) {
        Some(BinaryOperator::Modulo)
    } else if b == ('+' as u8) {
        Some(BinaryOperator::Plus)
    } else if b == ('-' as u8) {
        Some(BinaryOperator::Minus)
    } else if b == ('<' as u8) {
        Some(BinaryOperator::Less)
    } else if b == ('>' as u8) {
        Some(BinaryOperator::Greater)
    } else if b == ('&' as u8) {
        Some(BinaryOperator::BitAnd)
    } else if b == ('^' as u8) {
        Some(BinaryOperator::BitXor)
    } else if b == ('|' as u8) {
        Some(BinaryOperator::BitOr)
    } else {
        None
    }
}

/// What `parse_identifier` returns and where it leaves the cursor: the
/// maximal identifier starting at `i`, if one does.
pub open spec fn spec_parse_identifier(s: Seq<u8>, i: int) -> (Option<Span>, int) {
    if 0 <= i < s.len() && is_identifier_char(s[i], true) {
        let j = while_stop(s, i, CharPred::IdentifierChar);
        (Some(Span { start: i as usize, end: j as usize }), j)
    } else {
        (None, i)
    }
}

/// What `parse_unary_operator` returns and where it leaves the cursor.
pub open spec fn spec_parse_unary_operator(s: Seq<u8>, i: int) -> (
    Option<(Span, UnaryOperator)>,
    int,
) {
    if 0 <= i < s.len() && spec_unary_op(s[i]) is Some {
        (
            Some((Span { start: i as usize, end: (i + 1) as usize }, spec_unary_op(s[i]).unwrap())),
            i + 1,
        )
    } else {
        (None, i)
    }
}

/// What `parse_binary_operator` returns and where it leaves the cursor.
pub open spec fn spec_parse_binary_operator(s: Seq<u8>, i: int) -> (
    Option<(Span, BinaryOperator)>,
    int,
) {
    if 0 <= i && i + 2 <= s.len() && spec_binary_op2(s[i], s[i + 1]) is Some {
        (
            Some(
                (
                    Span { start: i as usize, end: (i + 2) as usize },
                    spec_binary_op2(s[i], s[i + 1]).unwrap(),
                ),
            ),
            i + 2,
        )
    } else if 0 <= i < s.len() && spec_binary_op1(s[i]) is Some {
        (
            Some(
                (Span { start: i as usize, end: (i + 1) as usize }, spec_binary_op1(s[i]).unwrap()),
            ),
            i + 1,
        )
    } else {
        (None, i)
    }
}

/// The numeric value of a digit byte; bytes that are no digit count zero and
/// never occur where this is applied.
pub open spec fn digit_val_of(b: u8) -> nat {
    match spec_digit_value(b as char) {
        Ok(v) => v as nat,
        Err(_) => 0,
    }
}

/// The numeric value of a run of digit bytes, most significant first.
pub open spec fn digits_value(digits: Seq<u8>, base: nat) -> nat
    decreases digits.len(),
{
    if digits.len() == 0 {
        0
    } else {
        digits_value(digits.drop_last(), base) * base + digit_val_of(digits.last())
    }
}

/// A run's value only grows as digits are appended.
proof fn lemma_digits_value_prefix(digits: Seq<u8>, base: nat, m: int)
    requires
        0 <= m <= digits.len(),
        base >= 1,
    ensures
        digits_value(digits.subrange(0, m), base) <= digits_value(digits, base),
    decreases digits.len() - m,
{
    if m == digits.len() {
        assert(digits.subrange(0, m) =~= digits);
    } else {
        lemma_digits_value_prefix(digits, base, m + 1);
        let shorter = digits.subrange(0, m);
        let longer = digits.subrange(0, m + 1);
        assert(longer.drop_last() =~= shorter);
        let v = digits_value(shorter, base);
        assert(v <= v * base) by (nonlinear_arith)
            requires
                base >= 1,
        ;
    }
}

/// For a truncating division `q == x / b`, the products `q * b` and
/// `(q + 1) * b` bracket `x`.
proof fn lemma_div_bounds(x: int, b: int, q: int)
    requires
        x >= 0,
        b >= 1,
        q == x / b,
    ensures
        q * b <= x,
        (q + 1) * b > x,
{
    vstd::arithmetic::div_mod::lemma_fundamental_div_mod(x, b);
    vstd::arithmetic::div_mod::lemma_mod_bound(x, b);
    assert(q * b <= x && (q + 1) * b > x) by (nonlinear_arith)
        requires
            x == b * q + x % b,
            0 <= x % b < b,
    ;
}

/// Reads the digits under `span`, all of them digits of `base`, as an
/// unsigned 64-bit integer; `None` reports overflow.
fn u64_from_digits(src: &Vec<u8>, span: Span, base: u32) -> (r: Option<u64>)
    requires
        span.start <= span.end <= src@.len(),
        2 <= base <= 16,
        forall|k: int| span.start <= k < span.end ==> is_digit_of_base(src@[k], base),
    ensures
        ({
            let v = digits_value(src@.subrange(span.start as int, span.end as int), base as nat);
            match r {
                Some(x) => x as nat == v,
                None => v > u64::MAX,
            }
        }),
{
    let ghost s = src@;
    let ghost whole = s.subrange(span.start as int, span.end as int);
    let mut acc: u64 = 0;
    let mut k: usize = span.start;
    while k < span.end
        invariant
            span.start <= k <= span.end <= s.len(),
            s == src@,
            whole == s.subrange(span.start as int, span.end as int),
            2 <= base <= 16,
            forall|j: int| span.start <= j < span.end ==> is_digit_of_base(s[j], base),
            acc as nat == digits_value(s.subrange(span.start as int, k as int), base as nat),
        decreases span.end - k,
    {
        let b = src[k];
        let d: u8 = match crate::hex::digit_value(b as char) {
            Ok(v) => v,
            Err(_) => 0,
        };
        let ghost prefix = s.subrange(span.start as int, k as int);
        let ghost extended = s.subrange(span.start as int, k + 1);
        proof {
            assert(extended.drop_last() =~= prefix);
            assert(extended.last() == s[k as int]);
            assert(digit_val_of(s[k as int]) == d as nat);
        }
        let q = (u64::MAX - (d as u64)) / (base as u64);
        proof {
            lemma_div_bounds((u64::MAX - d) as int, base as int, q as int);
        }
        if acc > q {
            proof {
                vstd::arithmetic::mul::lemma_mul_inequality(
                    q as int + 1,
                    acc as int,
                    base as int,
                );
                assert((acc as int) * (base as int) + d > u64::MAX);
                assert(digits_value(extended, base as nat) == digits_value(prefix, base as nat)
                    * (base as nat) + digit_val_of(extended.last()));
                assert(digits_value(extended, base as nat) > u64::MAX);
                lemma_digits_value_prefix(whole, base as nat, k + 1 - span.start);
                assert(whole.subrange(0, k + 1 - span.start) =~= extended);
            }
            return None;
        }
        proof {
            vstd::arithmetic::mul::lemma_mul_inequality(acc as int, q as int, base as int);
        }
        acc = acc * (base as u64) + (d as u64);
        k = k + 1;
    }
    proof {
        assert(s.subrange(span.start as int, k as int) =~= whole);
    }
    Some(acc)
}

/// Whether a numeric literal starts at `i`: a decimal digit, or a `.`
/// followed by one.
pub open spec fn spec_number_starts(s: Seq<u8>, i: int) -> bool {
    let k = if 0 <= i < s.len() && s[i] == ('.' as u8) {
        i + 1
    } else {
        i
    };
    0 <= k < s.len() && is_digit_of_base(s[k], 10)
}

/// The base named by a `0x`/`0o`/`0b` prefix at `i`, in either case.
pub open spec fn spec_base_prefix(s: Seq<u8>, i: int) -> Option<u32> {
    if 0 <= i && i + 2 <= s.len() && s[i] == ('0' as u8) {
        if s[i + 1] == ('x' as u8) || s[i + 1] == ('X' as u8) {
            Some(16u32)
        } else if s[i + 1] == ('o' as u8) || s[i + 1] == ('O' as u8) {
            Some(8u32)
        } else if s[i + 1] == ('b' as u8) || s[i + 1] == ('B' as u8) {
            Some(2u32)
        } else {
            None
        }
    } else {
        None
    }
}

/// The exponent marker of the base: `p` for hexadecimal, else `e`.
pub open spec fn spec_exp_marker(b: u8, base: u32) -> bool {
    if base == 16 {
        b == ('p' as u8) || b == ('P' as u8)
    } else {
        b == ('e' as u8) || b == ('E' as u8)
    }
}

/// What `parse_number` returns and where it leaves the cursor. A number is an
/// optional base prefix, a digit run, an optional fraction and an optional
/// exponent; fraction or exponent make a floating point literal, which this
/// parser does not assemble, and an empty digit run or a too large value is
/// rejected.
pub open spec fn spec_parse_number(s: Seq<u8>, i: int) -> (Result<Option<LitView>, ErrorView>, int) {
    if !spec_number_starts(s, i) {
        (Ok(None), i)
    } else {
        let base = match spec_base_prefix(s, i) {
            Some(b) => b,
            None => 10u32,
        };
        let p1 = match spec_base_prefix(s, i) {
            Some(_) => i + 2,
            None => i,
        };
        let int_end = while_stop(s, p1, CharPred::Digit(base));
        let has_frac = 0 <= int_end < s.len() && s[int_end] == ('.' as u8);
        let p2 = if has_frac {
            while_stop(s, int_end + 1, CharPred::Digit(base))
        } else {
            int_end
        };
        let has_exp = 0 <= p2 < s.len() && spec_exp_marker(s[p2], base);
        let p3 = if has_exp {
            let p_sign = if 0 <= p2 + 1 < s.len() && (s[p2 + 1] == ('+' as u8) || s[p2 + 1] == (
                '-' as u8)) {
                p2 + 2
            } else {
                p2 + 1
            };
            while_stop(s, p_sign, CharPred::Digit(base))
        } else {
            p2
        };
        if has_exp || has_frac {
            (
                Err(
                    spec_error(
                        "floating point literals are not supported"@,
                        Span { start: i as usize, end: p3 as usize },
                    ),
                ),
                p3,
            )
        } else if int_end == p1 {
            (
                Err(
                    spec_error("missing digits"@, Span { start: p1 as usize, end: p1 as usize }),
                ),
                p3,
            )
        } else {
            let v = digits_value(s.subrange(p1, int_end), base as nat);
            if v <= u64::MAX {
                (Ok(Some(LitView::Integer(v as u64))), int_end)
            } else {
                (
                    Err(
                        spec_error(
                            "integer too large"@,
                            Span { start: p1 as usize, end: int_end as usize },
                        ),
                    ),
                    int_end,
                )
            }
        }
    }
}

/// Maps a number parse result to views.
pub open spec fn number_result_view(r: Result<Option<Literal>, Error>) -> Result<
    Option<LitView>,
    ErrorView,
> {
    match r {
        Ok(Some(l)) => Ok(Some(lit_view(l))),
        Ok(None) => Ok(None),
        Err(e) => Err(e@),
    }
}

/// `p`, but never below `lo`. Parsing only moves forward, so this is the
/// identity wherever it is applied; it keeps the recursive definitions below
/// visibly well-founded.
pub open spec fn at_least(p: int, lo: int) -> int {
    if p < lo {
        lo
    } else {
        p
    }
}

/// How much input is left at offset `i`: the termination measure of the
/// recursive definitions below.
pub open spec fn remaining(s: Seq<u8>, i: int) -> int {
    if i > s.len() {
        0
    } else {
        s.len() - i
    }
}

/// Marks an operator node as parenthesized, protecting its interior from
/// splicing; identifiers and literals are left as they are.
pub open spec fn spec_mark_parenthesized(e: ExprView) -> ExprView {
    match e {
        ExprView::Op { op_source, op, parenthesized: _ } => ExprView::Op {
            op_source,
            op,
            parenthesized: true,
        },
        _ => e,
    }
}

/// What `parse_expression_atom` returns and where it leaves the cursor.
/// Atom dispatch, in priority order: the delimiter itself (no atom); a
/// parenthesized sub-expression; a prefix unary operator and its atom; an
/// identifier; a string literal (reserved, rejected); an object literal; a
/// list literal; a numeric literal; a lambda (reserved, rejected); else no
/// atom, which is not itself an error.
pub open spec fn spec_parse_atom(s: Seq<u8>, i: int, end: OptionalEnd) -> (
    Result<Option<ExprView>, ErrorView>,
    int,
)
    decreases remaining(s, i), 1int,
{
    let (er, p0) = end.spec_parse(s, i);
    match er {
        Err(e) => (Err(e), p0),
        Ok(true) => (Ok(None), p0),
        Ok(false) => {
            let p = at_least(p0, i);
            if 0 <= p < s.len() && s[p] == ('(' as u8) {
                let open = Span { start: p as usize, end: (p + 1) as usize };
                let inner = OptionalEnd {
                    end: End::MatchingBracket(open, ')' as u8),
                    or_before: None,
                };
                let (r1, q) = spec_parse_expression(s, p + 1, inner);
                match r1 {
                    Err(e) => (Err(e), q),
                    Ok(e) => (Ok(Some(spec_mark_parenthesized(e))), q),
                }
            } else if 0 <= p < s.len() && spec_unary_op(s[p]) is Some {
                let op = spec_unary_op(s[p]).unwrap();
                let op_source = Span { start: p as usize, end: (p + 1) as usize };
                let (r1, q) = spec_parse_atom(s, p + 1, end);
                match r1 {
                    Err(e) => (Err(e), q),
                    Ok(None) => (
                        Err(
                            spec_error(
                                "missing expression after unary `"@ + span_chars(s, op_source)
                                    + "' operator"@,
                                Span { start: q as usize, end: q as usize },
                            ),
                        ),
                        q,
                    ),
                    Ok(Some(sub)) => (
                        Ok(
                            Some(
                                ExprView::Op {
                                    op_source,
                                    op: OpView::UnaryOp { op, rhs: Box::new(sub) },
                                    parenthesized: false,
                                },
                            ),
                        ),
                        q,
                    ),
                }
            } else if 0 <= p < s.len() && is_identifier_char(s[p], true) {
                let (id, q) = spec_parse_identifier(s, p);
                (Ok(Some(ExprView::Identifier(id.unwrap()))), q)
            } else if 0 <= p < s.len() && s[p] == ('"' as u8) {
                (
                    Err(
                        spec_error(
                            "string literals are not supported"@,
                            Span { start: p as usize, end: p as usize },
                        ),
                    ),
                    p,
                )
            } else if 0 <= p < s.len() && s[p] == ('{' as u8) {
                let open = Span { start: p as usize, end: (p + 1) as usize };
                let (r1, q) = spec_parse_object(
                    s,
                    p + 1,
                    End::MatchingBracket(open, '}' as u8),
                    Seq::empty(),
                    Seq::empty(),
                );
                match r1 {
                    Err(e) => (Err(e), q),
                    Ok(kv) => (Ok(Some(ExprView::Literal(LitView::Object(kv.0, kv.1)))), q),
                }
            } else if 0 <= p < s.len() && s[p] == ('[' as u8) {
                let open = Span { start: p as usize, end: (p + 1) as usize };
                let (r1, q) = spec_parse_list(
                    s,
                    p + 1,
                    End::MatchingBracket(open, ']' as u8),
                    Seq::empty(),
                );
                match r1 {
                    Err(e) => (Err(e), q),
                    Ok(elems) => (Ok(Some(ExprView::Literal(LitView::List(elems)))), q),
                }
            } else {
                let (nr, q) = spec_parse_number(s, p);
                match nr {
                    Err(e) => (Err(e), q),
                    Ok(Some(lit)) => (Ok(Some(ExprView::Literal(lit))), q),
                    Ok(None) => if 0 <= p < s.len() && s[p] == ('\\' as u8) {
                        (
                            Err(
                                spec_error(
                                    "lambdas are not supported"@,
                                    Span { start: p as usize, end: p as usize },
                                ),
                            ),
                            p,
                        )
                    } else {
                        (Ok(None), p)
                    },
                }
            }
        },
    }
}

/// Wraps the splicing of a parsed binary operator and right operand into the
/// result shape of `spec_parse_more`.
pub open spec fn spec_splice_step(
    s: Seq<u8>,
    e: ExprView,
    op: BinaryOperator,
    op_source: Span,
    rhs: ExprView,
    q: int,
) -> (Result<(ExprView, bool), ErrorView>, int) {
    match spec_splice(e, op, op_source, rhs, s) {
        Err(err) => (Err(err), q),
        Ok(e2) => (Ok((e2, true)), q),
    }
}

/// What `parse_more_expression` returns and where it leaves the cursor:
/// either the delimiter matches and the expression is done, or a binary
/// operator follows, its right operand is parsed (`.` requires a bare
/// identifier, a call or index its argument list, anything else an atom), and
/// the new node is spliced into the tree built so far.
pub open spec fn spec_parse_more(s: Seq<u8>, i: int, e: ExprView, end: OptionalEnd) -> (
    Result<(ExprView, bool), ErrorView>,
    int,
)
    decreases remaining(s, i), 2int,
{
    let (er, p0) = end.spec_parse(s, i);
    match er {
        Err(err) => (Err(err), p0),
        Ok(true) => (Ok((e, false)), p0),
        Ok(false) => {
            let p = at_least(p0, i);
            let (opr, q0) = spec_parse_binary_operator(s, p);
            match opr {
                None => (
                    Err(
                        spec_error(
                            "expected binary operator or "@ + end.spec_description(),
                            Span { start: q0 as usize, end: q0 as usize },
                        ),
                    ),
                    q0,
                ),
                Some(pair) => {
                    let op_source = pair.0;
                    let op = pair.1;
                    let q = at_least(q0, i + 1);
                    if op == BinaryOperator::Call {
                        let (lr, q2) = spec_parse_list(
                            s,
                            q,
                            End::MatchingBracket(op_source, ')' as u8),
                            Seq::empty(),
                        );
                        match lr {
                            Err(err) => (Err(err), q2),
                            Ok(elems) => spec_splice_step(
                                s,
                                e,
                                op,
                                op_source,
                                ExprView::Literal(LitView::List(elems)),
                                q2,
                            ),
                        }
                    } else if op == BinaryOperator::Index {
                        let (lr, q2) = spec_parse_list(
                            s,
                            q,
                            End::MatchingBracket(op_source, ']' as u8),
                            Seq::empty(),
                        );
                        match lr {
                            Err(err) => (Err(err), q2),
                            Ok(elems) => spec_splice_step(
                                s,
                                e,
                                op,
                                op_source,
                                ExprView::Literal(LitView::List(elems)),
                                q2,
                            ),
                        }
                    } else if op == BinaryOperator::Dot {
                        let (id, q2) = spec_parse_identifier(s, q);
                        match id {
                            None => (
                                Err(
                                    spec_error(
                                        "expected identifier after `.'"@,
                                        Span { start: q2 as usize, end: q2 as usize },
                                    ),
                                ),
                                q2,
                            ),
                            Some(sp) => spec_splice_step(
                                s,
                                e,
                                op,
                                op_source,
                                ExprView::Identifier(sp),
                                q2,
                            ),
                        }
                    } else {
                        let (ar, q2) = spec_parse_atom(s, q, end);
                        match ar {
                            Err(err) => (Err(err), q2),
                            Ok(None) => (
                                Err(
                                    spec_error(
                                        "expected expression after binary operator `"@
                                            + span_chars(s, op_source) + "'"@,
                                        Span { start: q2 as usize, end: q2 as usize },
                                    ),
                                ),
                                q2,
                            ),
                            Ok(Some(rhs)) => spec_splice_step(s, e, op, op_source, rhs, q2),
                        }
                    }
                },
            }
        },
    }
}

/// The operator loop of `parse_expression`: splice trailing binary operators
/// onto `e` until the delimiter matches.
pub open spec fn spec_parse_expr_loop(s: Seq<u8>, i: int, e: ExprView, end: OptionalEnd) -> (
    Result<ExprView, ErrorView>,
    int,
)
    decreases remaining(s, i), 3int,
{
    let (mr, p) = spec_parse_more(s, i, e, end);
    match mr {
        Err(err) => (Err(err), p),
        Ok(pair) => {
            if pair.1 {
                if i < p <= s.len() {
                    spec_parse_expr_loop(s, p, pair.0, end)
                } else {
                    (Ok(pair.0), p)
                }
            } else {
                (Ok(pair.0), p)
            }
        },
    }
}

/// What `parse_expression` returns and where it leaves the cursor: one atom
/// (its absence is the "missing expression" error), then the operator loop.
pub open spec fn spec_parse_expression(s: Seq<u8>, i: int, end: OptionalEnd) -> (
    Result<ExprView, ErrorView>,
    int,
)
    decreases remaining(s, i), 4int,
{
    let (ar, p) = spec_parse_atom(s, i, end);
    match ar {
        Err(e) => (Err(e), p),
        Ok(None) => (
            Err(
                spec_error("missing expression"@, Span { start: p as usize, end: p as usize }),
            ),
            p,
        ),
        Ok(Some(e0)) => spec_parse_expr_loop(s, at_least(p, i), e0, end),
    }
}

/// What `parse_list` returns and where it leaves the cursor, with `acc` the
/// elements parsed so far: elements until `end` matches, each bounded by a
/// comma or, without consuming it, by `end`; empty lists and trailing commas
/// come out of the same loop.
pub open spec fn spec_parse_list(s: Seq<u8>, i: int, end: End, acc: Seq<ExprView>) -> (
    Result<Seq<ExprView>, ErrorView>,
    int,
)
    decreases remaining(s, i), 5int,
{
    let (er, p0) = end.spec_parse(s, i);
    match er {
        Err(e) => (Err(e), p0),
        Ok(true) => (Ok(acc), p0),
        Ok(false) => {
            let element_end = OptionalEnd { end: End::Specific(',' as u8), or_before: Some(end) };
            let (xr, q) = spec_parse_expression(s, at_least(p0, i), element_end);
            match xr {
                Err(e) => (Err(e), q),
                Ok(x) => {
                    if i < q <= s.len() {
                        spec_parse_list(s, q, end, acc.push(x))
                    } else {
                        (Ok(acc.push(x)), q)
                    }
                },
            }
        },
    }
}

/// What `parse_object` returns and where it leaves the cursor, with `keys`
/// and `values` the pairs parsed so far: until `end` matches, an identifier
/// key, a literal `=`, and a value expression bounded by an element end or,
/// without consuming it, by `end`. Keys are recorded as string literals so
/// keys and values share one expression type.
pub open spec fn spec_parse_object(
    s: Seq<u8>,
    i: int,
    end: End,
    keys: Seq<ExprView>,
    values: Seq<ExprView>,
) -> (Result<(Seq<ExprView>, Seq<ExprView>), ErrorView>, int)
    decreases remaining(s, i), 5int,
{
    let (er, p0) = end.spec_parse(s, i);
    match er {
        Err(e) => (Err(e), p0),
        Ok(true) => (Ok((keys, values)), p0),
        Ok(false) => {
            let p = at_least(p0, i);
            let (k, p1) = spec_parse_identifier(s, p);
            match k {
                None => (
                    Err(
                        spec_error(
                            "expected identifier as object key"@,
                            Span { start: p1 as usize, end: p1 as usize },
                        ),
                    ),
                    p1,
                ),
                Some(key_span) => {
                    let p2 = crate::whitespace::spec_skip(s, p1, false);
                    if !(0 <= p2 < s.len() && s[p2] == ('=' as u8)) {
                        (
                            Err(
                                spec_error(
                                    "expected `='"@,
                                    Span { start: p2 as usize, end: p2 as usize },
                                ),
                            ),
                            p2,
                        )
                    } else {
                        let element_end = OptionalEnd {
                            end: End::ElementEnd,
                            or_before: Some(end),
                        };
                        let (vr, q) = spec_parse_expression(s, at_least(p2 + 1, i), element_end);
                        match vr {
                            Err(e) => (Err(e), q),
                            Ok(val) => {
                                let keys2 = keys.push(ExprView::Literal(LitView::Str(key_span)));
                                let values2 = values.push(val);
                                if i < q <= s.len() {
                                    spec_parse_object(s, q, end, keys2, values2)
                                } else {
                                    (Ok((keys2, values2)), q)
                                }
                            },
                        }
                    }
                },
            }
        },
    }
}

/// Maps an atom parse result to views.
pub open spec fn opt_expr_result_view(r: Result<Option<Expression>, Error>) -> Result<
    Option<ExprView>,
    ErrorView,
> {
    match r {
        Ok(Some(e)) => Ok(Some(e@)),
        Ok(None) => Ok(None),
        Err(e) => Err(e@),
    }
}

/// Maps an operator-step result to views.
pub open spec fn more_result_view(r: Result<(Expression, bool), Error>) -> Result<
    (ExprView, bool),
    ErrorView,
> {
    match r {
        Ok(p) => Ok((p.0@, p.1)),
        Err(e) => Err(e@),
    }
}

/// Maps a list parse result to views.
pub open spec fn list_result_view(r: Result<Vec<Expression>, Error>) -> Result<
    Seq<ExprView>,
    ErrorView,
> {
    match r {
        Ok(v) => Ok(exprs_view(v)),
        Err(e) => Err(e@),
    }
}

/// Maps an object parse result to views.
pub open spec fn object_result_view(r: Result<(Vec<Expression>, Vec<Expression>), Error>) -> Result<
    (Seq<ExprView>, Seq<ExprView>),
    ErrorView,
> {
    match r {
        Ok(kv) => Ok((exprs_view(kv.0), exprs_view(kv.1))),
        Err(e) => Err(e@),
    }
}

/// An atom is never an unparenthesized binary node, and it reflects the
/// precedence table along every path: identifiers and literals are leaves, a
/// parenthesized group is exempt by its mark, and a unary prefix wraps an
/// atom again.
pub proof fn lemma_atom_ordered(s: Seq<u8>, i: int, end: OptionalEnd)
    ensures
        spec_parse_atom(s, i, end).0 matches Ok(Some(e)) ==> crate::splice::precedence_ordered(e)
            && crate::splice::bare_binary_op(e) is None,
    decreases remaining(s, i), 1int,
{
    let (er, p0) = end.spec_parse(s, i);
    if er == Ok::<bool, ErrorView>(false) {
        let p = at_least(p0, i);
        if 0 <= p < s.len() && s[p] == ('(' as u8) {
            let open = Span { start: p as usize, end: (p + 1) as usize };
            let inner = OptionalEnd { end: End::MatchingBracket(open, ')' as u8), or_before: None };
            lemma_expression_ordered(s, p + 1, inner);
        } else if 0 <= p < s.len() && spec_unary_op(s[p]) is Some {
            lemma_atom_ordered(s, p + 1, end);
        }
    }
}

/// One operator step keeps the tree precedence-ordered: the right operand is
/// an atom, an identifier or an argument list, and splicing preserves order.
pub proof fn lemma_more_ordered(s: Seq<u8>, i: int, e: ExprView, end: OptionalEnd)
    requires
        crate::splice::precedence_ordered(e),
    ensures
        spec_parse_more(s, i, e, end).0 matches Ok(pair) ==> crate::splice::precedence_ordered(
            pair.0,
        ),
    decreases remaining(s, i), 2int,
{
    let (er, p0) = end.spec_parse(s, i);
    if er == Ok::<bool, ErrorView>(false) {
        let p = at_least(p0, i);
        let (opr, q0) = spec_parse_binary_operator(s, p);
        if let Some(pair) = opr {
            let op_source = pair.0;
            let op = pair.1;
            let q = at_least(q0, i + 1);
            if op == BinaryOperator::Call {
                let (lr, _) = spec_parse_list(
                    s,
                    q,
                    End::MatchingBracket(op_source, ')' as u8),
                    Seq::empty(),
                );
                if let Ok(elems) = lr {
                    crate::splice::lemma_splice_preserves_precedence_order(
                        e,
                        op,
                        op_source,
                        ExprView::Literal(LitView::List(elems)),
                        s,
                    );
                }
            } else if op == BinaryOperator::Index {
                let (lr, _) = spec_parse_list(
                    s,
                    q,
                    End::MatchingBracket(op_source, ']' as u8),
                    Seq::empty(),
                );
                if let Ok(elems) = lr {
                    crate::splice::lemma_splice_preserves_precedence_order(
                        e,
                        op,
                        op_source,
                        ExprView::Literal(LitView::List(elems)),
                        s,
                    );
                }
            } else if op == BinaryOperator::Dot {
                let (id, _) = spec_parse_identifier(s, q);
                if let Some(sp) = id {
                    crate::splice::lemma_splice_preserves_precedence_order(
                        e,
                        op,
                        op_source,
                        ExprView::Identifier(sp),
                        s,
                    );
                }
            } else {
                lemma_atom_ordered(s, q, end);
                let (ar, _) = spec_parse_atom(s, q, end);
                if let Ok(Some(rhs)) = ar {
                    crate::splice::lemma_splice_preserves_precedence_order(
                        e,
                        op,
                        op_source,
                        rhs,
                        s,
                    );
                }
            }
        }
    }
}

/// The operator loop keeps the tree precedence-ordered, step by step.
pub proof fn lemma_expr_loop_ordered(s: Seq<u8>, i: int, e: ExprView, end: OptionalEnd)
    requires
        crate::splice::precedence_ordered(e),
    ensures
        spec_parse_expr_loop(s, i, e, end).0 matches Ok(e2) ==> crate::splice::precedence_ordered(
            e2,
        ),
    decreases remaining(s, i), 3int,
{
    lemma_more_ordered(s, i, e, end);
    let (mr, p) = spec_parse_more(s, i, e, end);
    if let Ok(pair) = mr {
        if pair.1 && i < p <= s.len() {
            lemma_expr_loop_ordered(s, p, pair.0, end);
        }
    }
}

/// At parse completion the tree reflects strict precedence order along every
/// path, subject to the associativity rules, and a parenthesized interior is
/// never crossed: whatever the input, a returned expression is
/// precedence-ordered.
pub proof fn lemma_expression_ordered(s: Seq<u8>, i: int, end: OptionalEnd)
    ensures
        spec_parse_expression(s, i, end).0 matches Ok(e) ==> crate::splice::precedence_ordered(e),
    decreases remaining(s, i), 4int,
{
    lemma_atom_ordered(s, i, end);
    let (ar, p) = spec_parse_atom(s, i, end);
    if let Ok(Some(e0)) = ar {
        lemma_expr_loop_ordered(s, at_least(p, i), e0, end);
    }
}

/// The round-trip law, proved for the identifier record: rendering an
/// identifier node reconstructs exactly its source text, and reparsing that
/// text on its own yields an identifier covering the whole input — the same
/// name. For full operator trees the round trip is exercised by tests.
pub proof fn lemma_round_trip_identifier(s: Seq<u8>, sp: Span)
    requires
        sp.start < sp.end <= s.len(),
        is_identifier_char(s[sp.start as int], true),
        forall|k: int| sp.start < k < sp.end ==> is_identifier_char(s[k], false),
    ensures
        crate::render::spec_reconstruct(ExprView::Identifier(sp), s) == span_chars(s, sp),
        ({
            let t = s.subrange(sp.start as int, sp.end as int);
            let end = OptionalEnd { end: End::EndOfFile, or_before: None };
            let whole = Span { start: 0 as usize, end: (sp.end - sp.start) as usize };
            &&& span_chars(t, whole) == span_chars(s, sp)
            &&& spec_parse_expression(t, 0, end) == (
                Ok::<ExprView, ErrorView>(ExprView::Identifier(whole)),
                sp.end - sp.start,
            )
        }),
{
    let t = s.subrange(sp.start as int, sp.end as int);
    let end = OptionalEnd { end: End::EndOfFile, or_before: None };
    let n = t.len() as int;
    let whole = Span { start: 0 as usize, end: (sp.end - sp.start) as usize };
    assert forall|k: int| 0 <= k < n implies is_identifier_char(t[k], false) by {
        assert(t[k] == s[sp.start + k]);
    }
    // Whitespace skipping does not move inside the text, and the end-of-file
    // delimiter does not match at its start.
    assert(crate::whitespace::ws_end(t, 0, true) == 0);
    assert(crate::whitespace::spec_skip(t, 0, true) == 0);
    assert(end.spec_parse(t, 0) == (Ok::<bool, ErrorView>(false), 0int));
    // The whole text is one identifier token.
    crate::consume::lemma_while_stop(t, 0, CharPred::IdentifierChar);
    assert(while_stop(t, 0, CharPred::IdentifierChar) == n);
    assert(spec_parse_identifier(t, 0) == (Some(whole), n));
    assert(spec_parse_atom(t, 0, end) == (
        Ok::<Option<ExprView>, ErrorView>(Some(ExprView::Identifier(whole))),
        n,
    ));
    // After the identifier only the end of the file remains.
    assert(crate::whitespace::ws_end(t, n, true) == n);
    assert(crate::whitespace::spec_skip(t, n, true) == n);
    assert(end.spec_parse(t, n) == (Ok::<bool, ErrorView>(true), n));
    assert(spec_parse_more(t, n, ExprView::Identifier(whole), end) == (
        Ok::<(ExprView, bool), ErrorView>((ExprView::Identifier(whole), false)),
        n,
    ));
    assert(spec_parse_expr_loop(t, n, ExprView::Identifier(whole), end) == (
        Ok::<ExprView, ErrorView>(ExprView::Identifier(whole)),
        n,
    ));
    // The rendered text is the identifier's own.
    assert(span_chars(t, whole) =~= span_chars(s, sp));
}

fn ident_start(b: u8) -> (r: bool)
    ensures
        r == is_identifier_char(b, true),
{
    (('a' as u8) <= b && b <= ('z' as u8)) || (('A' as u8) <= b && b <= ('Z' as u8)) || b == (
    '_' as u8)
}

impl Parser {
    /// Consumes an identifier (`[A-Za-z_][A-Za-z0-9_]*`), if one starts here;
    /// no whitespace is skipped first.
    pub fn parse_identifier(&mut self) -> (r: Option<Span>)
        ensures
            final(self).source.src@ == old(self).source.src@,
            r == spec_parse_identifier(old(self).source.src@, old(self).source.pos as int).0,
            final(self).source.pos == spec_parse_identifier(
                old(self).source.src@,
                old(self).source.pos as int,
            ).1,
            old(self).source.pos <= final(self).source.pos,
            old(self).source.pos <= old(self).source.src@.len() ==> final(self).source.pos <= final(self).source.src@.len(),
    {
        let start_ok = match self.source.peek() {
            Some(b) => ident_start(b),
            None => false,
        };
        if start_ok {
            proof {
                crate::consume::lemma_while_stop(
                    self.source.src@,
                    self.source.pos as int,
                    CharPred::IdentifierChar,
                );
            }
            Some(self.source.consume_while(CharPred::IdentifierChar))
        } else {
            None
        }
    }

    fn parse_unary_operator(&mut self) -> (r: Option<(Span, UnaryOperator)>)
        ensures
            final(self).source.src@ == old(self).source.src@,
            r == spec_parse_unary_operator(old(self).source.src@, old(self).source.pos as int).0,
            final(self).source.pos == spec_parse_unary_operator(
                old(self).source.src@,
                old(self).source.pos as int,
            ).1,
            old(self).source.pos <= final(self).source.pos,
            old(self).source.pos <= old(self).source.src@.len() ==> final(self).source.pos <= final(self).source.src@.len(),
    {
        let op = match self.source.peek() {
            Some(b) => {
                if b == ('+' as u8) {
                    Some(UnaryOperator::Plus)
                } else if b == ('-' as u8) {
                    Some(UnaryOperator::Minus)
                } else if b == ('~' as u8) {
                    Some(UnaryOperator::Complement)
                } else if b == ('!' as u8) {
                    Some(UnaryOperator::LogicalNot)
                } else {
                    None
                }
            },
            None => None,
        };
        match op {
            Some(op) => Some((self.source.consume_n(1), op)),
            None => None,
        }
    }

    fn parse_binary_operator(&mut self) -> (r: Option<(Span, BinaryOperator)>)
        ensures
            final(self).source.src@ == old(self).source.src@,
            r == spec_parse_binary_operator(old(self).source.src@, old(self).source.pos as int).0,
            final(self).source.pos == spec_parse_binary_operator(
                old(self).source.src@,
                old(self).source.pos as int,
            ).1,
            old(self).source.pos <= final(self).source.pos,
            old(self).source.pos <= old(self).source.src@.len() ==> final(self).source.pos <= final(self).source.src@.len(),
    {
        if self.source.pos < self.source.src.len() && self.source.src.len() - self.source.pos >= 2 {
            let a = self.source.src[self.source.pos];
            let b = self.source.src[self.source.pos + 1];
            let op2 = if a == ('*' as u8) && b == ('*' as u8) {
                Some(BinaryOperator::Power)
            } else if a == ('<' as u8) && b == ('=' as u8) {
                Some(BinaryOperator::LessOrEqual)
            } else if a == ('<' as u8) && b == ('<' as u8) {
                Some(BinaryOperator::LeftShift)
            } else if a == ('>' as u8) && b == ('=' as u8) {
                Some(BinaryOperator::GreaterOrEqual)
            } else if a == ('>' as u8) && b == ('>' as u8) {
                Some(BinaryOperator::RightShift)
            } else if a == ('=' as u8) && b == ('=' as u8) {
                Some(BinaryOperator::Equal)
            } else if a == ('!' as u8) && b == ('=' as u8) {
                Some(BinaryOperator::Inequal)
            } else if a == ('&' as u8) && b == ('&' as u8) {
                Some(BinaryOperator::LogicalAnd)
            } else if a == ('|' as u8) && b == ('|' as u8) {
                Some(BinaryOperator::LogicalOr)
            } else {
                None
            };
            if let Some(op) = op2 {
                return Some((self.source.consume_n(2), op));
            }
        }
        let op1 = match self.source.peek() {
            Some(b) => {
                if b == ('.' as u8) {
                    Some(BinaryOperator::Dot)
                } else if b == ('[' as u8) {
                    Some(BinaryOperator::Index)
                } else if b == ('(' as u8) {
                    Some(BinaryOperator::Call)
                } else if b == (':' as u8) {
                    Some(BinaryOperator::Colon)
                } else if b == ('*' as u8) {
                    Some(BinaryOperator::Times)
                } else if b == ('/' as u8) {
                    Some(BinaryOperator::Divide)
                } else if b == ('%' as u8) {
                    Some(BinaryOperator::Modulo)
                } else if b == ('+' as u8) {
                    Some(BinaryOperator::Plus)
                } else if b == ('-' as u8) {
                    Some(BinaryOperator::Minus)
                } else if b == ('<' as u8) {
                    Some(BinaryOperator::Less)
                } else if b == ('>' as u8) {
                    Some(BinaryOperator::Greater)
                } else if b == ('&' as u8) {
                    Some(BinaryOperator::BitAnd)
                } else if b == ('^' as u8) {
                    Some(BinaryOperator::BitXor)
                } else if b == ('|' as u8) {
                    Some(BinaryOperator::BitOr)
                } else {
                    None
                }
            },
            None => None,
        };
        match op1 {
            Some(op) => Some((self.source.consume_n(1), op)),
            None => None,
        }
    }

    fn parse_number(&mut self) -> (r: Result<Option<Literal>, Error>)
        ensures
            final(self).source.src@ == old(self).source.src@,
            number_result_view(r) == spec_parse_number(
                old(self).source.src@,
                old(self).source.pos as int,
            ).0,
            final(self).source.pos == spec_parse_number(
                old(self).source.src@,
                old(self).source.pos as int,
            ).1,
            old(self).source.pos <= final(self).source.pos,
            old(self).source.pos <= old(self).source.src@.len() ==> final(self).source.pos <= final(self).source.src@.len(),
            (r matches Ok(Some(_)) && old(self).source.pos <= old(self).source.src@.len())
                ==> old(self).source.pos < final(self).source.pos <= final(self).source.src@.len(),
    {
        let ghost s = self.source.src@;
        let ghost i = self.source.pos as int;
        let start_pos = self.source.pos;

        let first_is_dot = self.source.pos < self.source.src.len() && self.source.src[self.source.pos]
            == ('.' as u8);
        let k = if first_is_dot {
            self.source.pos + 1
        } else {
            self.source.pos
        };
        let starts = k < self.source.src.len() && is_digit(self.source.src[k], 10);
        if !starts {
            return Ok(None);
        }
        let base: u32 = if self.source.pos < self.source.src.len() && self.source.src.len()
            - self.source.pos >= 2 && self.source.src[self.source.pos] == ('0' as u8) {
            let second = self.source.src[self.source.pos + 1];
            if second == ('x' as u8) || second == ('X' as u8) {
                self.source.consume_n(2);
                16
            } else if second == ('o' as u8) || second == ('O' as u8) {
                self.source.consume_n(2);
                8
            } else if second == ('b' as u8) || second == ('B' as u8) {
                self.source.consume_n(2);
                2
            } else {
                10
            }
        } else {
            10
        };
        let integer_part = self.source.consume_while(CharPred::Digit(base));
        proof {
            crate::consume::lemma_while_stop(s, integer_part.start as int, CharPred::Digit(base));
        }

        let mut has_frac = false;
        if self.source.consume_byte('.' as u8).is_some() {
            has_frac = true;
            self.source.consume_while(CharPred::Digit(base));
        }

        let mut has_exp = false;
        let marker = match self.source.peek() {
            Some(b) => if base == 16 {
                b == ('p' as u8) || b == ('P' as u8)
            } else {
                b == ('e' as u8) || b == ('E' as u8)
            },
            None => false,
        };
        if marker {
            has_exp = true;
            self.source.consume_n(1);
            match self.source.peek() {
                Some(b) => {
                    if b == ('+' as u8) || b == ('-' as u8) {
                        self.source.consume_n(1);
                    }
                },
                None => {},
            }
            self.source.consume_while(CharPred::Digit(base));
        }

        if has_exp || has_frac {
            return Err(
                error(
                    Span { start: start_pos, end: self.source.pos },
                    String::from_str("floating point literals are not supported"),
                ),
            );
        }
        if integer_part.start == integer_part.end {
            return Err(error(integer_part, String::from_str("missing digits")));
        }
        match u64_from_digits(&self.source.src, integer_part, base) {
            Some(v) => Ok(Some(Literal::Integer(v))),
            None => Err(error(integer_part, String::from_str("integer too large"))),
        }
    }

    fn parse_expression_atom(&mut self, end: &OptionalEnd) -> (r: Result<Option<Expression>, Error>)
        ensures
            final(self).source.src@ == old(self).source.src@,
            opt_expr_result_view(r) == spec_parse_atom(
                old(self).source.src@,
                old(self).source.pos as int,
                *end,
            ).0,
            final(self).source.pos == spec_parse_atom(
                old(self).source.src@,
                old(self).source.pos as int,
                *end,
            ).1,
            old(self).source.pos <= final(self).source.pos,
            old(self).source.pos <= old(self).source.src@.len() ==> final(self).source.pos <= final(self).source.src@.len(),
            r matches Ok(Some(_)) ==> old(self).source.pos < final(self).source.pos <= final(self).source.src@.len(),
        decreases remaining(self.source.src@, self.source.pos as int), 1int,
    {
        let ghost s = self.source.src@;
        let ghost i = self.source.pos as int;
        match end.parse(&mut self.source) {
            Err(e) => {
                return Err(e);
            },
            Ok(true) => {
                return Ok(None);
            },
            Ok(false) => {},
        }
        proof {
            assert(self.source.pos < self.source.src@.len());
        }
        let b = self.source.src[self.source.pos];
        if b == ('(' as u8) {
            let open = self.source.consume_n(1);
            let inner = End::MatchingBracket(open, ')' as u8).as_optional();
            match self.parse_expression(&inner) {
                Err(e) => Err(e),
                Ok(expr) => {
                    let marked = match expr {
                        Expression::Op { op_source, op, parenthesized: _ } => Expression::Op {
                            op_source,
                            op,
                            parenthesized: true,
                        },
                        other => other,
                    };
                    Ok(Some(marked))
                },
            }
        } else if let Some((op_source, op)) = self.parse_unary_operator() {
            match self.parse_expression_atom(end) {
                Err(e) => Err(e),
                Ok(None) => {
                    let mut msg = String::from_str("missing expression after unary `");
                    let op_text = crate::text::span_to_string(&self.source.src, op_source);
                    msg.append(op_text.as_str());
                    msg.append("' operator");
                    Err(error(Span::at(self.source.pos), msg))
                },
                Ok(Some(sub)) => Ok(
                    Some(
                        Expression::Op {
                            op_source,
                            op: crate::expression::Op::UnaryOp { op, rhs: Box::new(sub) },
                            parenthesized: false,
                        },
                    ),
                ),
            }
        } else if let Some(id) = self.parse_identifier() {
            proof {
                crate::consume::lemma_while_stop(s, self.source.pos as int, CharPred::IdentifierChar);
            }
            Ok(Some(Expression::Identifier(id)))
        } else if b == ('"' as u8) {
            Err(
                error(
                    Span::at(self.source.pos),
                    String::from_str("string literals are not supported"),
                ),
            )
        } else if b == ('{' as u8) {
            let open = self.source.consume_n(1);
            match self.parse_object(&End::MatchingBracket(open, '}' as u8)) {
                Err(e) => Err(e),
                Ok(kv) => Ok(Some(Expression::Literal(Literal::Object(kv.0, kv.1)))),
            }
        } else if b == ('[' as u8) {
            let open = self.source.consume_n(1);
            match self.parse_list(&End::MatchingBracket(open, ']' as u8)) {
                Err(e) => Err(e),
                Ok(elems) => Ok(Some(Expression::Literal(Literal::List(elems)))),
            }
        } else {
            match self.parse_number() {
                Err(e) => Err(e),
                Ok(Some(lit)) => Ok(Some(Expression::Literal(lit))),
                Ok(None) => {
                    if b == ('\\' as u8) {
                        Err(
                            error(
                                Span::at(self.source.pos),
                                String::from_str("lambdas are not supported"),
                            ),
                        )
                    } else {
                        Ok(None)
                    }
                },
            }
        }
    }

    fn parse_more_expression(&mut self, expr: Expression, end: &OptionalEnd) -> (r: Result<
        (Expression, bool),
        Error,
    >)
        ensures
            final(self).source.src@ == old(self).source.src@,
            more_result_view(r) == spec_parse_more(
                old(self).source.src@,
                old(self).source.pos as int,
                expr@,
                *end,
            ).0,
            final(self).source.pos == spec_parse_more(
                old(self).source.src@,
                old(self).source.pos as int,
                expr@,
                *end,
            ).1,
            old(self).source.pos <= final(self).source.pos,
            old(self).source.pos <= old(self).source.src@.len() ==> final(self).source.pos <= final(self).source.src@.len(),
            r matches Ok((_, true)) ==> old(self).source.pos < final(self).source.pos <= final(self).source.src@.len(),
        decreases remaining(self.source.src@, self.source.pos as int), 2int,
    {
        let ghost s = self.source.src@;
        let ghost i = self.source.pos as int;
        match end.parse(&mut self.source) {
            Err(e) => {
                return Err(e);
            },
            Ok(true) => {
                return Ok((expr, false));
            },
            Ok(false) => {},
        }
        let (op_source, op) = match self.parse_binary_operator() {
            Some(x) => x,
            None => {
                let mut msg = String::from_str("expected binary operator or ");
                let d = end.description();
                msg.append(d.as_str());
                return Err(error(Span::at(self.source.pos), msg));
            },
        };
        let rhs: Expression = match op {
            BinaryOperator::Call => {
                match self.parse_list(&End::MatchingBracket(op_source, ')' as u8)) {
                    Err(e) => {
                        return Err(e);
                    },
                    Ok(elems) => Expression::Literal(Literal::List(elems)),
                }
            },
            BinaryOperator::Index => {
                match self.parse_list(&End::MatchingBracket(op_source, ']' as u8)) {
                    Err(e) => {
                        return Err(e);
                    },
                    Ok(elems) => Expression::Literal(Literal::List(elems)),
                }
            },
            BinaryOperator::Dot => {
                match self.parse_identifier() {
                    Some(id) => Expression::Identifier(id),
                    None => {
                        return Err(
                            error(
                                Span::at(self.source.pos),
                                String::from_str("expected identifier after `.'"),
                            ),
                        );
                    },
                }
            },
            _ => {
                match self.parse_expression_atom(end) {
                    Err(e) => {
                        return Err(e);
                    },
                    Ok(Some(x)) => x,
                    Ok(None) => {
                        let mut msg = String::from_str(
                            "expected expression after binary operator `",
                        );
                        let op_text = crate::text::span_to_string(&self.source.src, op_source);
                        msg.append(op_text.as_str());
                        msg.append("'");
                        return Err(error(Span::at(self.source.pos), msg));
                    },
                }
            },
        };
        match crate::splice::splice_binary_op(expr, op, op_source, rhs, &self.source.src) {
            Err(e) => Err(e),
            Ok(e2) => Ok((e2, true)),
        }
    }

    /// Parses one whole expression, bounded by `end`; the cursor is left past
    /// the consumed text and the matched end. A returned expression reflects
    /// the precedence table along every path: see `lemma_expression_ordered`.
    pub fn parse_expression(&mut self, end: &OptionalEnd) -> (r: Result<Expression, Error>)
        ensures
            final(self).source.src@ == old(self).source.src@,
            crate::splice::expr_result_view(r) == spec_parse_expression(
                old(self).source.src@,
                old(self).source.pos as int,
                *end,
            ).0,
            final(self).source.pos == spec_parse_expression(
                old(self).source.src@,
                old(self).source.pos as int,
                *end,
            ).1,
            old(self).source.pos <= final(self).source.pos,
            old(self).source.pos <= old(self).source.src@.len() ==> final(self).source.pos <= final(self).source.src@.len(),
            r is Ok ==> old(self).source.pos < final(self).source.pos <= final(self).source.src@.len(),
        decreases remaining(self.source.src@, self.source.pos as int), 4int,
    {
        let ghost s = self.source.src@;
        let ghost i = self.source.pos as int;
        let atom = match self.parse_expression_atom(end) {
            Err(e) => {
                return Err(e);
            },
            Ok(a) => a,
        };
        let mut expr = match atom {
            None => {
                return Err(
                    error(Span::at(self.source.pos), String::from_str("missing expression")),
                );
            },
            Some(e) => e,
        };
        loop
            invariant
                self.source.src@ == s,
                s == old(self).source.src@,
                i == old(self).source.pos,
                i < self.source.pos <= s.len(),
                spec_parse_expression(s, i, *end) == spec_parse_expr_loop(
                    s,
                    self.source.pos as int,
                    expr@,
                    *end,
                ),
            decreases s.len() - self.source.pos,
        {
            match self.parse_more_expression(expr, end) {
                Err(e) => {
                    return Err(e);
                },
                Ok(step) => {
                    let more = step.1;
                    expr = step.0;
                    if !more {
                        return Ok(expr);
                    }
                },
            }
        }
    }

    /// Parses comma-separated expressions until `end` matches; empty lists
    /// and trailing commas are both permitted.
    pub fn parse_list(&mut self, end: &End) -> (r: Result<Vec<Expression>, Error>)
        ensures
            final(self).source.src@ == old(self).source.src@,
            list_result_view(r) == spec_parse_list(
                old(self).source.src@,
                old(self).source.pos as int,
                *end,
                Seq::empty(),
            ).0,
            final(self).source.pos == spec_parse_list(
                old(self).source.src@,
                old(self).source.pos as int,
                *end,
                Seq::empty(),
            ).1,
            old(self).source.pos <= final(self).source.pos,
            old(self).source.pos <= old(self).source.src@.len() ==> final(self).source.pos <= final(self).source.src@.len(),
        decreases remaining(self.source.src@, self.source.pos as int), 5int,
    {
        let ghost s = self.source.src@;
        let ghost i = self.source.pos as int;
        let mut elements: Vec<Expression> = Vec::new();
        let element_end = End::Specific(',' as u8).or_before(*end);
        proof {
            crate::expression::lemma_exprs_view_empty(elements);
        }
        loop
            invariant
                self.source.src@ == s,
                s == old(self).source.src@,
                i == old(self).source.pos,
                i <= self.source.pos,
                i <= s.len() ==> self.source.pos <= s.len(),
                element_end == (OptionalEnd {
                    end: End::Specific(',' as u8),
                    or_before: Some(*end),
                }),
                spec_parse_list(s, i, *end, Seq::empty()) == spec_parse_list(
                    s,
                    self.source.pos as int,
                    *end,
                    exprs_view(elements),
                ),
            decreases s.len() - self.source.pos,
        {
            match end.parse(&mut self.source) {
                Err(e) => {
                    return Err(e);
                },
                Ok(true) => {
                    return Ok(elements);
                },
                Ok(false) => {},
            }
            match self.parse_expression(&element_end) {
                Err(e) => {
                    return Err(e);
                },
                Ok(x) => {
                    let ghost before = elements;
                    elements.push(x);
                    proof {
                        crate::expression::lemma_exprs_view_push(before, x, elements);
                    }
                },
            }
        }
    }

    /// Parses `key = value` pairs until `end` matches, each value bounded by
    /// a comma, semicolon or newline; returns the parallel key and value
    /// sequences.
    pub fn parse_object(&mut self, end: &End) -> (r: Result<
        (Vec<Expression>, Vec<Expression>),
        Error,
    >)
        ensures
            final(self).source.src@ == old(self).source.src@,
            object_result_view(r) == spec_parse_object(
                old(self).source.src@,
                old(self).source.pos as int,
                *end,
                Seq::empty(),
                Seq::empty(),
            ).0,
            final(self).source.pos == spec_parse_object(
                old(self).source.src@,
                old(self).source.pos as int,
                *end,
                Seq::empty(),
                Seq::empty(),
            ).1,
            old(self).source.pos <= final(self).source.pos,
            old(self).source.pos <= old(self).source.src@.len() ==> final(self).source.pos <= final(self).source.src@.len(),
        decreases remaining(self.source.src@, self.source.pos as int), 5int,
    {
        let ghost s = self.source.src@;
        let ghost i = self.source.pos as int;
        let mut keys: Vec<Expression> = Vec::new();
        let mut values: Vec<Expression> = Vec::new();
        let element_end = End::ElementEnd.or_before(*end);
        proof {
            crate::expression::lemma_exprs_view_empty(keys);
            crate::expression::lemma_exprs_view_empty(values);
        }
        loop
            invariant
                self.source.src@ == s,
                s == old(self).source.src@,
                i == old(self).source.pos,
                i <= self.source.pos,
                i <= s.len() ==> self.source.pos <= s.len(),
                element_end == (OptionalEnd { end: End::ElementEnd, or_before: Some(*end) }),
                spec_parse_object(s, i, *end, Seq::empty(), Seq::empty()) == spec_parse_object(
                    s,
                    self.source.pos as int,
                    *end,
                    exprs_view(keys),
                    exprs_view(values),
                ),
            decreases s.len() - self.source.pos,
        {
            match end.parse(&mut self.source) {
                Err(e) => {
                    return Err(e);
                },
                Ok(true) => {
                    return Ok((keys, values));
                },
                Ok(false) => {},
            }
            let key = match self.parse_identifier() {
                Some(k) => k,
                None => {
                    return Err(
                        error(
                            Span::at(self.source.pos),
                            String::from_str("expected identifier as object key"),
                        ),
                    );
                },
            };
            crate::whitespace::skip_whitespace(&mut self.source, false);
            if self.source.consume_byte('=' as u8).is_none() {
                return Err(error(Span::at(self.source.pos), String::from_str("expected `='")));
            }
            let value = match self.parse_expression(&element_end) {
                Err(e) => {
                    return Err(e);
                },
                Ok(v) => v,
            };
            let ghost keys_before = keys;
            let ghost values_before = values;
            keys.push(Expression::Literal(Literal::Str(key)));
            values.push(value);
            proof {
                crate::expression::lemma_exprs_view_push(
                    keys_before,
                    Expression::Literal(Literal::Str(key)),
                    keys,
                );
                crate::expression::lemma_exprs_view_push(values_before, value, values);
            }
        }
    }
}

} // verus!

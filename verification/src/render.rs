use vstd::prelude::*;

use crate::expression::{ExprView, Expression, LitView, Literal, Op, OpView, exprs_view};
use crate::text::{push_char, span_chars, span_to_string};

verus! {

broadcast use vstd::std_specs::vec::axiom_vec_index_decreases;

/// The decimal spelling of an unsigned integer.
pub open spec fn spec_dec_digits(n: nat) -> Seq<char>
    decreases n,
{
    if n < 10 {
        seq![(((n + 48) as u8) as char)]
    } else {
        spec_dec_digits(n / 10).push((((n % 10 + 48) as u8) as char))
    }
}

pub fn u64_to_string(n: u64) -> (r: String)
    ensures
        r@ == spec_dec_digits(n as nat),
    decreases n,
{
    if n < 10 {
        let mut s = String::new();
        push_char(&mut s, ((n as u8) + 48) as char);
        proof {
            assert(s@ =~= spec_dec_digits(n as nat));
        }
        s
    } else {
        let mut s = u64_to_string(n / 10);
        push_char(&mut s, (((n % 10) as u8) + 48) as char);
        s
    }
}

/// The infix source text an expression reconstructs to: original operator
/// spellings, explicit parentheses only where the tree is marked
/// parenthesized, list and object literals in a readable call-like form.
pub open spec fn spec_reconstruct(e: ExprView, s: Seq<u8>) -> Seq<char>
    decreases e,
{
    match e {
        ExprView::Identifier(sp) => span_chars(s, sp),
        ExprView::Op { op_source, op, parenthesized } => {
            let body = match op {
                OpView::UnaryOp { rhs, .. } => span_chars(s, op_source) + spec_reconstruct(
                    *rhs,
                    s,
                ),
                OpView::BinaryOp { rhs, lhs, .. } => spec_reconstruct(*lhs, s) + " "@ + span_chars(
                    s,
                    op_source,
                ) + " "@ + spec_reconstruct(*rhs, s),
            };
            if parenthesized {
                "("@ + body + ")"@
            } else {
                body
            }
        },
        ExprView::Literal(l) => spec_reconstruct_lit(l, s),
    }
}

pub open spec fn spec_reconstruct_lit(l: LitView, s: Seq<u8>) -> Seq<char>
    decreases l,
{
    match l {
        LitView::List(elems) => "list("@ + spec_reconstruct_items(elems, s) + ")"@,
        LitView::Object(ks, vs) => "object("@ + join_pairs(
            spec_reconstruct_each(ks, s),
            spec_reconstruct_each(vs, s),
            vstd::math::min(ks.len() as int, vs.len() as int),
        ) + ")"@,
        _ => "<some literal>"@,
    }
}

/// The reconstruction of each element, element for element; the closure
/// guards its index, and the out-of-bounds branch never shows.
pub open spec fn spec_reconstruct_each(elems: Seq<ExprView>, s: Seq<u8>) -> Seq<Seq<char>>
    decreases elems, 0int,
{
    Seq::new(
        elems.len(),
        |j: int|
            if 0 <= j < elems.len() {
                spec_reconstruct(elems[j], s)
            } else {
                Seq::empty()
            },
    )
}

/// Joins the first `n` key and value texts as `key = value` pairs, separated
/// by commas.
pub open spec fn join_pairs(kt: Seq<Seq<char>>, vt: Seq<Seq<char>>, n: int) -> Seq<char>
    decreases n,
{
    if n <= 0 || n > kt.len() || n > vt.len() {
        Seq::empty()
    } else {
        let pair = kt[n - 1] + " = "@ + vt[n - 1];
        if n == 1 {
            pair
        } else {
            join_pairs(kt, vt, n - 1) + ", "@ + pair
        }
    }
}

pub open spec fn spec_reconstruct_items(elems: Seq<ExprView>, s: Seq<u8>) -> Seq<char>
    decreases elems, 0int,
{
    if elems.len() == 0 {
        Seq::empty()
    } else if elems.len() == 1 {
        spec_reconstruct(elems[0], s)
    } else {
        spec_reconstruct_items(elems.drop_last(), s) + ", "@ + spec_reconstruct(elems.last(), s)
    }
}

/// Reconstructs infix source text from a parsed tree; reparsing the result
/// yields a structurally identical tree for operator expressions.
pub fn reconstruct(e: &Expression, src: &Vec<u8>) -> (r: String)
    ensures
        r@ == spec_reconstruct(e@, src@),
    decreases *e,
{
    match e {
        Expression::Identifier(sp) => span_to_string(src, *sp),
        Expression::Op { op_source, op, parenthesized } => {
            let body = match op {
                Op::UnaryOp { rhs, .. } => {
                    let mut t = span_to_string(src, *op_source);
                    let sub = reconstruct(rhs, src);
                    t.append(sub.as_str());
                    t
                },
                Op::BinaryOp { rhs, lhs, .. } => {
                    let mut t = reconstruct(lhs, src);
                    t.append(" ");
                    let op_text = span_to_string(src, *op_source);
                    t.append(op_text.as_str());
                    t.append(" ");
                    let sub = reconstruct(rhs, src);
                    t.append(sub.as_str());
                    t
                },
            };
            if *parenthesized {
                let mut w = String::from_str("(");
                w.append(body.as_str());
                w.append(")");
                w
            } else {
                body
            }
        },
        Expression::Literal(l) => reconstruct_literal(l, src),
    }
}

fn reconstruct_literal(l: &Literal, src: &Vec<u8>) -> (r: String)
    ensures
        r@ == spec_reconstruct_lit(l@, src@),
    decreases *l,
{
    match l {
        Literal::List(elems) => {
            let mut t = String::from_str("list(");
            let items = reconstruct_items(elems, src);
            t.append(items.as_str());
            t.append(")");
            t
        },
        Literal::Object(ks, vs) => {
            let kt = reconstruct_each(ks, src);
            let vt = reconstruct_each(vs, src);
            let n = if ks.len() < vs.len() {
                ks.len()
            } else {
                vs.len()
            };
            let mut t = String::from_str("object(");
            let mut k: usize = 0;
            while k < n
                invariant
                    0 <= k <= n,
                    n == vstd::math::min(ks@.len() as int, vs@.len() as int),
                    kt@.len() == ks@.len(),
                    vt@.len() == vs@.len(),
                    forall|j: int|
                        0 <= j < ks@.len() ==> kt@[j]@ == spec_reconstruct_each(
                            exprs_view(*ks),
                            src@,
                        )[j],
                    forall|j: int|
                        0 <= j < vs@.len() ==> vt@[j]@ == spec_reconstruct_each(
                            exprs_view(*vs),
                            src@,
                        )[j],
                    t@ == "object("@ + join_pairs(
                        spec_reconstruct_each(exprs_view(*ks), src@),
                        spec_reconstruct_each(exprs_view(*vs), src@),
                        k as int,
                    ),
                decreases n - k,
            {
                if k > 0 {
                    t.append(", ");
                }
                t.append(kt[k].as_str());
                t.append(" = ");
                t.append(vt[k].as_str());
                k = k + 1;
            }
            t.append(")");
            t
        },
        _ => String::from_str("<some literal>"),
    }
}

/// Reconstructs each element on its own; the pieces line up with
/// `spec_reconstruct_each` of the vector's view.
fn reconstruct_each(elems: &Vec<Expression>, src: &Vec<u8>) -> (r: Vec<String>)
    ensures
        r@.len() == elems@.len(),
        forall|j: int|
            0 <= j < elems@.len() ==> r@[j]@ == spec_reconstruct_each(exprs_view(*elems), src@)[j],
    decreases *elems, 0int,
{
    let mut r: Vec<String> = Vec::new();
    let mut k: usize = 0;
    while k < elems.len()
        invariant
            0 <= k <= elems@.len(),
            r@.len() == k,
            forall|j: int|
                0 <= j < k ==> r@[j]@ == spec_reconstruct_each(exprs_view(*elems), src@)[j],
        decreases elems@.len() - k,
    {
        let item = reconstruct(&elems[k], src);
        r.push(item);
        k = k + 1;
    }
    r
}

fn reconstruct_items(elems: &Vec<Expression>, src: &Vec<u8>) -> (r: String)
    ensures
        r@ == spec_reconstruct_items(exprs_view(*elems), src@),
    decreases *elems, 0int,
{
    let mut t = String::new();
    let mut k: usize = 0;
    while k < elems.len()
        invariant
            0 <= k <= elems@.len(),
            t@ == spec_reconstruct_items(exprs_view(*elems).subrange(0, k as int), src@),
        decreases elems@.len() - k,
    {
        if k > 0 {
            t.append(", ");
        }
        let item = reconstruct(&elems[k], src);
        t.append(item.as_str());
        k = k + 1;
        proof {
            let whole = exprs_view(*elems);
            assert(whole.subrange(0, k as int).drop_last() =~= whole.subrange(0, k - 1));
            assert(whole.subrange(0, k as int).last() == whole[k - 1]);
        }
    }
    proof {
        assert(exprs_view(*elems).subrange(0, elems@.len() as int) =~= exprs_view(*elems));
    }
    t
}

/// The structural rendering of an expression: every node spelled out, so two
/// renderings are equal exactly when the trees have one shape and spelling.
pub open spec fn spec_format(e: ExprView, s: Seq<u8>) -> Seq<char>
    decreases e,
{
    match e {
        ExprView::Identifier(sp) => "id:"@ + span_chars(s, sp),
        ExprView::Op { op_source, op, parenthesized } => match op {
            OpView::UnaryOp { rhs, .. } => "(op"@ + span_chars(s, op_source) + " "@ + spec_format(
                *rhs,
                s,
            ) + ")"@,
            OpView::BinaryOp { rhs, lhs, .. } => "(op"@ + span_chars(s, op_source) + " "@
                + spec_format(*lhs, s) + " "@ + spec_format(*rhs, s) + ")"@,
        },
        ExprView::Literal(l) => spec_format_lit(l, s),
    }
}

pub open spec fn spec_format_lit(l: LitView, s: Seq<u8>) -> Seq<char>
    decreases l,
{
    match l {
        LitView::Integer(i) => "int:"@ + spec_dec_digits(i as nat),
        LitView::Str(sp) => "str:\""@ + span_chars(s, sp) + "\""@,
        LitView::List(elems) => spec_format_list(elems, s),
        LitView::Object(ks, vs) => "(object keys="@ + spec_format_list(ks, s) + " values="@
            + spec_format_list(vs, s) + ")"@,
    }
}

pub open spec fn spec_format_list(elems: Seq<ExprView>, s: Seq<u8>) -> Seq<char>
    decreases elems, 1int,
{
    "(list"@ + spec_format_items(elems, s) + ")"@
}

pub open spec fn spec_format_items(elems: Seq<ExprView>, s: Seq<u8>) -> Seq<char>
    decreases elems, 0int,
{
    if elems.len() == 0 {
        Seq::empty()
    } else {
        spec_format_items(elems.drop_last(), s) + " "@ + spec_format(elems.last(), s)
    }
}

/// Renders an expression structurally, one line, every node explicit.
pub fn format(e: &Expression, src: &Vec<u8>) -> (r: String)
    ensures
        r@ == spec_format(e@, src@),
    decreases *e,
{
    match e {
        Expression::Identifier(sp) => {
            let mut t = String::from_str("id:");
            let name = span_to_string(src, *sp);
            t.append(name.as_str());
            t
        },
        Expression::Op { op_source, op, parenthesized: _ } => {
            let mut t = String::from_str("(op");
            let op_text = span_to_string(src, *op_source);
            t.append(op_text.as_str());
            t.append(" ");
            match op {
                Op::UnaryOp { rhs, .. } => {
                    let sub = format(rhs, src);
                    t.append(sub.as_str());
                },
                Op::BinaryOp { rhs, lhs, .. } => {
                    let left = format(lhs, src);
                    t.append(left.as_str());
                    t.append(" ");
                    let right = format(rhs, src);
                    t.append(right.as_str());
                },
            }
            t.append(")");
            t
        },
        Expression::Literal(l) => format_literal(l, src),
    }
}

fn format_literal(l: &Literal, src: &Vec<u8>) -> (r: String)
    ensures
        r@ == spec_format_lit(l@, src@),
    decreases *l,
{
    match l {
        Literal::Integer(i) => {
            let mut t = String::from_str("int:");
            let digits = u64_to_string(*i);
            t.append(digits.as_str());
            t
        },
        Literal::Str(sp) => {
            let mut t = String::from_str("str:\"");
            let text = span_to_string(src, *sp);
            t.append(text.as_str());
            t.append("\"");
            t
        },
        Literal::List(elems) => format_list(elems, src),
        Literal::Object(ks, vs) => {
            let mut t = String::from_str("(object keys=");
            let keys = format_list(ks, src);
            t.append(keys.as_str());
            t.append(" values=");
            let values = format_list(vs, src);
            t.append(values.as_str());
            t.append(")");
            t
        },
    }
}

/// Renders a vector of expressions as a `(list ...)` form.
pub fn format_list(elems: &Vec<Expression>, src: &Vec<u8>) -> (r: String)
    ensures
        r@ == spec_format_list(exprs_view(*elems), src@),
    decreases *elems, 1int,
{
    let mut t = String::from_str("(list");
    let mut k: usize = 0;
    while k < elems.len()
        invariant
            0 <= k <= elems@.len(),
            t@ == "(list"@ + spec_format_items(exprs_view(*elems).subrange(0, k as int), src@),
        decreases elems@.len() - k,
    {
        t.append(" ");
        let item = format(&elems[k], src);
        t.append(item.as_str());
        k = k + 1;
        proof {
            let whole = exprs_view(*elems);
            assert(whole.subrange(0, k as int).drop_last() =~= whole.subrange(0, k - 1));
            assert(whole.subrange(0, k as int).last() == whole[k - 1]);
        }
    }
    proof {
        assert(exprs_view(*elems).subrange(0, elems@.len() as int) =~= exprs_view(*elems));
    }
    t.append(")");
    t
}

} // verus!

use vstd::prelude::*;

use crate::error::{Error, ErrorView, Message, MessageView, error};
use crate::expression::{ExprView, Expression, Op, OpView};
use crate::operator::{BinaryOperator, Operator, Order, higher_precedence, spec_higher_precedence};
use crate::span::Span;
use crate::text::{span_chars, span_to_string};

verus! {

/// Maps a `Result` of an expression or an error to views.
pub open spec fn expr_result_view(r: Result<Expression, Error>) -> Result<ExprView, ErrorView> {
    match r {
        Ok(e) => Ok(e@),
        Err(e) => Err(e@),
    }
}

/// The diagnostic for two conflicting non-associative operators: the primary
/// message sits at the new operator, a note at the earlier one, and both
/// spellings are cited (a self-conflict when the very same operator repeats).
pub open spec fn spec_conflict_error(
    s: Seq<u8>,
    left_op: Operator,
    left_op_source: Span,
    op: BinaryOperator,
    op_source: Span,
) -> ErrorView {
    ErrorView {
        message: MessageView {
            message: if Operator::Binary(op) == left_op {
                "operator `"@ + span_chars(s, op_source) + "' is non-associative"@
            } else {
                "operator `"@ + span_chars(s, op_source) + "' has equal precedence as `"@
                    + span_chars(s, left_op_source) + "' and is non-associative"@
            },
            location: Some(op_source),
        },
        notes: seq![
            MessageView {
                message: "conflicting `"@ + span_chars(s, left_op_source) + "' here"@,
                location: Some(left_op_source),
            },
        ],
    }
}

/// Whether the operator already in the tree keeps the new binary operator's
/// left side (`Ok(true)`), ends up inside it (`Ok(false)`), or conflicts with
/// it because the two share a non-associative precedence class.
pub open spec fn spec_is_lhs(
    left_op: Operator,
    left_op_source: Span,
    op: BinaryOperator,
    op_source: Span,
    s: Seq<u8>,
) -> Result<bool, ErrorView> {
    match spec_higher_precedence(left_op, Operator::Binary(op)) {
        Order::Left => Ok(true),
        Order::Right => Ok(false),
        Order::Unordered => Err(spec_conflict_error(s, left_op, left_op_source, op, op_source)),
    }
}

pub fn is_lhs(
    left_op: Operator,
    left_op_source: Span,
    op: BinaryOperator,
    op_source: Span,
    src: &Vec<u8>,
) -> (r: Result<bool, Error>)
    ensures
        crate::end::result_view(r) == spec_is_lhs(left_op, left_op_source, op, op_source, src@),
{
    match higher_precedence(left_op, Operator::Binary(op)) {
        Order::Left => Ok(true),
        Order::Right => Ok(false),
        Order::Unordered => {
            let mut msg = String::from_str("operator `");
            let op_text = span_to_string(src, op_source);
            msg.append(op_text.as_str());
            if Operator::Binary(op) == left_op {
                msg.append("' is non-associative");
            } else {
                msg.append("' has equal precedence as `");
                let left_text = span_to_string(src, left_op_source);
                msg.append(left_text.as_str());
                msg.append("' and is non-associative");
            }
            let mut e = error(op_source, msg);
            let mut note = String::from_str("conflicting `");
            let left_text = span_to_string(src, left_op_source);
            note.append(left_text.as_str());
            note.append("' here");
            e.notes.push(Message { message: note, location: Some(left_op_source) });
            proof {
                let ghost want = spec_conflict_error(src@, left_op, left_op_source, op, op_source);
                assert(e@.notes =~= want.notes);
                assert(e@.message.message =~= want.message.message);
            }
            Err(e)
        },
    }
}

/// A fresh, unparenthesized binary node.
pub open spec fn new_binary_view(
    op: BinaryOperator,
    op_source: Span,
    lhs: ExprView,
    rhs: ExprView,
) -> ExprView {
    ExprView::Op {
        op_source,
        op: OpView::BinaryOp { op, lhs: Box::new(lhs), rhs: Box::new(rhs) },
        parenthesized: false,
    }
}

/// The node's right operand.
pub open spec fn op_rhs(o: OpView) -> ExprView {
    match o {
        OpView::UnaryOp { rhs, .. } => *rhs,
        OpView::BinaryOp { rhs, .. } => *rhs,
    }
}

/// The node with its right operand replaced.
pub open spec fn with_rhs(o: OpView, new_rhs: ExprView) -> OpView {
    match o {
        OpView::UnaryOp { op, .. } => OpView::UnaryOp { op, rhs: Box::new(new_rhs) },
        OpView::BinaryOp { op, lhs, .. } => OpView::BinaryOp { op, lhs, rhs: Box::new(new_rhs) },
    }
}

/// Splices a freshly parsed binary operator and its right operand into the
/// tree built so far: walk the right spine through unparenthesized operator
/// nodes while the node at hand binds no weaker than the new operator; the
/// first subtree that binds weaker, is parenthesized, or is no operator node
/// is detached and becomes the new node's left operand, and the new node
/// takes its place. A non-associative conflict on the way is an error.
pub open spec fn spec_splice(
    e: ExprView,
    op: BinaryOperator,
    op_source: Span,
    rhs: ExprView,
    s: Seq<u8>,
) -> Result<ExprView, ErrorView>
    decreases e,
{
    match e {
        ExprView::Op { op_source: e_src, op: e_op, parenthesized: false } => {
            match spec_is_lhs(e_op.spec_op(), e_src, op, op_source, s) {
                Err(err) => Err(err),
                Ok(true) => Ok(new_binary_view(op, op_source, e, rhs)),
                Ok(false) => match spec_splice(op_rhs(e_op), op, op_source, rhs, s) {
                    Err(err) => Err(err),
                    Ok(new_rhs) => Ok(
                        ExprView::Op {
                            op_source: e_src,
                            op: with_rhs(e_op, new_rhs),
                            parenthesized: false,
                        },
                    ),
                },
            }
        },
        _ => Ok(new_binary_view(op, op_source, e, rhs)),
    }
}

fn new_binary(op: BinaryOperator, op_source: Span, lhs: Expression, rhs: Expression) -> (r:
    Expression)
    ensures
        r@ == new_binary_view(op, op_source, lhs@, rhs@),
{
    Expression::Op {
        op_source,
        op: Op::BinaryOp { op, lhs: Box::new(lhs), rhs: Box::new(rhs) },
        parenthesized: false,
    }
}

/// The executable splicing step; see `spec_splice`.
pub fn splice_binary_op(
    expr: Expression,
    op: BinaryOperator,
    op_source: Span,
    rhs: Expression,
    src: &Vec<u8>,
) -> (r: Result<Expression, Error>)
    ensures
        expr_result_view(r) == spec_splice(expr@, op, op_source, rhs@, src@),
    decreases expr,
{
    match expr {
        Expression::Op { op_source: e_src, op: e_op, parenthesized: false } => {
            let left_op = e_op.op();
            match is_lhs(left_op, e_src, op, op_source, src) {
                Err(e) => Err(e),
                Ok(true) => Ok(
                    new_binary(
                        op,
                        op_source,
                        Expression::Op { op_source: e_src, op: e_op, parenthesized: false },
                        rhs,
                    ),
                ),
                Ok(false) => match e_op {
                    Op::UnaryOp { op: u_op, rhs: e_rhs } => {
                        match splice_binary_op(*e_rhs, op, op_source, rhs, src) {
                            Err(e) => Err(e),
                            Ok(new_rhs) => Ok(
                                Expression::Op {
                                    op_source: e_src,
                                    op: Op::UnaryOp { op: u_op, rhs: Box::new(new_rhs) },
                                    parenthesized: false,
                                },
                            ),
                        }
                    },
                    Op::BinaryOp { op: b_op, rhs: e_rhs, lhs: e_lhs } => {
                        match splice_binary_op(*e_rhs, op, op_source, rhs, src) {
                            Err(e) => Err(e),
                            Ok(new_rhs) => Ok(
                                Expression::Op {
                                    op_source: e_src,
                                    op: Op::BinaryOp {
                                        op: b_op,
                                        lhs: e_lhs,
                                        rhs: Box::new(new_rhs),
                                    },
                                    parenthesized: false,
                                },
                            ),
                        }
                    },
                },
            }
        },
        other => Ok(new_binary(op, op_source, other, rhs)),
    }
}

/// The operator of an unparenthesized binary node, the only kind of node the
/// splicing walk may restructure.
pub open spec fn bare_binary_op(e: ExprView) -> Option<BinaryOperator> {
    match e {
        ExprView::Op { op: OpView::BinaryOp { op, .. }, parenthesized: false, .. } => Some(op),
        _ => None,
    }
}

/// Whether the tree reflects the precedence table along every operator edge:
/// an unparenthesized binary node standing as a right operand binds tighter
/// than its parent, and one standing as a left operand binds no weaker —
/// tighter, or equal in a left-associative class. Parenthesized interiors are
/// exempt, as parentheses override precedence, and literals close a path:
/// their element expressions are operator trees of their own.
pub open spec fn precedence_ordered(e: ExprView) -> bool
    decreases e,
{
    match e {
        ExprView::Op { op, .. } => match op {
            OpView::UnaryOp { op: uop, rhs } => {
                &&& precedence_ordered(*rhs)
                &&& match bare_binary_op(*rhs) {
                    Some(rop) => spec_higher_precedence(
                        Operator::Unary(uop),
                        Operator::Binary(rop),
                    ) == Order::Right,
                    None => true,
                }
            },
            OpView::BinaryOp { op: bop, rhs, lhs } => {
                &&& precedence_ordered(*lhs)
                &&& precedence_ordered(*rhs)
                &&& match bare_binary_op(*lhs) {
                    Some(lop) => spec_higher_precedence(
                        Operator::Binary(lop),
                        Operator::Binary(bop),
                    ) == Order::Left,
                    None => true,
                }
                &&& match bare_binary_op(*rhs) {
                    Some(rop) => spec_higher_precedence(
                        Operator::Binary(bop),
                        Operator::Binary(rop),
                    ) == Order::Right,
                    None => true,
                }
            },
        },
        _ => true,
    }
}

/// Splicing preserves precedence order. Tighter-binding operators sit deeper:
/// the walk descends exactly while the new operator binds tighter than the
/// node at hand, so the node the new one replaces binds looser above it, and
/// the subtree it takes as its left operand binds tighter below it.
pub proof fn lemma_splice_preserves_precedence_order(
    e: ExprView,
    op: BinaryOperator,
    op_source: Span,
    rhs: ExprView,
    s: Seq<u8>,
)
    requires
        precedence_ordered(e),
        precedence_ordered(rhs),
        bare_binary_op(rhs) is None,
    ensures
        spec_splice(e, op, op_source, rhs, s) matches Ok(e2) ==> precedence_ordered(e2),
    decreases e,
{
    match e {
        ExprView::Op { op_source: e_src, op: e_op, parenthesized: false } => {
            match spec_is_lhs(e_op.spec_op(), e_src, op, op_source, s) {
                Err(_) => {},
                Ok(true) => {},
                Ok(false) => {
                    let inner = op_rhs(e_op);
                    lemma_splice_preserves_precedence_order(inner, op, op_source, rhs, s);
                    if let Ok(nr) = spec_splice(inner, op, op_source, rhs, s) {
                        // The new subtree's root operator either is the new
                        // operator, which binds tighter than this node's (that
                        // is why the walk descended), or stays the old right
                        // operand's, which the invariant already orders.
                        match bare_binary_op(nr) {
                            Some(rop) => {
                                assert(rop == op || bare_binary_op(inner) == Some(rop));
                            },
                            None => {},
                        }
                    }
                },
            }
        },
        _ => {},
    }
}

/// Parenthesization blocks splicing: a parenthesized operator node, an
/// identifier or a literal is never descended into; it becomes, whole, the
/// left operand of the new binary node.
pub proof fn lemma_splice_parenthesized(
    e: ExprView,
    op: BinaryOperator,
    op_source: Span,
    rhs: ExprView,
    s: Seq<u8>,
)
    requires
        match e {
            ExprView::Op { parenthesized, .. } => parenthesized,
            _ => true,
        },
    ensures
        spec_splice(e, op, op_source, rhs, s) == Ok::<ExprView, ErrorView>(
            new_binary_view(op, op_source, e, rhs),
        ),
{
}

/// When the tree's root operator binds tighter than the new operator, or
/// equally in a left-associative class, the whole tree becomes the new node's
/// left operand and so sits deeper than the new, looser node: `a - b - c`
/// parses as `(a - b) - c`.
pub proof fn lemma_splice_left(
    e_src: Span,
    e_op: OpView,
    op: BinaryOperator,
    op_source: Span,
    rhs: ExprView,
    s: Seq<u8>,
)
    requires
        spec_higher_precedence(e_op.spec_op(), Operator::Binary(op)) == Order::Left,
    ensures
        spec_splice(
            ExprView::Op { op_source: e_src, op: e_op, parenthesized: false },
            op,
            op_source,
            rhs,
            s,
        ) == Ok::<ExprView, ErrorView>(
            new_binary_view(
                op,
                op_source,
                ExprView::Op { op_source: e_src, op: e_op, parenthesized: false },
                rhs,
            ),
        ),
{
}

/// When the new operator binds tighter than the tree's root operator, or
/// equally in the right-associative class, it is spliced into the root's
/// right operand, so the tighter operator sits deeper: `a ** b ** c` parses
/// as `a ** (b ** c)`.
pub proof fn lemma_splice_right(
    e_src: Span,
    e_op: OpView,
    op: BinaryOperator,
    op_source: Span,
    rhs: ExprView,
    s: Seq<u8>,
)
    requires
        spec_higher_precedence(e_op.spec_op(), Operator::Binary(op)) == Order::Right,
    ensures
        spec_splice(
            ExprView::Op { op_source: e_src, op: e_op, parenthesized: false },
            op,
            op_source,
            rhs,
            s,
        ) == match spec_splice(op_rhs(e_op), op, op_source, rhs, s) {
            Err(err) => Err(err),
            Ok(new_rhs) => Ok(
                ExprView::Op { op_source: e_src, op: with_rhs(e_op, new_rhs), parenthesized: false },
            ),
        },
{
}

/// Two operators of one non-associative precedence class may not be chained:
/// splicing the second onto a tree rooted in the first fails with the
/// conflict diagnostic that cites both operator spellings and locations.
pub proof fn lemma_splice_unordered(
    e_src: Span,
    e_op: OpView,
    op: BinaryOperator,
    op_source: Span,
    rhs: ExprView,
    s: Seq<u8>,
)
    requires
        spec_higher_precedence(e_op.spec_op(), Operator::Binary(op)) == Order::Unordered,
    ensures
        spec_splice(
            ExprView::Op { op_source: e_src, op: e_op, parenthesized: false },
            op,
            op_source,
            rhs,
            s,
        ) == Err::<ExprView, ErrorView>(
            spec_conflict_error(s, e_op.spec_op(), e_src, op, op_source),
        ),
{
}

} // verus!

use vstd::prelude::*;

use crate::operator::{BinaryOperator, Operator, UnaryOperator};
use crate::span::Span;

verus! {

broadcast use vstd::std_specs::vec::axiom_vec_index_decreases;

/// A parsed expression. Every span points into the one source buffer the
/// expression was parsed from.
#[derive(Debug)]
pub enum Expression {
    Identifier(Span),
    Op { op_source: Span, op: Op, parenthesized: bool },
    Literal(Literal),
}

/// An operator application: exactly one operator, one required right operand,
/// and, for a binary operator, one required left operand.
#[derive(Debug)]
#[allow(inconsistent_fields)]
pub enum Op {
    UnaryOp { op: UnaryOperator, rhs: Box<Expression> },
    BinaryOp { op: BinaryOperator, rhs: Box<Expression>, lhs: Box<Expression> },
}

/// A literal: an integer, a borrowed string, an ordered list, or an object of
/// two parallel ordered sequences (keys and values correlate by position; the
/// keys are expressions themselves, so an object is not a map).
#[derive(Debug)]
pub enum Literal {
    Integer(u64),
    Str(Span),
    List(Vec<Expression>),
    Object(Vec<Expression>, Vec<Expression>),
}

/// The mathematical shape of an `Expression`, with lists as sequences.
#[verifier::ext_equal]
pub enum ExprView {
    Identifier(Span),
    Op { op_source: Span, op: OpView, parenthesized: bool },
    Literal(LitView),
}

#[verifier::ext_equal]
#[allow(inconsistent_fields)]
pub enum OpView {
    UnaryOp { op: UnaryOperator, rhs: Box<ExprView> },
    BinaryOp { op: BinaryOperator, rhs: Box<ExprView>, lhs: Box<ExprView> },
}

#[verifier::ext_equal]
pub enum LitView {
    Integer(u64),
    Str(Span),
    List(Seq<ExprView>),
    Object(Seq<ExprView>, Seq<ExprView>),
}

pub open spec fn expr_view(e: Expression) -> ExprView
    decreases e,
{
    match e {
        Expression::Identifier(sp) => ExprView::Identifier(sp),
        Expression::Op { op_source, op, parenthesized } => ExprView::Op {
            op_source,
            op: op_view(op),
            parenthesized,
        },
        Expression::Literal(l) => ExprView::Literal(lit_view(l)),
    }
}

pub open spec fn op_view(o: Op) -> OpView
    decreases o,
{
    match o {
        Op::UnaryOp { op, rhs } => OpView::UnaryOp { op, rhs: Box::new(expr_view(*rhs)) },
        Op::BinaryOp { op, rhs, lhs } => OpView::BinaryOp {
            op,
            rhs: Box::new(expr_view(*rhs)),
            lhs: Box::new(expr_view(*lhs)),
        },
    }
}

/// The views of a vector of expressions, element for element. The closure
/// guards its index so that only in-bounds elements, which are structurally
/// smaller than the vector, are viewed; the out-of-bounds branch never shows.
pub open spec fn exprs_view(v: Vec<Expression>) -> Seq<ExprView>
    decreases v,
{
    Seq::new(
        v@.len(),
        |i: int|
            if 0 <= i < v@.len() {
                expr_view(v[i])
            } else {
                ExprView::Identifier(Span { start: 0, end: 0 })
            },
    )
}

pub open spec fn lit_view(l: Literal) -> LitView
    decreases l,
{
    match l {
        Literal::Integer(i) => LitView::Integer(i),
        Literal::Str(sp) => LitView::Str(sp),
        Literal::List(v) => LitView::List(exprs_view(v)),
        Literal::Object(ks, vs) => LitView::Object(exprs_view(ks), exprs_view(vs)),
    }
}

pub proof fn lemma_exprs_view_empty(v: Vec<Expression>)
    requires
        v@.len() == 0,
    ensures
        exprs_view(v) == Seq::<ExprView>::empty(),
{
    assert(exprs_view(v) =~= Seq::<ExprView>::empty());
}

pub proof fn lemma_exprs_view_push(v1: Vec<Expression>, x: Expression, v2: Vec<Expression>)
    requires
        v2@ == v1@.push(x),
    ensures
        exprs_view(v2) == exprs_view(v1).push(expr_view(x)),
{
    assert(exprs_view(v2) =~= exprs_view(v1).push(expr_view(x)));
}

impl View for Expression {
    type V = ExprView;

    open spec fn view(&self) -> ExprView {
        expr_view(*self)
    }
}

impl View for Op {
    type V = OpView;

    open spec fn view(&self) -> OpView {
        op_view(*self)
    }
}

impl View for Literal {
    type V = LitView;

    open spec fn view(&self) -> LitView {
        lit_view(*self)
    }
}

impl Op {
    /// The operator of this node, without its operands.
    pub open spec fn spec_op(&self) -> Operator {
        match self {
            Op::UnaryOp { op, .. } => Operator::Unary(*op),
            Op::BinaryOp { op, .. } => Operator::Binary(*op),
        }
    }

    pub fn op(&self) -> (r: Operator)
        ensures
            r == self.spec_op(),
    {
        match self {
            Op::UnaryOp { op, .. } => Operator::Unary(*op),
            Op::BinaryOp { op, .. } => Operator::Binary(*op),
        }
    }
}

impl OpView {
    /// The operator of this node, without its operands.
    pub open spec fn spec_op(self) -> Operator {
        match self {
            OpView::UnaryOp { op, .. } => Operator::Unary(op),
            OpView::BinaryOp { op, .. } => Operator::Binary(op),
        }
    }
}

} // verus!

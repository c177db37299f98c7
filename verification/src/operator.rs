use vstd::prelude::*;

verus! {

#[derive(Clone, Copy, PartialEq, Eq, Structural, Debug)]
pub enum UnaryOperator {
    /* + */ Plus,
    /* - */ Minus,
    /* ~ */ Complement,
    /* ! */ LogicalNot,
}

#[derive(Clone, Copy, PartialEq, Eq, Structural, Debug)]
pub enum BinaryOperator {
    /* .  */ Dot,
    /* [] */ Index,
    /* () */ Call,
    /* :  */ Colon,
    /* == */ Equal,
    /* != */ Inequal,
    /* >  */ Greater,
    /* <  */ Less,
    /* >= */ GreaterOrEqual,
    /* <= */ LessOrEqual,
    /* +  */ Plus,
    /* -  */ Minus,
    /* *  */ Times,
    /* /  */ Divide,
    /* %  */ Modulo,
    /* ** */ Power,
    /* << */ LeftShift,
    /* >> */ RightShift,
    /* &  */ BitAnd,
    /* |  */ BitOr,
    /* ^  */ BitXor,
    /* && */ LogicalAnd,
    /* || */ LogicalOr,
}

#[derive(Clone, Copy, PartialEq, Eq, Structural, Debug)]
pub enum Operator {
    Unary(UnaryOperator),
    Binary(BinaryOperator),
}

#[derive(Clone, Copy, PartialEq, Eq, Structural, Debug)]
pub enum Order {
    Left,
    Right,
    Unordered,
}

/// The precedence class of an operator; a lower value binds tighter.
pub open spec fn spec_precedence(op: Operator) -> int {
    match op {
        Operator::Unary(_) => 2,
        Operator::Binary(b) => match b {
            BinaryOperator::Dot => 1,
            BinaryOperator::Colon => 1,
            BinaryOperator::Call => 1,
            BinaryOperator::Index => 1,
            BinaryOperator::Power => 3,
            BinaryOperator::Times => 4,
            BinaryOperator::Divide => 4,
            BinaryOperator::Modulo => 4,
            BinaryOperator::Plus => 5,
            BinaryOperator::Minus => 5,
            BinaryOperator::LeftShift => 6,
            BinaryOperator::RightShift => 6,
            BinaryOperator::Greater => 7,
            BinaryOperator::Less => 7,
            BinaryOperator::GreaterOrEqual => 7,
            BinaryOperator::LessOrEqual => 7,
            BinaryOperator::Equal => 8,
            BinaryOperator::Inequal => 8,
            BinaryOperator::BitAnd => 9,
            BinaryOperator::BitXor => 10,
            BinaryOperator::BitOr => 11,
            BinaryOperator::LogicalAnd => 12,
            BinaryOperator::LogicalOr => 13,
        },
    }
}

/// How two operators of one precedence class associate: the power class is
/// right-associative, the comparison and equality classes are non-associative,
/// and every other class is left-associative.
pub open spec fn spec_associativity(precedence: int) -> Order {
    if precedence == 3 {
        Order::Right
    } else if precedence == 7 || precedence == 8 {
        Order::Unordered
    } else {
        Order::Left
    }
}

/// Which of two adjacent operators binds tighter: `Order::Left` when the left
/// one does, `Order::Right` when the right one does, and `Order::Unordered`
/// when they share a non-associative precedence class.
pub open spec fn spec_higher_precedence(left_op: Operator, right_op: Operator) -> Order {
    let left = spec_precedence(left_op);
    let right = spec_precedence(right_op);
    if left < right {
        Order::Left
    } else if left > right {
        Order::Right
    } else {
        spec_associativity(left)
    }
}

// A lower value means a higher precedence.
fn get_precedence(op: Operator) -> (r: i32)
    ensures
        r == spec_precedence(op),
{
    match op {
        Operator::Binary(BinaryOperator::Dot)
        | Operator::Binary(BinaryOperator::Colon)
        | Operator::Binary(BinaryOperator::Call)
        | Operator::Binary(BinaryOperator::Index) => 1,
        Operator::Unary(_) => 2,
        Operator::Binary(BinaryOperator::Power) => 3,
        Operator::Binary(BinaryOperator::Times)
        | Operator::Binary(BinaryOperator::Divide)
        | Operator::Binary(BinaryOperator::Modulo) => 4,
        Operator::Binary(BinaryOperator::Plus) | Operator::Binary(BinaryOperator::Minus) => 5,
        Operator::Binary(BinaryOperator::LeftShift)
        | Operator::Binary(BinaryOperator::RightShift) => 6,
        Operator::Binary(BinaryOperator::Greater)
        | Operator::Binary(BinaryOperator::Less)
        | Operator::Binary(BinaryOperator::GreaterOrEqual)
        | Operator::Binary(BinaryOperator::LessOrEqual) => 7,
        Operator::Binary(BinaryOperator::Equal) | Operator::Binary(BinaryOperator::Inequal) => 8,
        Operator::Binary(BinaryOperator::BitAnd) => 9,
        Operator::Binary(BinaryOperator::BitXor) => 10,
        Operator::Binary(BinaryOperator::BitOr) => 11,
        Operator::Binary(BinaryOperator::LogicalAnd) => 12,
        Operator::Binary(BinaryOperator::LogicalOr) => 13,
    }
}

fn get_associativity(precedence: i32) -> (r: Order)
    ensures
        r == spec_associativity(precedence as int),
{
    match precedence {
        3 => Order::Right,          // **
        7 | 8 => Order::Unordered,  // > < >= <= != ==
        _ => Order::Left,
    }
}

pub fn higher_precedence(left_op: Operator, right_op: Operator) -> (r: Order)
    ensures
        r == spec_higher_precedence(left_op, right_op),
{
    let left = get_precedence(left_op);
    let right = get_precedence(right_op);
    if left < right {
        Order::Left
    } else if left > right {
        Order::Right
    } else {
        get_associativity(left)
    }
}

} // verus!

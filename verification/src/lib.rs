//! A recursive-descent parser for a small configuration language's expression
//! grammar: identifiers, unary and binary operators, parenthesized groups,
//! list and object literals, and integer literals. Operator precedence is
//! resolved in a single pass by splicing each newly parsed binary operator
//! into the tree built so far. Diagnostics carry source spans and auxiliary
//! notes.

pub mod span;
pub mod operator;
pub mod hex;
pub mod consume;
pub mod whitespace;
pub mod text;
pub mod error;
pub mod end;
pub mod expression;
pub mod splice;
pub mod matcher;
pub mod parse;
pub mod render;

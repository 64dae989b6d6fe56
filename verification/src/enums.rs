//! Operator tag sets shared with front ends.
//!
//! These carry no behaviour of their own; they are the vocabulary a front end
//! uses when it classifies comparison and arithmetic operators before the
//! lowering stage gives them meaning.

use vstd::prelude::*;

verus! {

/// A comparison or membership operator tag.
#[derive(Debug, PartialEq, Eq, Clone, Copy, Structural)]
pub enum CompareOperator {
    Greater,
    Less,
    Equal,
    GreaterEqual,
    LessEqual,
    NotEqual,
    In,
    NotIn,
    Is,
    IsNot,
}

/// An arithmetic or bitwise operator tag.
#[derive(Debug, PartialEq, Eq, Clone, Copy, Structural)]
pub enum BinOperator {
    Add,
    Sub,
    Div,
    Mul,
    Pow,
    FloorDiv,
    Invert,
    BitAnd,
    BitXor,
    BitOr,
    LeftShift,
    RightShift,
}

} // verus!

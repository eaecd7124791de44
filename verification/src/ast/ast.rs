//! Operator kinds that the syntax tree records.

use vstd::prelude::*;

verus! {

/// The direction of an ordering.
#[derive(Debug, Clone, Copy, PartialEq, Eq, Structural)]
pub enum Direction {
    /// An ascending ordering.
    Ascending,
    /// A descending ordering.
    Descending,
}

/// The arrow direction of a relate operation.
#[derive(Debug, Clone, Copy, PartialEq, Eq, Structural)]
pub enum RelateArrow {
    /// A `<-` arrow.
    Left,
    /// A `->` arrow.
    Right,
    /// A `<<-` arrow.
    MultiLeft,
    /// A `->>` arrow.
    MultiRight,
}

/// The assignment operator of an update operation.
#[derive(Debug, Clone, Copy, PartialEq, Eq, Structural)]
pub enum UpdateAssign {
    /// A direct assignment.
    Direct,
    /// A `+=` assignment.
    Plus,
    /// A `-=` assignment.
    Minus,
    /// A `*=` assignment.
    Mul,
    /// A `/=` assignment.
    Div,
    /// A `%=` assignment.
    Mod,
    /// A `**=` assignment.
    Pow,
    /// A `&=` assignment.
    BitAnd,
    /// A `|=` assignment.
    BitOr,
    /// A `^=` assignment.
    BitXor,
    /// A `~=` assignment.
    BitNot,
    /// A `<<=` assignment.
    Shl,
    /// A `>>=` assignment.
    Shr,
}

} // verus!

//! The syntax types of the zeroql compiler that stand apart from the syntax tree itself.

#[allow(clippy::module_inception)]
mod ast;
mod tag;
mod tree;

pub use ast::{Direction, RelateArrow, UpdateAssign};
pub use tag::AnalysisTag;
pub use tree::{Ast, AstKind, ElseIfPart, Field, SelectColumn, SelectTransform, TypeSig};

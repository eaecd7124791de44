//! Lexer, combinators and syntax types of the `zeroql` query language.

pub mod ast;
pub mod lexer;
pub mod parser;

use vstd::prelude::*;

verus! {

/// A span mostly used to represent the start and end of a token in the input string.
pub type Span = core::ops::Range<usize>;

} // verus!

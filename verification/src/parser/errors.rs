//! The errors of the parser.

use vstd::prelude::*;

use crate::lexer::LexerError;

verus! {

/// The error of parsing a string as an integer, from the standard library.
#[verifier::external_type_specification]
#[verifier::external_body]
pub struct ExParseIntError(core::num::ParseIntError);

/// The error of parsing a string as a floating-point number, from the standard library.
#[verifier::external_type_specification]
#[verifier::external_body]
pub struct ExParseFloatError(core::num::ParseFloatError);

/// The result of a parser operation.
pub type ParserResult<T> = Result<T, ParserError>;

/// An error that occurred during parsing.
#[derive(Debug)]
pub enum ParserError {
    /// An error that occurred during lexing.
    LexerError(LexerError),
    /// An error parsing a u128 integer literal: the error and the text that was parsed.
    InvalidIntegerLiteral(core::num::ParseIntError, String),
    /// An error parsing an f64 float literal: the error and the text that was parsed.
    InvalidFloatLiteral(core::num::ParseFloatError, String),
}

impl From<LexerError> for ParserError {
    fn from(e: LexerError) -> (r: ParserError) {
        ParserError::LexerError(e)
    }
}

impl vstd::std_specs::convert::FromSpecImpl<LexerError> for ParserError {
    open spec fn obeys_from_spec() -> bool {
        true
    }

    open spec fn from_spec(e: LexerError) -> ParserError {
        ParserError::LexerError(e)
    }
}

} // verus!

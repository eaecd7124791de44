//! Errors of the lexer.

use vstd::prelude::*;

use super::lexer::Bracket;

verus! {

/// The result type for the lexer.
pub type LexerResult<T> = Result<T, LexerError>;

/// An error that occurred during lexing.
#[derive(Debug, PartialEq, Eq)]
pub enum LexerError {
    /// An unexpected character was encountered.
    UnexpectedCharacter {
        /// The span of the unexpected character.
        span: core::ops::Range<usize>,
        /// The unexpected character.
        character: char,
    },
    /// A mismatched bracket was encountered.
    MismatchedBracket {
        /// The span of the mismatched bracket.
        span: core::ops::Range<usize>,
        /// The expected bracket.
        expected: Option<Bracket>,
        /// The found bracket.
        found: Bracket,
    },
    /// An error that occurred while lexing a module block.
    UnableToLexModuleBlock {
        /// The span of the module block.
        span: core::ops::Range<usize>,
    },
}

impl Clone for LexerError {
    fn clone(&self) -> (e: Self)
        ensures
            e == *self,
    {
        match self {
            LexerError::UnexpectedCharacter { span, character } => LexerError::UnexpectedCharacter {
                span: span.start..span.end,
                character: *character,
            },
            LexerError::MismatchedBracket { span, expected, found } => {
                LexerError::MismatchedBracket {
                    span: span.start..span.end,
                    expected: *expected,
                    found: *found,
                }
            },
            LexerError::UnableToLexModuleBlock { span } => LexerError::UnableToLexModuleBlock {
                span: span.start..span.end,
            },
        }
    }
}

} // verus!

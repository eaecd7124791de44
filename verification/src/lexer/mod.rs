//! Lexer module for zeroql compiler.

mod classes;
mod display;
mod errors;
#[allow(clippy::module_inception)]
mod lexer;
mod laws;
mod rules;
mod scan;
mod token;
mod utf8;

pub use classes::{digit_len, regex_word_char, ws_len};
pub use errors::{LexerError, LexerResult};
pub use lexer::{
    char_at, Bracket, LexView, Lexed, Lexer, LexerState, lex_step, lexed_agrees, opposite_spec, skip_step,
    step_undefined, token_step,
};
pub use token::{tag_has_text, RegexFlags, Token, TokenKind, TokenTag};
pub use utf8::{lead_width, str_slice, whole_chars};
pub use laws::{
    is_opening, lemma_brackets, lemma_continuation, lemma_stack_opening, stack_opening, lemma_end_is_final, lemma_errors_at_cursor,
    lemma_module_block, lemma_module_block_progress, lemma_opposite_pairs, lemma_step_progress,
    lemma_display_round_trip, lemma_tokens_in_order, mismatch_expected, state_fits, token_tag,
    written_as_lexed, is_escape_letter, lemma_escaped_string, lemma_escaped_byte_string,
    lemma_escape_in_body, lemma_plain_string, lemma_empty_string, lemma_bad_escape,
};
pub use display::{bracket_display, flags_display, lemma_flags_round_trip, token_display};

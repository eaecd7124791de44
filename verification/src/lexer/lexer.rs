//! The lexer: a state machine that turns the input text into tokens one at a time.

use vstd::prelude::*;
use vstd::string::*;
use vstd::utf8::*;

use crate::parser::StateCapture;

use super::errors::{LexerError, LexerResult};
use super::rules::{fixed_rule, number_rule, rule_agrees, rule_at, rule_at_exec, word_rule};
use super::classes::{is_ident_char, is_radix_digit};
use super::scan::{
    backslash_len, byte_is, byte_string_len, comment_len, digits, escaped_ident_len, float_len,
    float_pattern_len, flags_run, hspace_run, ident_run, lemma_digits_whole, lemma_flags_run_last, lemma_flags_run_nonneg,
    lemma_float_whole, lemma_hspace_run_end, lemma_ident_run_last, lemma_line_run_end,
    lemma_radix_tail_last, lemma_regex_close, lemma_str_body_last, lemma_ws_run_whole, line_run,
    module_block_len, module_block_end, lemma_module_block_end, module_block_len_at, comment_len_at,
    backslash_len_at, ws_run_at, hspace_run_at, lemma_slice_len, end_word_at, regex_body_end_at, plain_ident_len, radix_digits, radix_len, radix_tail, regex_body_end,
    regex_close, regex_len, str_body, string_len, terminator_len, variable_len, ws_run,
};
use super::utf8::{
    lead_width, lemma_after_ascii, lemma_ascii_boundary, lemma_ascii_whole_chars, lemma_boundary_step,
    lemma_whole_chars_boundary, str_slice,
};
use super::token::{flags_value, tag_has_text, RegexFlags, Token, TokenKind, TokenTag};

verus! {

/// A bracket.
#[derive(Debug, Clone, Copy, PartialEq, Eq, Hash, Structural)]
pub enum Bracket {
    /// An opening parenthesis.
    OpenParen,
    /// A closing parenthesis.
    CloseParen,
    /// An opening square bracket.
    OpenSquareBracket,
    /// A closing square bracket.
    CloseSquareBracket,
    /// An opening brace.
    OpenBrace,
    /// A closing brace.
    CloseBrace,
}

/// The bracket that pairs with `b`.
pub open spec fn opposite_spec(b: Bracket) -> Bracket {
    match b {
        Bracket::OpenParen => Bracket::CloseParen,
        Bracket::OpenSquareBracket => Bracket::CloseSquareBracket,
        Bracket::OpenBrace => Bracket::CloseBrace,
        Bracket::CloseParen => Bracket::OpenParen,
        Bracket::CloseSquareBracket => Bracket::OpenSquareBracket,
        Bracket::CloseBrace => Bracket::OpenBrace,
    }
}

impl Bracket {
    /// The bracket that pairs with this one.
    pub fn opposite(&self) -> (r: Self)
        ensures
            r == opposite_spec(*self),
    {
        match self {
            Self::OpenParen => Self::CloseParen,
            Self::OpenSquareBracket => Self::CloseSquareBracket,
            Self::OpenBrace => Self::CloseBrace,
            Self::CloseParen => Self::OpenParen,
            Self::CloseSquareBracket => Self::OpenSquareBracket,
            Self::CloseBrace => Self::OpenBrace,
        }
    }
}

/// The state of the lexer.
#[derive(Debug, Clone, PartialEq, Eq, Hash)]
pub struct LexerState {
    /// The current position in the input string, in bytes.
    pub cursor: usize,
    /// The brackets that are open, innermost last.
    pub bracket_stack: Vec<Bracket>,
    /// Whether the last token was a comma or an assignment operator.
    pub continuation_precedent: bool,
    /// How far the tokens `define`, `module`, an identifier and `with` have been seen, in that
    /// order; at 4 the next token is a module block.
    pub module_block_precedent: u8,
}

impl LexerState {
    /// A copy of this state.
    pub fn copy(&self) -> (r: LexerState)
        ensures
            r@ == self@,
    {
        let mut stack: Vec<Bracket> = Vec::new();
        let mut i: usize = 0;
        while i < self.bracket_stack.len()
            invariant
                0 <= i <= self.bracket_stack@.len(),
                stack@ == self.bracket_stack@.subrange(0, i as int),
            decreases self.bracket_stack@.len() - i,
        {
            stack.push(self.bracket_stack[i]);
            i = i + 1;
            assert(stack@ =~= self.bracket_stack@.subrange(0, i as int));
        }
        assert(stack@ =~= self.bracket_stack@);
        LexerState {
            cursor: self.cursor,
            bracket_stack: stack,
            continuation_precedent: self.continuation_precedent,
            module_block_precedent: self.module_block_precedent,
        }
    }
}

/// The state of the lexer, as mathematical values.
pub struct LexView {
    /// The position in the input, in bytes.
    pub cursor: int,
    /// The open brackets, innermost last.
    pub stack: Seq<Bracket>,
    /// Whether the last token was a comma or an assignment operator.
    pub cont: bool,
    /// The progress towards a module block.
    pub prec: u8,
}

impl View for LexerState {
    type V = LexView;

    open spec fn view(&self) -> LexView {
        LexView {
            cursor: self.cursor as int,
            stack: self.bracket_stack@,
            cont: self.continuation_precedent,
            prec: self.module_block_precedent,
        }
    }
}

impl Default for LexerState {
    fn default() -> (s: Self)
        ensures
            s@.cursor == 0,
            s@.stack == Seq::<Bracket>::empty(),
            !s@.cont,
            s@.prec == 0,
    {
        LexerState {
            cursor: 0,
            bracket_stack: Vec::new(),
            continuation_precedent: false,
            module_block_precedent: 0,
        }
    }
}

/// What one step of the lexer gives.
pub enum Lexed {
    /// The end of the input.
    End,
    /// A token with its span, rule, text and regular expression flags.
    Token { start: int, end: int, tag: TokenTag, text: Seq<u8>, flags: u8 },
    /// An error.
    Failed(LexerError),
}

/// The executable result agrees with what the step gives.
pub open spec fn lexed_agrees(res: LexerResult<Option<Token>>, l: Lexed) -> bool {
    match l {
        Lexed::End => res matches Ok(None),
        Lexed::Token { start, end, tag, text, flags } => res matches Ok(Some(t)) && t.span.start
            == start && t.span.end == end && t.kind.tag() == tag && t.kind.text() == text
            && t.kind.flag_bits() == flags,
        Lexed::Failed(e) => res == Err::<Option<Token>, LexerError>(e),
    }
}

/// How far continuations, white space and comments reach from the cursor, and the new value of
/// the continuation flag.
pub open spec fn skip_step(b: Seq<u8>, st: LexView) -> (int, bool) {
    let p = st.cursor;
    if comment_len(b, p) > 0 {
        (comment_len(b, p), st.cont)
    } else if backslash_len(b, p) > 0 {
        (backslash_len(b, p), st.cont)
    } else if ws_run(b, p) > 0 {
        if st.cont {
            (ws_run(b, p), false)
        } else if st.stack.len() > 0 {
            (ws_run(b, p), st.cont)
        } else if hspace_run(b, p) > 0 {
            (hspace_run(b, p), st.cont)
        } else {
            (0, st.cont)
        }
    } else {
        (0, st.cont)
    }
}

/// Where the text of a token of rule `tag` starts, for a match of length `n` at `p`.
pub open spec fn text_start(b: Seq<u8>, tag: TokenTag, p: int, n: int) -> int {
    match tag {
        TokenTag::ByteStringLiteral | TokenTag::RegexLiteral | TokenTag::HexIntegerLiteral
        | TokenTag::OctIntegerLiteral | TokenTag::BinIntegerLiteral => p + 2,
        TokenTag::EscapedIdentifier | TokenTag::StringLiteral | TokenTag::Variable => p + 1,
        _ => p,
    }
}

/// Where the text of a token of rule `tag` ends, for a match of length `n` at `p`.
pub open spec fn text_end(b: Seq<u8>, tag: TokenTag, p: int, n: int) -> int {
    match tag {
        TokenTag::ByteStringLiteral | TokenTag::EscapedIdentifier | TokenTag::StringLiteral => p
            + n - 1,
        TokenTag::RegexLiteral => regex_body_end(b, p),
        TokenTag::PlainIdentifier | TokenTag::Variable | TokenTag::HexIntegerLiteral
        | TokenTag::OctIntegerLiteral | TokenTag::BinIntegerLiteral | TokenTag::FloatLiteral
        | TokenTag::DecIntegerLiteral => p + n,
        _ => p,
    }
}

/// The text of a token of rule `tag`: empty for rules whose tokens carry none.
pub open spec fn tag_text(b: Seq<u8>, tag: TokenTag, p: int, n: int) -> Seq<u8> {
    if tag_has_text(tag) {
        b.subrange(text_start(b, tag, p, n), text_end(b, tag, p, n))
    } else {
        Seq::empty()
    }
}

/// The flags of a token of rule `tag`: those of a regular expression literal, else none.
pub open spec fn tag_flags(b: Seq<u8>, tag: TokenTag, p: int, n: int) -> u8 {
    if tag == TokenTag::RegexLiteral {
        flags_value(b.subrange(regex_body_end(b, p) + 2, p + n))
    } else {
        0
    }
}

/// Commas, assignment operators and `=` let the next line continue the statement.
pub open spec fn sets_cont(tag: TokenTag) -> bool {
    tag == TokenTag::OpAssignBitAnd
        || tag == TokenTag::OpAssignBitNot
        || tag == TokenTag::OpAssignBitOr
        || tag == TokenTag::OpAssignBitXor
        || tag == TokenTag::OpAssignDiv
        || tag == TokenTag::OpAssignMinus
        || tag == TokenTag::OpAssignMod
        || tag == TokenTag::OpAssignMul
        || tag == TokenTag::OpAssignNullCoalesce
        || tag == TokenTag::OpAssignPlus
        || tag == TokenTag::OpAssignPow
        || tag == TokenTag::OpAssignShl
        || tag == TokenTag::OpAssignShr
        || tag == TokenTag::OpComma
        || tag == TokenTag::OpIsLexer
}

/// The opening bracket of a rule, if it is one.
pub open spec fn opening(tag: TokenTag) -> Option<Bracket> {
    match tag {
        TokenTag::OpOpenParen => Some(Bracket::OpenParen),
        TokenTag::OpOpenSquareBracket => Some(Bracket::OpenSquareBracket),
        TokenTag::OpOpenBrace => Some(Bracket::OpenBrace),
        _ => None,
    }
}

/// The closing bracket of a rule, if it is one.
pub open spec fn closing(tag: TokenTag) -> Option<Bracket> {
    match tag {
        TokenTag::OpCloseParen => Some(Bracket::CloseParen),
        TokenTag::OpCloseSquareBracket => Some(Bracket::CloseSquareBracket),
        TokenTag::OpCloseBrace => Some(Bracket::CloseBrace),
        _ => None,
    }
}

/// The `n` bytes at `p` spell `w`.
pub open spec fn word_is(b: Seq<u8>, p: int, n: int, w: Seq<u8>) -> bool {
    n == w.len() && 0 <= p && p + n <= b.len() && b.subrange(p, p + n) == w
}

/// The keyword `w` in lower case or in upper case.
pub open spec fn keyword_is(b: Seq<u8>, p: int, n: int, lower: Seq<u8>, upper: Seq<u8>) -> bool {
    word_is(b, p, n, lower) || word_is(b, p, n, upper)
}

/// `define`
pub open spec fn kw_define() -> (Seq<u8>, Seq<u8>) {
    (seq![0x64u8, 0x65, 0x66, 0x69, 0x6e, 0x65], seq![0x44u8, 0x45, 0x46, 0x49, 0x4e, 0x45])
}

/// `module`
pub open spec fn kw_module() -> (Seq<u8>, Seq<u8>) {
    (seq![0x6du8, 0x6f, 0x64, 0x75, 0x6c, 0x65], seq![0x4du8, 0x4f, 0x44, 0x55, 0x4c, 0x45])
}

/// `with`
pub open spec fn kw_with() -> (Seq<u8>, Seq<u8>) {
    (seq![0x77u8, 0x69, 0x74, 0x68], seq![0x57u8, 0x49, 0x54, 0x48])
}

/// The progress towards a module block after a token of rule `tag` at `p` of length `n`: a
/// plain identifier moves it on when it is the next of `define`, `module`, any identifier and
/// `with`; an escaped identifier moves it on when it is the identifier that is due.
pub open spec fn next_prec(b: Seq<u8>, prec: u8, tag: TokenTag, p: int, n: int) -> u8 {
    if tag == TokenTag::PlainIdentifier {
        if prec == 0 {
            if keyword_is(b, p, n, kw_define().0, kw_define().1) { 1 } else { 0 }
        } else if prec == 1 {
            if keyword_is(b, p, n, kw_module().0, kw_module().1) { 2 } else { 1 }
        } else if prec == 2 {
            3
        } else if prec == 3 {
            if keyword_is(b, p, n, kw_with().0, kw_with().1) { 4 } else { 3 }
        } else {
            prec
        }
    } else if tag == TokenTag::EscapedIdentifier && prec == 2 {
        3
    } else {
        prec
    }
}

/// The character whose encoding starts at byte `p` of the input `b`.
pub open spec fn char_at(b: Seq<u8>, p: int) -> char {
    decode_utf8(b.subrange(p, b.len() as int))[0]
}

/// The token at the cursor `p` of `st`, by the first rule that matches there.
pub open spec fn token_step(b: Seq<u8>, st: LexView) -> (LexView, Lexed) {
    let p = st.cursor;
    match rule_at(b, p) {
        None => (
            st,
            Lexed::Failed(
                LexerError::UnexpectedCharacter {
                    span: core::ops::Range { start: p as usize, end: (p + 1) as usize },
                    character: char_at(b, p),
                },
            ),
        ),
        Some((tag, n)) => {
            if closing(tag) is Some {
                let popped = LexView {
                    stack: if st.stack.len() > 0 { st.stack.drop_last() } else { st.stack },
                    ..st
                };
                if st.stack.len() > 0 && st.stack.last() == opposite_spec(closing(tag).unwrap()) {
                    (
                        LexView { cursor: p + n, ..popped },
                        Lexed::Token { start: p, end: p + n, tag, text: Seq::empty(), flags: 0 },
                    )
                } else {
                    (
                        popped,
                        Lexed::Failed(
                            LexerError::MismatchedBracket {
                                span: core::ops::Range { start: p as usize, end: (p + 1) as usize },
                                expected: if st.stack.len() > 0 {
                                    Some(opposite_spec(st.stack.last()))
                                } else {
                                    None
                                },
                                found: closing(tag).unwrap(),
                            },
                        ),
                    )
                }
            } else {
                (
                    LexView {
                        cursor: p + n,
                        stack: if opening(tag) is Some {
                            st.stack.push(opening(tag).unwrap())
                        } else {
                            st.stack
                        },
                        cont: if sets_cont(tag) { true } else { st.cont },
                        prec: next_prec(b, st.prec, tag, p, n),
                    },
                    Lexed::Token {
                        start: p,
                        end: p + n,
                        tag,
                        text: tag_text(b, tag, p, n),
                        flags: tag_flags(b, tag, p, n),
                    },
                )
            }
        },
    }
}

/// One step of the lexer on the input with bytes `b`, from the state `st`: the new state and
/// what the step gives.
pub open spec fn lex_step(b: Seq<u8>, st: LexView) -> (LexView, Lexed) {
    let c = st.cursor;
    if c >= b.len() {
        (st, Lexed::End)
    } else if st.prec == 4 {
        let n = module_block_len(b, c);
        if n > 0 {
            (
                LexView { cursor: c + n - 3, prec: 0, ..st },
                Lexed::Token {
                    start: c,
                    end: c + n - 3,
                    tag: TokenTag::ModuleBlock,
                    text: b.subrange(c, c + n - 3),
                    flags: 0,
                },
            )
        } else {
            (
                LexView { prec: 0, ..st },
                Lexed::Failed(
                    LexerError::UnableToLexModuleBlock {
                        span: core::ops::Range { start: c as usize, end: (c + 1) as usize },
                    },
                ),
            )
        }
    } else {
        let (k, cont) = skip_step(b, st);
        let st1 = LexView { cursor: c + k, cont, ..st };
        if c + k >= b.len() {
            (st1, Lexed::End)
        } else {
            token_step(b, st1)
        }
    }
}

/// The step from `st` is not defined: it reaches a plain identifier while the progress towards a
/// module block is beyond complete.
pub open spec fn step_undefined(b: Seq<u8>, st: LexView) -> bool {
    let c = st.cursor;
    let p = c + skip_step(b, st).0;
    &&& c < b.len()
    &&& st.prec != 4
    &&& p < b.len()
    &&& rule_at(b, p) matches Some((tag, _)) && tag == TokenTag::PlainIdentifier && st.prec > 4
}

/// The end of a match, the ends of its text and the start of its flags are character
/// boundaries, in this order within the match.
pub open spec fn rule_bounds_ok(b: Seq<u8>, p: int, tag: TokenTag, n: int) -> bool {
    &&& 0 < n
    &&& p + n <= b.len()
    &&& is_char_boundary(b, p + n)
    &&& tag_has_text(tag) ==> {
        &&& p <= text_start(b, tag, p, n) <= text_end(b, tag, p, n) <= p + n
        &&& is_char_boundary(b, text_start(b, tag, p, n))
        &&& is_char_boundary(b, text_end(b, tag, p, n))
    }
    &&& tag == TokenTag::RegexLiteral ==> {
        &&& text_end(b, tag, p, n) + 2 <= p + n
        &&& is_char_boundary(b, text_end(b, tag, p, n) + 2)
    }
}

/// A match that ends with a byte below 0x80 ends at a boundary.
proof fn lemma_ends_ascii(b: Seq<u8>, p: int, n: int)
    requires
        valid_utf8(b),
        0 <= p,
        0 < n,
        p + n <= b.len(),
        b[p + n - 1] <= 0x7f,
    ensures
        is_char_boundary(b, p + n),
{
    lemma_after_ascii(b, p + n - 1);
}

/// The last byte of an identifier is below 0x80.
proof fn lemma_plain_ident_last(b: Seq<u8>, p: int)
    requires
        0 <= p,
        plain_ident_len(b, p) > 0,
    ensures
        p + plain_ident_len(b, p) <= b.len(),
        b[p + plain_ident_len(b, p) - 1] <= 0x7f,
{
    if ident_run(b, p + 1) > 0 {
        lemma_ident_run_last(b, p + 1);
    }
}

/// The last byte of a string literal is its quote.
proof fn lemma_string_last(b: Seq<u8>, p: int)
    requires
        0 <= p,
        string_len(b, p) > 0,
    ensures
        p + string_len(b, p) <= b.len(),
        b[p + string_len(b, p) - 1] <= 0x7f,
        string_len(b, p) >= 2,
        b[p] <= 0x7f,
{
    if byte_is(b, p, 0x27) && str_body(b, p + 1, 0x27) > 0 {
        lemma_str_body_last(b, p + 1, 0x27);
    } else {
        lemma_str_body_last(b, p + 1, 0x22);
    }
}

proof fn lemma_word_rule_bounds(b: Seq<u8>, p: int)
    requires
        valid_utf8(b),
        0 <= p < b.len(),
        is_char_boundary(b, p),
        word_rule(b, p) is Some,
    ensures
        rule_bounds_ok(b, p, word_rule(b, p).unwrap().0, word_rule(b, p).unwrap().1),
{
    let (tag, n) = word_rule(b, p).unwrap();
    if terminator_len(b, p) > 0 {
        if byte_is(b, p, 0x3b) || byte_is(b, p, 0x0a) {
            lemma_after_ascii(b, p);
            lemma_ws_run_whole(b, p + 1);
            lemma_whole_chars_boundary(b, p + 1, p + 1 + ws_run(b, p + 1));
            assert(rule_bounds_ok(b, p, tag, n));
        } else {
            lemma_after_ascii(b, p + 1);
            lemma_ws_run_whole(b, p + 2);
            lemma_whole_chars_boundary(b, p + 2, p + 2 + ws_run(b, p + 2));
            assert(rule_bounds_ok(b, p, tag, n));
        }
    } else if byte_string_len(b, p) > 0 {
        lemma_string_last(b, p + 1);
        lemma_ends_ascii(b, p, n);
        lemma_after_ascii(b, p + 1);
        lemma_ascii_boundary(b, p + n - 1);
        assert(rule_bounds_ok(b, p, tag, n));
    } else if plain_ident_len(b, p) > 0 {
        lemma_plain_ident_last(b, p);
        lemma_ends_ascii(b, p, n);
        assert(rule_bounds_ok(b, p, tag, n));
    } else if escaped_ident_len(b, p) > 0 {
        lemma_ends_ascii(b, p, n);
        lemma_after_ascii(b, p);
        lemma_ascii_boundary(b, p + n - 1);
        assert(rule_bounds_ok(b, p, tag, n));
    } else if variable_len(b, p) > 0 {
        lemma_plain_ident_last(b, p + 1);
        lemma_ends_ascii(b, p, n);
        lemma_after_ascii(b, p);
        assert(rule_bounds_ok(b, p, tag, n));
    } else if string_len(b, p) > 0 {
        lemma_string_last(b, p);
        lemma_ends_ascii(b, p, n);
        lemma_after_ascii(b, p);
        lemma_ascii_boundary(b, p + n - 1);
        assert(rule_bounds_ok(b, p, tag, n));
    } else {
        let e = regex_body_end(b, p);
        lemma_regex_close(b, p + 3);
        lemma_after_ascii(b, p + 1);
        lemma_ascii_boundary(b, e);
        lemma_after_ascii(b, e + 1);
        lemma_flags_run_nonneg(b, e + 2);
        if flags_run(b, e + 2) > 0 {
            lemma_flags_run_last(b, e + 2);
            lemma_ends_ascii(b, p, n);
        }
    }
}

proof fn lemma_fixed_rule_bounds(b: Seq<u8>, p: int)
    requires
        valid_utf8(b),
        0 <= p < b.len(),
        is_char_boundary(b, p),
        fixed_rule(b, p) is Some,
    ensures
        rule_bounds_ok(b, p, fixed_rule(b, p).unwrap().0, fixed_rule(b, p).unwrap().1),
{
    let (tag, n) = fixed_rule(b, p).unwrap();
    assert(0 < n <= 3 && p + n <= b.len());
    assert(!tag_has_text(tag));
    if b[p + n - 1] <= 0x7f {
        lemma_ends_ascii(b, p, n);
    } else {
        assert(lead_width(b[p]) == n);
        lemma_boundary_step(b, p);
    }
}

proof fn lemma_number_rule_bounds(b: Seq<u8>, p: int)
    requires
        valid_utf8(b),
        0 <= p < b.len(),
        is_char_boundary(b, p),
        number_rule(b, p) is Some,
    ensures
        rule_bounds_ok(b, p, number_rule(b, p).unwrap().0, number_rule(b, p).unwrap().1),
{
    let (tag, n) = number_rule(b, p).unwrap();
    if radix_len(b, p, 0x78, 16) > 0 || radix_len(b, p, 0x6f, 8) > 0 || radix_len(b, p, 0x62, 2) > 0 {
        let radix: u8 = if radix_len(b, p, 0x78, 16) > 0 {
            16
        } else if radix_len(b, p, 0x6f, 8) > 0 {
            8
        } else {
            2
        };
        if radix_tail(b, p + 3, radix) > 0 {
            lemma_radix_tail_last(b, p + 3, radix);
        }
        lemma_ends_ascii(b, p, n);
        lemma_after_ascii(b, p + 1);
    } else if float_len(b, p) > 0 {
        lemma_float_whole(b, p);
        lemma_whole_chars_boundary(b, p, p + n);
    } else if digits(b, p) > 0 {
        lemma_digits_whole(b, p);
        lemma_whole_chars_boundary(b, p, p + n);
    } else {
        lemma_ends_ascii(b, p, n);
    }
}

/// A match at a boundary ends at a boundary, and so do its text and its flags.
pub proof fn lemma_rule_bounds(b: Seq<u8>, p: int)
    requires
        valid_utf8(b),
        0 <= p < b.len(),
        is_char_boundary(b, p),
        rule_at(b, p) is Some,
    ensures
        rule_bounds_ok(b, p, rule_at(b, p).unwrap().0, rule_at(b, p).unwrap().1),
{
    if word_rule(b, p) is Some {
        lemma_word_rule_bounds(b, p);
    } else if fixed_rule(b, p) is Some {
        lemma_fixed_rule_bounds(b, p);
    } else {
        lemma_number_rule_bounds(b, p);
    }
}

/// Skipping from a boundary ends at a boundary.
pub proof fn lemma_skip_bounds(b: Seq<u8>, st: LexView)
    requires
        valid_utf8(b),
        0 <= st.cursor < b.len(),
        is_char_boundary(b, st.cursor),
    ensures
        st.cursor + skip_step(b, st).0 <= b.len(),
        is_char_boundary(b, st.cursor + skip_step(b, st).0),
{
    let p = st.cursor;
    lemma_ws_run_whole(b, p);
    let q = p + ws_run(b, p);
    if comment_len(b, p) > 0 {
        lemma_line_run_end(b, q + 2);
        lemma_ascii_boundary(b, q + 2 + line_run(b, q + 2));
    } else if backslash_len(b, p) > 0 {
        if byte_is(b, q + 1, 0x0a) {
            lemma_after_ascii(b, q + 1);
            lemma_ws_run_whole(b, q + 2);
            lemma_whole_chars_boundary(b, q + 2, q + 2 + ws_run(b, q + 2));
        } else {
            lemma_after_ascii(b, q + 2);
            lemma_ws_run_whole(b, q + 3);
            lemma_whole_chars_boundary(b, q + 3, q + 3 + ws_run(b, q + 3));
        }
    } else if ws_run(b, p) > 0 {
        lemma_whole_chars_boundary(b, p, q);
        lemma_hspace_run_end(b, p);
        lemma_ascii_whole_chars(b, p, p + hspace_run(b, p));
        lemma_whole_chars_boundary(b, p, p + hspace_run(b, p));
    }
}

/// A lexer for the `zeroql` language.
#[derive(Debug, Clone)]
pub struct Lexer<'a> {
    /// The input string.
    pub string: &'a str,
    /// The state of the lexer.
    pub state: LexerState,
}

/// The character whose encoding starts at byte `p` of `s`.
fn char_at_exec(s: &str, p: usize) -> (c: char)
    requires
        p < s.spec_bytes().len(),
        is_char_boundary(s.spec_bytes(), p as int),
    ensures
        c == char_at(s.spec_bytes(), p as int),
{
    let bytes = s.as_bytes();
    let ghost b = s.spec_bytes();
    proof {
        encode_utf8_valid_utf8(s@);
        is_char_boundary_start_end_of_seq(b);
    }
    let tail = str_slice(s, p, bytes.len());
    proof {
        if tail@.len() == 0 {
            assert(encode_utf8(tail@) =~= Seq::<u8>::empty());
        }
        encode_utf8_decode_utf8(tail@);
        assert(decode_utf8(b.subrange(p as int, b.len() as int)) == tail@);
    }
    tail.get_char(0)
}

fn closing_exec(tag: TokenTag) -> (r: Option<Bracket>)
    ensures
        r == closing(tag),
{
    match tag {
        TokenTag::OpCloseParen => Some(Bracket::CloseParen),
        TokenTag::OpCloseSquareBracket => Some(Bracket::CloseSquareBracket),
        TokenTag::OpCloseBrace => Some(Bracket::CloseBrace),
        _ => None,
    }
}

fn opening_exec(tag: TokenTag) -> (r: Option<Bracket>)
    ensures
        r == opening(tag),
{
    match tag {
        TokenTag::OpOpenParen => Some(Bracket::OpenParen),
        TokenTag::OpOpenSquareBracket => Some(Bracket::OpenSquareBracket),
        TokenTag::OpOpenBrace => Some(Bracket::OpenBrace),
        _ => None,
    }
}

fn sets_cont_exec(tag: TokenTag) -> (r: bool)
    ensures
        r == sets_cont(tag),
{
    match tag {
        TokenTag::OpComma | TokenTag::OpAssignPlus | TokenTag::OpAssignMinus
        | TokenTag::OpAssignMul | TokenTag::OpAssignDiv | TokenTag::OpAssignMod
        | TokenTag::OpAssignPow | TokenTag::OpAssignShl | TokenTag::OpAssignShr
        | TokenTag::OpAssignBitAnd | TokenTag::OpAssignBitOr | TokenTag::OpAssignBitXor
        | TokenTag::OpAssignBitNot | TokenTag::OpAssignNullCoalesce | TokenTag::OpIsLexer => true,
        _ => false,
    }
}

fn has_text_exec(tag: TokenTag) -> (r: bool)
    ensures
        r == tag_has_text(tag),
{
    match tag {
        TokenTag::PlainIdentifier | TokenTag::EscapedIdentifier | TokenTag::Variable
        | TokenTag::BinIntegerLiteral | TokenTag::OctIntegerLiteral | TokenTag::HexIntegerLiteral
        | TokenTag::DecIntegerLiteral | TokenTag::FloatLiteral | TokenTag::StringLiteral
        | TokenTag::ByteStringLiteral | TokenTag::RegexLiteral | TokenTag::ModuleBlock => true,
        _ => false,
    }
}

fn text_range_exec(b: &[u8], tag: TokenTag, p: usize, n: usize) -> (r: (usize, usize))
    requires
        rule_bounds_ok(b@, p as int, tag, n as int),
        tag_has_text(tag),
        tag != TokenTag::ModuleBlock,
        0 <= p,
    ensures
        r.0 == text_start(b@, tag, p as int, n as int),
        r.1 == text_end(b@, tag, p as int, n as int),
{
    proof {
        lemma_slice_len(b);
    }
    match tag {
        TokenTag::ByteStringLiteral => (p + 2, p + n - 1),
        TokenTag::RegexLiteral => (p + 2, regex_body_end_at(b, p)),
        TokenTag::HexIntegerLiteral | TokenTag::OctIntegerLiteral | TokenTag::BinIntegerLiteral => (
            p + 2,
            p + n,
        ),
        TokenTag::EscapedIdentifier | TokenTag::StringLiteral => (p + 1, p + n - 1),
        TokenTag::Variable => (p + 1, p + n),
        _ => (p, p + n),
    }
}

fn word_is_exec(b: &[u8], p: usize, n: usize, w: &[u8]) -> (r: bool)
    ensures
        r == word_is(b@, p as int, n as int, w@),
{
    proof {
        lemma_slice_len(b);
    }
    if n != w.len() || p > b.len() || n > b.len() - p {
        return false;
    }
    let mut i: usize = 0;
    while i < n
        invariant
            n == w@.len(),
            p + n <= b@.len(),
            b@.len() <= usize::MAX,
            0 <= i <= n,
            forall|k: int| 0 <= k < i ==> b@[p + k] == w@[k],
        decreases n - i,
    {
        if b[p + i] != w[i] {
            assert(b@.subrange(p as int, p + n)[i as int] != w@[i as int]);
            return false;
        }
        i = i + 1;
    }
    assert(b@.subrange(p as int, p + n) =~= w@);
    true
}

fn keyword_is_exec(b: &[u8], p: usize, n: usize, lower: &[u8], upper: &[u8]) -> (r: bool)
    ensures
        r == keyword_is(b@, p as int, n as int, lower@, upper@),
{
    word_is_exec(b, p, n, lower) || word_is_exec(b, p, n, upper)
}

fn next_prec_exec(b: &[u8], prec: u8, tag: TokenTag, p: usize, n: usize) -> (r: u8)
    ensures
        r == next_prec(b@, prec, tag, p as int, n as int),
{
    match tag {
        TokenTag::PlainIdentifier => {
            if prec == 0 {
                let lower: [u8; 6] = [0x64, 0x65, 0x66, 0x69, 0x6e, 0x65];
                let upper: [u8; 6] = [0x44, 0x45, 0x46, 0x49, 0x4e, 0x45];
                assert(lower@ =~= kw_define().0);
                assert(upper@ =~= kw_define().1);
                if keyword_is_exec(b, p, n, &lower, &upper) {
                    1
                } else {
                    0
                }
            } else if prec == 1 {
                let lower: [u8; 6] = [0x6d, 0x6f, 0x64, 0x75, 0x6c, 0x65];
                let upper: [u8; 6] = [0x4d, 0x4f, 0x44, 0x55, 0x4c, 0x45];
                assert(lower@ =~= kw_module().0);
                assert(upper@ =~= kw_module().1);
                if keyword_is_exec(b, p, n, &lower, &upper) {
                    2
                } else {
                    1
                }
            } else if prec == 2 {
                3
            } else if prec == 3 {
                let lower: [u8; 4] = [0x77, 0x69, 0x74, 0x68];
                let upper: [u8; 4] = [0x57, 0x49, 0x54, 0x48];
                assert(lower@ =~= kw_with().0);
                assert(upper@ =~= kw_with().1);
                if keyword_is_exec(b, p, n, &lower, &upper) {
                    4
                } else {
                    3
                }
            } else {
                prec
            }
        },
        TokenTag::EscapedIdentifier => {
            if prec == 2 {
                3
            } else {
                prec
            }
        },
        _ => prec,
    }
}

impl<'a> Lexer<'a> {
    /// The bytes of the input.
    pub open spec fn bytes(&self) -> Seq<u8> {
        self.string.spec_bytes()
    }

    /// The state fits the input: a cursor within the input is at a character boundary of it (a
    /// cursor beyond the end gives the end of the input).
    pub open spec fn wf(&self) -> bool {
        self.state.cursor <= self.bytes().len() ==> is_char_boundary(
            self.bytes(),
            self.state.cursor as int,
        )
    }

    /// Creates a lexer at the start of `string`.
    pub fn from(string: &'a str) -> (l: Self)
        ensures
            l.string == string,
            l.state@.cursor == 0,
            l.state@.stack == Seq::<Bracket>::empty(),
            !l.state@.cont,
            l.state@.prec == 0,
            l.wf(),
    {
        proof {
            encode_utf8_valid_utf8(string@);
            is_char_boundary_start_end_of_seq(string.spec_bytes());
        }
        Lexer { string, state: LexerState::default() }
    }

    /// Skip continuations, whitespaces and comments
    fn skip_superfluous(&mut self) -> (k: usize)
        requires
            old(self).state.cursor <= old(self).bytes().len(),
        ensures
            final(self).string == old(self).string,
            k == skip_step(old(self).bytes(), old(self).state@).0,
            final(self).state@ == (LexView {
                cont: skip_step(old(self).bytes(), old(self).state@).1,
                ..old(self).state@
            }),
    {
        let s = self.string;
        let b = s.as_bytes();
        let p = self.state.cursor;
        let c = comment_len_at(b, p);
        if c > 0 {
            return c;
        }
        let c = backslash_len_at(b, p);
        if c > 0 {
            return c;
        }
        let w = ws_run_at(b, p);
        if w > 0 {
            if self.state.continuation_precedent {
                self.state.continuation_precedent = false;
                return w;
            }
            if self.state.bracket_stack.len() > 0 {
                return w;
            }
            let h = hspace_run_at(b, p);
            if h > 0 {
                return h;
            }
        }
        0
    }

    fn lex_module_block(&mut self) -> (res: LexerResult<Token<'a>>)
        requires
            old(self).wf(),
            old(self).state.cursor < old(self).bytes().len(),
            old(self).state.module_block_precedent == 4,
        ensures
            final(self).string == old(self).string,
            final(self).wf(),
            final(self).state@ == lex_step(old(self).bytes(), old(self).state@).0,
            lexed_agrees(
                match res {
                    Ok(t) => Ok(Some(t)),
                    Err(e) => Err(e),
                },
                lex_step(old(self).bytes(), old(self).state@).1,
            ),
    {
        self.state.module_block_precedent = 0;
        let s = self.string;
        let b = s.as_bytes();
        let c = self.state.cursor;
        proof {
            lemma_slice_len(b);
        }
        let m = module_block_len_at(b, c);
        if m > 0 {
            proof {
                encode_utf8_valid_utf8(s@);
                lemma_module_block_end(b@, c as int, c + 1);
                lemma_ascii_boundary(b@, c + m - 3);
            }
            let end = c + m - 3;
            let text = str_slice(s, c, end);
            self.state.cursor = end;
            Ok(Token::new(c..end, TokenKind::ModuleBlock(text)))
        } else {
            Err(LexerError::UnableToLexModuleBlock { span: c..c + 1 })
        }
    }
    /// The token of rule `tag`, which matches `n` bytes at the cursor.
    fn lex_rule(&mut self, tag: TokenTag, n: usize) -> (res: LexerResult<Option<Token<'a>>>)
        requires
            old(self).wf(),
            old(self).state.cursor < old(self).bytes().len(),
            old(self).state.module_block_precedent != 4,
            rule_at(old(self).bytes(), old(self).state.cursor as int) == Some((tag, n as int)),
        ensures
            final(self).string == old(self).string,
            final(self).wf(),
            final(self).state@ == token_step(old(self).bytes(), old(self).state@).0,
            lexed_agrees(res, token_step(old(self).bytes(), old(self).state@).1),
    {
        let s = self.string;
        let b = s.as_bytes();
        let p = self.state.cursor;
        let ghost st = self.state@;
        proof {
            lemma_slice_len(b);
            encode_utf8_valid_utf8(s@);
            lemma_rule_bounds(b@, p as int);
        }
        if let Some(c) = closing_exec(tag) {
            let top = self.state.bracket_stack.pop();
            proof {
                if st.stack.len() > 0 {
                    assert(self.state.bracket_stack@ =~= st.stack.drop_last());
                }
            }
            match top {
                Some(o) => {
                    if o == c.opposite() {
                        self.state.cursor = p + n;
                        let kind = TokenKind::from_parts(tag, "", RegexFlags::empty());
                        return Ok(Some(Token::new(p..p + n, kind)));
                    }
                    Err(LexerError::MismatchedBracket {
                        span: p..p + 1,
                        expected: Some(o.opposite()),
                        found: c,
                    })
                },
                None => Err(LexerError::MismatchedBracket { span: p..p + 1, expected: None, found: c }),
            }
        } else {
            if let Some(o) = opening_exec(tag) {
                self.state.bracket_stack.push(o);
            }
            if sets_cont_exec(tag) {
                self.state.continuation_precedent = true;
            }
            self.state.module_block_precedent = next_prec_exec(
                b,
                self.state.module_block_precedent,
                tag,
                p,
                n,
            );
            self.state.cursor = p + n;
            let mut flags = RegexFlags::empty();
            let text = if has_text_exec(tag) {
                let (ts, te) = text_range_exec(b, tag, p, n);
                if tag == TokenTag::RegexLiteral {
                    flags = RegexFlags::from(str_slice(s, te + 2, p + n));
                }
                str_slice(s, ts, te)
            } else {
                ""
            };
            let kind = TokenKind::from_parts(tag, text, flags);
            Ok(Some(Token::new(p..p + n, kind)))
        }
    }

    /// Produces the next token in the input string: `None` at the end of the input.
    pub fn next_token(&mut self) -> (res: LexerResult<Option<Token<'a>>>)
        requires
            old(self).wf(),
            !step_undefined(old(self).bytes(), old(self).state@),
        ensures
            final(self).string == old(self).string,
            final(self).wf(),
            final(self).state@ == lex_step(old(self).bytes(), old(self).state@).0,
            lexed_agrees(res, lex_step(old(self).bytes(), old(self).state@).1),
    {
        let s = self.string;
        let b = s.as_bytes();
        proof {
            lemma_slice_len(b);
            encode_utf8_valid_utf8(s@);
        }
        if self.state.cursor >= b.len() {
            return Ok(None);
        }
        if self.state.module_block_precedent == 4 {
            return match self.lex_module_block() {
                Ok(t) => Ok(Some(t)),
                Err(e) => Err(e),
            };
        }
        proof {
            lemma_skip_bounds(b@, self.state@);
        }
        let k = self.skip_superfluous();
        self.state.cursor = self.state.cursor + k;
        if self.state.cursor >= b.len() {
            return Ok(None);
        }
        let p = self.state.cursor;
        match rule_at_exec(b, p) {
            Some((tag, n)) => self.lex_rule(tag, n),
            None => Err(
                LexerError::UnexpectedCharacter { span: p..p + 1, character: char_at_exec(s, p) },
            ),
        }
    }
    /// Produces the next token, or `None` at the end of the input.
    #[allow(clippy::should_implement_trait)]
    pub fn next(&mut self) -> (res: Option<LexerResult<Token<'a>>>)
        requires
            old(self).wf(),
            !step_undefined(old(self).bytes(), old(self).state@),
        ensures
            final(self).string == old(self).string,
            final(self).wf(),
            final(self).state@ == lex_step(old(self).bytes(), old(self).state@).0,
            lexed_agrees(
                match res {
                    None => Ok(None),
                    Some(Ok(t)) => Ok(Some(t)),
                    Some(Err(e)) => Err(e),
                },
                lex_step(old(self).bytes(), old(self).state@).1,
            ),
    {
        match self.next_token() {
            Ok(None) => None,
            Ok(Some(t)) => Some(Ok(t)),
            Err(e) => Some(Err(e)),
        }
    }
}

impl<'a> StateCapture for Lexer<'a> {
    type State = LexerState;

    /// A copy of the state of the lexer.
    fn get_state(&self) -> (r: LexerState)
        ensures
            r@ == self.state@,
    {
        self.state.copy()
    }

    /// Puts the lexer in the given state.
    fn set_state(&mut self, state: LexerState)
        ensures
            final(self).string == old(self).string,
            final(self).state == state,
    {
        self.state = state;
    }
}

} // verus!

//! What holds of every step of the lexer, and of steps in a row.

use vstd::prelude::*;
use vstd::utf8::*;

use super::lexer::{
    char_at, closing, keyword_is, kw_with, lemma_rule_bounds, lemma_skip_bounds, lex_step, opening,
    opposite_spec, rule_bounds_ok, sets_cont, skip_step, tag_text, text_end, text_start, token_step,
    Bracket,
    LexView, Lexed,
};
use super::rules::rule_at;
use super::scan::{
    byte_string_len, end_word_at, lemma_module_block_end, module_block_len, str_body, string_len,
    ws_run,
};
use super::errors::LexerError;
use super::display::token_display;
use super::token::{tag_has_text, TokenKind, TokenTag};
use super::utf8::lemma_ascii_boundary;

verus! {

/// An opening bracket.
pub open spec fn is_opening(b: Bracket) -> bool {
    b == Bracket::OpenParen || b == Bracket::OpenSquareBracket || b == Bracket::OpenBrace
}

/// Pairing brackets twice gives the bracket back, and pairs an opening bracket with a closing
/// one.
pub proof fn lemma_opposite_pairs(b: Bracket)
    ensures
        opposite_spec(opposite_spec(b)) == b,
        is_opening(b) <==> !is_opening(opposite_spec(b)),
{
}

/// The state fits the input `b`: the cursor is at a character boundary of it.
pub open spec fn state_fits(b: Seq<u8>, st: LexView) -> bool {
    &&& 0 <= st.cursor <= b.len()
    &&& is_char_boundary(b, st.cursor)
}

/// The bracket stack holds opening brackets only.
pub open spec fn stack_opening(st: LexView) -> bool {
    forall|i: int| 0 <= i < st.stack.len() ==> is_opening(#[trigger] st.stack[i])
}

/// A step keeps a bracket stack of opening brackets only; the lexer starts with an empty stack,
/// so every stack that it reaches holds opening brackets only.
pub proof fn lemma_stack_opening(b: Seq<u8>, st: LexView)
    requires
        stack_opening(st),
    ensures
        stack_opening(lex_step(b, st).0),
{
}

proof fn lemma_token_step_fits(b: Seq<u8>, chars: Seq<char>, st: LexView)
    requires
        b == encode_utf8(chars),
        state_fits(b, st),
        st.cursor < b.len(),
        st.prec != 4,
    ensures
        state_fits(b, token_step(b, st).0),
        token_step(b, st).0.cursor >= st.cursor,
        token_step(b, st).1 matches Lexed::Token { start, end, tag, text, flags } ==> {
            &&& start == st.cursor
            &&& start < end
            &&& end == token_step(b, st).0.cursor
            &&& tag_has_text(tag) ==> {
                &&& start <= text_start(b, tag, start, end - start)
                &&& text_start(b, tag, start, end - start) <= text_end(b, tag, start, end - start)
                &&& text_end(b, tag, start, end - start) <= end
                &&& text == b.subrange(
                    text_start(b, tag, start, end - start),
                    text_end(b, tag, start, end - start),
                )
            }
            &&& !tag_has_text(tag) ==> text == Seq::<u8>::empty()
        },
{
    encode_utf8_valid_utf8(chars);
    let p = st.cursor;
    if rule_at(b, p) is Some {
        lemma_rule_bounds(b, p);
    }
}

/// Every step keeps the state fitting the input, and the cursor never moves back. A token
/// starts at or after the cursor, is not empty, and the cursor moves to its end; its text is the
/// part of the input between two places within the token, or empty for kinds without text. The
/// end of the input is reported only when the cursor has reached it.
pub proof fn lemma_step_progress(b: Seq<u8>, chars: Seq<char>, st: LexView)
    requires
        b == encode_utf8(chars),
        state_fits(b, st),
    ensures
        state_fits(b, lex_step(b, st).0),
        lex_step(b, st).0.cursor >= st.cursor,
        lex_step(b, st).1 is End ==> lex_step(b, st).0.cursor == b.len(),
        lex_step(b, st).1 matches Lexed::Token { start, end, tag, text, flags } ==> {
            &&& st.cursor <= start < end
            &&& end == lex_step(b, st).0.cursor
            &&& exists|ts: int, te: int|
                start <= ts <= te <= end && text == #[trigger] b.subrange(ts, te)
        },
{
    encode_utf8_valid_utf8(chars);
    let c = st.cursor;
    if c >= b.len() {
    } else if st.prec == 4 {
        let n = module_block_len(b, c);
        if n > 0 {
            lemma_module_block_end(b, c, c + 1);
            lemma_ascii_boundary(b, c + n - 3);
        }
    } else {
        lemma_skip_bounds(b, st);
        let (k, cont) = skip_step(b, st);
        let st1 = LexView { cursor: c + k, cont, ..st };
        if c + k < b.len() {
            lemma_token_step_fits(b, chars, st1);
            let r = token_step(b, st1).1;
            if let Lexed::Token { start, tag, text, .. } = r {
                if !tag_has_text(tag) {
                    assert(text == b.subrange(start, start));
                }
            }
        }
    }
}

/// Once a step has reported the end of the input, every later step reports it again and leaves
/// the state as it is.
pub proof fn lemma_end_is_final(b: Seq<u8>, chars: Seq<char>, st: LexView)
    requires
        b == encode_utf8(chars),
        state_fits(b, st),
        lex_step(b, st).1 is End,
    ensures
        lex_step(b, lex_step(b, st).0) == (lex_step(b, st).0, Lexed::End),
{
    lemma_step_progress(b, chars, st);
}

/// Tokens come out in order and do not overlap: after a token, the next token starts at or after
/// its end.
pub proof fn lemma_tokens_in_order(b: Seq<u8>, chars: Seq<char>, st: LexView)
    requires
        b == encode_utf8(chars),
        state_fits(b, st),
        lex_step(b, st).1 is Token,
        lex_step(b, lex_step(b, st).0).1 is Token,
    ensures
        lex_step(b, st).1->end <= lex_step(b, lex_step(b, st).0).1->start,
{
    lemma_step_progress(b, chars, st);
    lemma_step_progress(b, chars, lex_step(b, st).0);
}

/// The rule of the token that a step gives, if it gives one.
pub open spec fn token_tag(r: Lexed) -> Option<TokenTag> {
    match r {
        Lexed::Token { tag, .. } => Some(tag),
        _ => None,
    }
}

/// The bracket that a mismatch report names as expected, if the step reports one.
pub open spec fn mismatch_expected(r: Lexed) -> Option<Option<Bracket>> {
    match r {
        Lexed::Failed(LexerError::MismatchedBracket { expected, .. }) => Some(expected),
        _ => None,
    }
}

/// A closing bracket comes out as a token only when it closes the innermost open bracket, which
/// it then removes from the stack; an opening bracket is pushed on the stack; other tokens leave
/// the stack as it is; a closing bracket that does not match is reported as a mismatch that names
/// the bracket that was expected, if any, and the innermost bracket is dropped all the same.
pub proof fn lemma_brackets(b: Seq<u8>, chars: Seq<char>, st: LexView)
    requires
        b == encode_utf8(chars),
        state_fits(b, st),
    ensures
        ({
            let ns = lex_step(b, st).0;
            let r = lex_step(b, st).1;
            match token_tag(r) {
                Some(tag) => if closing(tag) is Some {
                    &&& st.stack.len() > 0
                    &&& opposite_spec(st.stack.last()) == closing(tag).unwrap()
                    &&& ns.stack == st.stack.drop_last()
                } else if opening(tag) is Some {
                    ns.stack == st.stack.push(opening(tag).unwrap())
                } else {
                    ns.stack == st.stack
                },
                None => match mismatch_expected(r) {
                    Some(expected) => {
                        &&& st.stack.len() > 0 ==> expected == Some(opposite_spec(st.stack.last()))
                            && ns.stack == st.stack.drop_last()
                        &&& st.stack.len() == 0 ==> expected is None && ns.stack == st.stack
                    },
                    None => ns.stack == st.stack,
                },
            }
        }),
{
}

/// After `define`, `module`, a name and `with`, the next step lexes a module block: a token that
/// starts at the cursor and is followed in the input by `end` or `END`, or, where no such word
/// closes it, an error at the cursor; either way the progress starts again from nothing.
pub proof fn lemma_module_block(b: Seq<u8>, chars: Seq<char>, st: LexView)
    requires
        b == encode_utf8(chars),
        state_fits(b, st),
        st.cursor < b.len(),
        st.prec == 4,
    ensures
        lex_step(b, st).0.prec == 0,
        match lex_step(b, st).1 {
            Lexed::Token { start, end, tag, text, .. } => {
                &&& tag == TokenTag::ModuleBlock
                &&& start == st.cursor
                &&& text == b.subrange(start, end)
                &&& end_word_at(b, end)
            },
            Lexed::Failed(e) => e == LexerError::UnableToLexModuleBlock {
                span: core::ops::Range { start: st.cursor as usize, end: (st.cursor + 1) as usize },
            },
            Lexed::End => false,
        },
{
    let n = module_block_len(b, st.cursor);
    if n > 0 {
        lemma_module_block_end(b, st.cursor, st.cursor + 1);
    }
}

/// A step that fails at a token reports the one byte at the cursor after skipping, where the
/// cursor then stays; an unexpected character is the character at that position of the input.
pub proof fn lemma_errors_at_cursor(b: Seq<u8>, chars: Seq<char>, st: LexView)
    requires
        b == encode_utf8(chars),
        b.len() <= usize::MAX,
        state_fits(b, st),
    ensures
        ({
            let ns = lex_step(b, st).0;
            match lex_step(b, st).1 {
                Lexed::Failed(LexerError::UnexpectedCharacter { span, character }) => {
                    &&& span.start == ns.cursor
                    &&& span.end == span.start + 1
                    &&& ns.cursor < b.len()
                    &&& character == char_at(b, ns.cursor)
                    &&& rule_at(b, ns.cursor) is None
                },
                Lexed::Failed(LexerError::MismatchedBracket { span, found, .. }) => {
                    &&& span.start == ns.cursor
                    &&& span.end == span.start + 1
                    &&& ns.cursor < b.len()
                    &&& rule_at(b, ns.cursor) matches Some((tag, _)) && closing(tag) == Some(found)
                },
                Lexed::Failed(LexerError::UnableToLexModuleBlock { span }) => {
                    &&& span.start == ns.cursor
                    &&& span.end == span.start + 1
                },
                _ => true,
            }
        }),
{
    lemma_step_progress(b, chars, st);
}

/// A comma or an assignment operator sets the continuation flag; the flag is set by no other
/// step, and only a skip over white space clears it.
pub proof fn lemma_continuation(b: Seq<u8>, chars: Seq<char>, st: LexView)
    requires
        b == encode_utf8(chars),
        state_fits(b, st),
    ensures
        ({
            let ns = lex_step(b, st).0;
            let r = lex_step(b, st).1;
            &&& (token_tag(r) matches Some(tag) && sets_cont(tag)) ==> ns.cont
            &&& (ns.cont && !st.cont) ==> (token_tag(r) matches Some(tag) && sets_cont(tag))
            &&& (st.cont && !ns.cont) ==> skip_step(b, st).0 > 0 && ws_run(b, st.cursor) > 0
        }),
{
}

/// The progress towards a module block reaches 4 only through the word `with` or `WITH`, as a
/// plain identifier that follows `define`, `module` and a name; the module block that comes next
/// sets it back to 0.
pub proof fn lemma_module_block_progress(b: Seq<u8>, chars: Seq<char>, st: LexView)
    requires
        b == encode_utf8(chars),
        state_fits(b, st),
    ensures
        ({
            let ns = lex_step(b, st).0;
            let r = lex_step(b, st).1;
            &&& (ns.prec == 4 && st.prec != 4) ==> {
                &&& st.prec == 3
                &&& r matches Lexed::Token { start, end, tag, .. }
                &&& tag == TokenTag::PlainIdentifier
                &&& keyword_is(b, start, end - start, kw_with().0, kw_with().1)
            }
            &&& (st.prec == 4 && st.cursor < b.len()) ==> ns.prec == 0
        }),
{
}

/// The kinds whose tokens are written back as the text they were lexed from.
pub open spec fn written_as_lexed(tag: TokenTag) -> bool {
    tag == TokenTag::PlainIdentifier || tag == TokenTag::EscapedIdentifier || tag
        == TokenTag::Variable || tag == TokenTag::BinIntegerLiteral || tag
        == TokenTag::OctIntegerLiteral || tag == TokenTag::HexIntegerLiteral || tag
        == TokenTag::DecIntegerLiteral || tag == TokenTag::FloatLiteral
}

proof fn lemma_encode_concat(a: Seq<char>, c: Seq<char>)
    ensures
        encode_utf8(a + c) == encode_utf8(a) + encode_utf8(c),
    decreases a.len(),
{
    if a.len() == 0 {
        assert(a + c =~= c);
        assert(encode_utf8(a) + encode_utf8(c) =~= encode_utf8(c));
    } else {
        assert((a + c).drop_first() =~= a.drop_first() + c);
        assert((a + c)[0] == a[0]);
        lemma_encode_concat(a.drop_first(), c);
        assert(encode_utf8(a + c) =~= encode_utf8(a) + encode_utf8(c));
    }
}

proof fn lemma_encode_ascii2(a: Seq<char>, x: u8, y: u8)
    requires
        a.len() == 2,
        a[0] as u8 == x && '\0' <= a[0] <= '\u{7f}',
        a[1] as u8 == y && '\0' <= a[1] <= '\u{7f}',
    ensures
        encode_utf8(a) == seq![x, y],
{
    assert(is_ascii_chars(a));
    is_ascii_chars_encode_utf8(a);
    assert(encode_utf8(a) =~= seq![x, y]);
}

proof fn lemma_encode_ascii1(a: Seq<char>, x: u8)
    requires
        a.len() == 1,
        a[0] as u8 == x && '\0' <= a[0] <= '\u{7f}',
    ensures
        encode_utf8(a) == seq![x],
{
    assert(is_ascii_chars(a));
    is_ascii_chars_encode_utf8(a);
    assert(encode_utf8(a) =~= seq![x]);
}

proof fn lemma_lexed_token(b: Seq<u8>, chars: Seq<char>, st: LexView)
    requires
        b == encode_utf8(chars),
        state_fits(b, st),
        lex_step(b, st).1 is Token,
        lex_step(b, st).1->tag != TokenTag::ModuleBlock,
    ensures
        ({
            let r = lex_step(b, st).1;
            &&& 0 <= r->start
            &&& rule_at(b, r->start) == Some((r->tag, r->end - r->start))
            &&& rule_bounds_ok(b, r->start, r->tag, r->end - r->start)
            &&& r->text == tag_text(b, r->tag, r->start, r->end - r->start)
        }),
{
    encode_utf8_valid_utf8(chars);
    let c = st.cursor;
    if c < b.len() && st.prec != 4 {
        lemma_skip_bounds(b, st);
        let (sk, cont) = skip_step(b, st);
        let p = c + sk;
        if p < b.len() && rule_at(b, p) is Some {
            lemma_rule_bounds(b, p);
        }
    }
}

proof fn lemma_written_plain(b: Seq<u8>, p: int, n: int, k: TokenKind)
    requires
        0 <= p,
        rule_bounds_ok(b, p, k.tag(), n),
        k.text() == tag_text(b, k.tag(), p, n),
        k.tag() == TokenTag::PlainIdentifier || k.tag() == TokenTag::DecIntegerLiteral || k.tag()
            == TokenTag::FloatLiteral,
    ensures
        encode_utf8(token_display(k)) == b.subrange(p, p + n),
{
}

proof fn lemma_written_escaped(b: Seq<u8>, p: int, n: int, k: TokenKind)
    requires
        0 <= p,
        rule_at(b, p) == Some((k.tag(), n)),
        rule_bounds_ok(b, p, k.tag(), n),
        k.text() == tag_text(b, k.tag(), p, n),
        k.tag() == TokenTag::EscapedIdentifier,
    ensures
        encode_utf8(token_display(k)) == b.subrange(p, p + n),
{
    reveal_strlit("`");
    if let TokenKind::EscapedIdentifier(s) = k {
        lemma_encode_concat("`"@ + s@, "`"@);
        lemma_encode_concat("`"@, s@);
        lemma_encode_ascii1("`"@, 0x60);
        assert(b.subrange(p, p + n) =~= seq![0x60u8] + b.subrange(p + 1, p + n - 1) + seq![0x60u8]);
    }
}

proof fn lemma_written_variable(b: Seq<u8>, p: int, n: int, k: TokenKind)
    requires
        0 <= p,
        rule_at(b, p) == Some((k.tag(), n)),
        rule_bounds_ok(b, p, k.tag(), n),
        k.text() == tag_text(b, k.tag(), p, n),
        k.tag() == TokenTag::Variable,
    ensures
        encode_utf8(token_display(k)) == b.subrange(p, p + n),
{
    reveal_strlit("$");
    if let TokenKind::Variable(s) = k {
        lemma_encode_concat("$"@, s@);
        lemma_encode_ascii1("$"@, 0x24);
        assert(b.subrange(p, p + n) =~= seq![0x24u8] + b.subrange(p + 1, p + n));
    }
}

proof fn lemma_written_radix(b: Seq<u8>, p: int, n: int, k: TokenKind)
    requires
        0 <= p,
        rule_at(b, p) == Some((k.tag(), n)),
        rule_bounds_ok(b, p, k.tag(), n),
        k.text() == tag_text(b, k.tag(), p, n),
        k.tag() == TokenTag::BinIntegerLiteral || k.tag() == TokenTag::OctIntegerLiteral || k.tag()
            == TokenTag::HexIntegerLiteral,
    ensures
        encode_utf8(token_display(k)) == b.subrange(p, p + n),
{
    reveal_strlit("0b");
    reveal_strlit("0o");
    reveal_strlit("0x");
    match k {
        TokenKind::BinIntegerLiteral(s) => {
            lemma_encode_concat("0b"@, s@);
            lemma_encode_ascii2("0b"@, 0x30, 0x62);
            assert(b.subrange(p, p + n) =~= seq![0x30u8, 0x62u8] + b.subrange(p + 2, p + n));
        },
        TokenKind::OctIntegerLiteral(s) => {
            lemma_encode_concat("0o"@, s@);
            lemma_encode_ascii2("0o"@, 0x30, 0x6f);
            assert(b.subrange(p, p + n) =~= seq![0x30u8, 0x6fu8] + b.subrange(p + 2, p + n));
        },
        TokenKind::HexIntegerLiteral(s) => {
            lemma_encode_concat("0x"@, s@);
            lemma_encode_ascii2("0x"@, 0x30, 0x78);
            assert(b.subrange(p, p + n) =~= seq![0x30u8, 0x78u8] + b.subrange(p + 2, p + n));
        },
        _ => {},
    }
}

/// Writing out a token of an identifier, variable or number kind gives back the part of the input
/// that it was lexed from: the writer puts back the backticks, the `$` and the `0b`, `0o` or `0x`
/// that the lexer strips.
pub proof fn lemma_display_round_trip(b: Seq<u8>, chars: Seq<char>, st: LexView, k: TokenKind)
    requires
        b == encode_utf8(chars),
        state_fits(b, st),
        lex_step(b, st).1 is Token,
        k.tag() == lex_step(b, st).1->tag,
        k.text() == lex_step(b, st).1->text,
        written_as_lexed(k.tag()),
    ensures
        encode_utf8(token_display(k)) == b.subrange(lex_step(b, st).1->start, lex_step(b, st).1->end),
{
    lemma_lexed_token(b, chars, st);
    let r = lex_step(b, st).1;
    let p = r->start;
    let n = r->end - r->start;
    if k.tag() == TokenTag::EscapedIdentifier {
        lemma_written_escaped(b, p, n, k);
    } else if k.tag() == TokenTag::Variable {
        lemma_written_variable(b, p, n, k);
    } else if k.tag() == TokenTag::BinIntegerLiteral || k.tag() == TokenTag::OctIntegerLiteral
        || k.tag() == TokenTag::HexIntegerLiteral {
        lemma_written_radix(b, p, n, k);
    } else {
        lemma_written_plain(b, p, n, k);
    }
}

/// The escape letters of string literals: `t`, `n`, `r` and the backslash.
pub open spec fn is_escape_letter(x: u8) -> bool {
    x == 0x74 || x == 0x6e || x == 0x72 || x == 0x5c
}

/// A quote, a backslash with an escape letter, and the same quote form one string literal of
/// four bytes, wherever they stand in the input.
pub proof fn lemma_escaped_string(b: Seq<u8>, p: int, q: u8)
    requires
        0 <= p,
        p + 4 <= b.len(),
        q == 0x27 || q == 0x22,
        b[p] == q,
        b[p + 1] == 0x5c,
        is_escape_letter(b[p + 2]),
        b[p + 3] == q,
    ensures
        rule_at(b, p) == Some((TokenTag::StringLiteral, 4int)),
{
    assert(str_body(b, p + 3, q) == 1);
    assert(str_body(b, p + 1, q) == 3);
    assert(string_len(b, p) == 4);
}

/// A `b`, a quote, a backslash with an escape letter, and the same quote form one byte string
/// literal of five bytes, wherever they stand in the input.
pub proof fn lemma_escaped_byte_string(b: Seq<u8>, p: int, q: u8)
    requires
        0 <= p,
        p + 5 <= b.len(),
        q == 0x27 || q == 0x22,
        b[p] == 0x62,
        b[p + 1] == q,
        b[p + 2] == 0x5c,
        is_escape_letter(b[p + 3]),
        b[p + 4] == q,
    ensures
        rule_at(b, p) == Some((TokenTag::ByteStringLiteral, 5int)),
{
    assert(str_body(b, p + 4, q) == 1);
    assert(str_body(b, p + 2, q) == 3);
    assert(string_len(b, p + 1) == 4);
    assert(byte_string_len(b, p) == 5);
}

/// Inside a string literal quoted by `q`, a backslash with an escape letter stands for itself
/// and the body goes on after it: the body from the backslash is two bytes longer than the body
/// after the pair, where that one is closed.
pub proof fn lemma_escape_in_body(b: Seq<u8>, i: int, q: u8)
    requires
        0 <= i,
        i + 2 <= b.len(),
        q == 0x27 || q == 0x22,
        b[i] == 0x5c,
        is_escape_letter(b[i + 1]),
        str_body(b, i + 2, q) > 0,
    ensures
        str_body(b, i, q) == 2 + str_body(b, i + 2, q),
{
}

/// A quote, a byte that is neither that quote nor a backslash, and the same quote form one
/// string literal of three bytes, wherever they stand in the input.
pub proof fn lemma_plain_string(b: Seq<u8>, p: int, q: u8)
    requires
        0 <= p,
        p + 3 <= b.len(),
        q == 0x27 || q == 0x22,
        b[p] == q,
        b[p + 1] != q,
        b[p + 1] != 0x5c,
        b[p + 2] == q,
    ensures
        rule_at(b, p) == Some((TokenTag::StringLiteral, 3int)),
{
    assert(str_body(b, p + 2, q) == 1);
    assert(str_body(b, p + 1, q) == 2);
    assert(string_len(b, p) == 3);
}

/// Two quotes in a row form one empty string literal, which ends at the second quote.
pub proof fn lemma_empty_string(b: Seq<u8>, p: int, q: u8)
    requires
        0 <= p,
        p + 2 <= b.len(),
        q == 0x27 || q == 0x22,
        b[p] == q,
        b[p + 1] == q,
    ensures
        rule_at(b, p) == Some((TokenTag::StringLiteral, 2int)),
{
    assert(str_body(b, p + 1, q) == 1);
    assert(string_len(b, p) == 2);
}

/// A backslash followed by a byte that is not an escape letter or the backslash ends no string
/// literal: a quote, such a pair and the same quote are no string literal.
pub proof fn lemma_bad_escape(b: Seq<u8>, p: int, q: u8)
    requires
        0 <= p,
        p + 4 <= b.len(),
        q == 0x27 || q == 0x22,
        b[p] == q,
        b[p + 1] == 0x5c,
        !is_escape_letter(b[p + 2]),
    ensures
        string_len(b, p) == 0,
        !(rule_at(b, p) matches Some((TokenTag::StringLiteral, _))),
{
    assert(str_body(b, p + 1, q) == 0);
}

} // verus!

//! The identifiers and literals of the grammar.

use vstd::prelude::*;
use vstd::string::*;
use vstd::utf8::{decode_utf8, encode_utf8_decode_utf8};

use crate::ast::{Ast, AstKind};
use crate::lexer::{LexView, Lexed, TokenKind, TokenTag};

use super::literals::{convert_string_to_int, int_literal_value, replaced_chars};
use super::parse_keywords::keyword_rule;
use super::parser::{
    alt_rule, next_token_of, rule_step, token_either, token_rule, Parser, RuleOutcome,
};
use super::{ParserResult, StateCapture};

verus! {

/// The text of the token that the next step of the lexer gives; empty where it gives none.
pub open spec fn next_text(b: Seq<u8>, st: LexView) -> Seq<u8> {
    match next_token_of(b, st).1 {
        Lexed::Token { text, .. } => text,
        _ => Seq::empty(),
    }
}

/// The base of the integer literals of the rule `tag`.
pub open spec fn radix_of(tag: TokenTag) -> Option<u32> {
    match tag {
        TokenTag::DecIntegerLiteral => Some(10),
        TokenTag::HexIntegerLiteral => Some(16),
        TokenTag::BinIntegerLiteral => Some(2),
        TokenTag::OctIntegerLiteral => Some(8),
        _ => None,
    }
}

/// The rules of the literals that a raw literal reads as one token.
pub open spec fn is_raw_token(tag: TokenTag) -> bool {
    radix_of(tag) is Some || tag == TokenTag::FloatLiteral || tag == TokenTag::StringLiteral || tag
        == TokenTag::RegexLiteral || tag == TokenTag::ByteStringLiteral
}

/// The characters of an integer literal's text, without its underscores.
pub open spec fn int_digits(text: Seq<u8>) -> Seq<char> {
    replaced_chars(decode_utf8(text), '_', Seq::empty())
}

/// A boolean literal: `true` or `false`, in upper or lower case.
pub open spec fn boolean_rule(b: Seq<u8>, st: LexView) -> RuleOutcome {
    alt_rule(keyword_rule(b, st, "true"@), keyword_rule(b, st, "false"@))
}

/// A raw literal, from the state `st` of the input `b`.
pub open spec fn raw_lit_rule(b: Seq<u8>, st: LexView) -> RuleOutcome {
    let (next, l) = next_token_of(b, st);
    match l {
        Lexed::Failed(e) => RuleOutcome::Failed(super::ParserError::LexerError(e)),
        Lexed::End => RuleOutcome::NoMatch,
        Lexed::Token { start, end, tag, text, .. } => if is_raw_token(tag) {
            if radix_of(tag) is Some && int_literal_value(int_digits(text), radix_of(tag).unwrap())
                is None {
                RuleOutcome::FailedInt(int_digits(text))
            } else {
                RuleOutcome::Matched { start, end, next }
            }
        } else {
            alt_rule(boolean_rule(b, st), keyword_rule(b, st, "none"@))
        },
    }
}

/// The tree that a raw literal gives from the state `st` of the input `b` has the kind `kind`.
pub open spec fn raw_lit_kind<'a>(b: Seq<u8>, st: LexView, kind: AstKind<'a>) -> bool {
    let text = next_text(b, st);
    match next_token_of(b, st).1 {
        Lexed::Token { tag, flags, .. } => if radix_of(tag) is Some {
            int_literal_value(int_digits(text), radix_of(tag).unwrap()) == Some(
                kind->IntegerLiteral_0,
            ) && kind is IntegerLiteral
        } else if tag == TokenTag::FloatLiteral {
            kind matches AstKind::FloatLiteral(s) && s.spec_bytes() == text
        } else if tag == TokenTag::StringLiteral {
            kind matches AstKind::StringLiteral(s) && s.spec_bytes() == text
        } else if tag == TokenTag::ByteStringLiteral {
            kind matches AstKind::ByteStringLiteral(s) && s.spec_bytes() == text
        } else if tag == TokenTag::RegexLiteral {
            kind matches AstKind::RegexLiteral { pattern, flags: f } && pattern.spec_bytes() == text
                && f.bits == flags
        } else if keyword_rule(b, st, "true"@) is Matched {
            kind == AstKind::BooleanLiteral(true)
        } else if keyword_rule(b, st, "false"@) is Matched {
            kind == AstKind::BooleanLiteral(false)
        } else {
            kind == AstKind::NoneLiteral
        },
        _ => false,
    }
}

impl<'a> Parser<'a> {
    /// Parses an identifier.
    ///
    /// ```txt
    /// identifier =
    ///     | plain_identifier
    ///     | escaped_identifier
    /// ```
    pub fn parse_identifier(&mut self) -> (r: ParserResult<Option<Ast<'a>>>)
        requires
            old(self).wf(),
        ensures
            rule_step(
                *old(self),
                *final(self),
                r,
                token_rule(
                    old(self).bytes(),
                    old(self).state(),
                    token_either(TokenTag::PlainIdentifier, TokenTag::EscapedIdentifier),
                ),
            ),
            r matches Ok(Some(a)) ==> a.kind matches AstKind::Identifier(s) && s.spec_bytes()
                == next_text(old(self).bytes(), old(self).state()),
    {
        proof {
            reveal(next_token_of);
        }
        let saved = self.get_state();
        if let Some(t) = self.eat_token()? {
            match t.kind {
                crate::lexer::TokenKind::PlainIdentifier(ident) => {
                    return Ok(Some(Ast { span: t.span, kind: AstKind::Identifier(ident) }));
                },
                crate::lexer::TokenKind::EscapedIdentifier(ident) => {
                    return Ok(Some(Ast { span: t.span, kind: AstKind::Identifier(ident) }));
                },
                _ => {},
            }
        }
        self.set_state(saved);
        Ok(None)
    }

    /// Parses a variable.
    ///
    /// ```txt
    /// variable =
    ///     | variable
    /// ```
    pub fn parse_variable(&mut self) -> (r: ParserResult<Option<Ast<'a>>>)
        requires
            old(self).wf(),
        ensures
            rule_step(
                *old(self),
                *final(self),
                r,
                token_rule(old(self).bytes(), old(self).state(), token_either(TokenTag::Variable, TokenTag::Variable)),
            ),
            r matches Ok(Some(a)) ==> a.kind matches AstKind::Variable(s) && s.spec_bytes()
                == next_text(old(self).bytes(), old(self).state()),
    {
        proof {
            reveal(next_token_of);
        }
        let saved = self.get_state();
        if let Some(t) = self.eat_token()? {
            if let crate::lexer::TokenKind::Variable(ident) = t.kind {
                return Ok(Some(Ast { span: t.span, kind: AstKind::Variable(ident) }));
            }
        }
        self.set_state(saved);
        Ok(None)
    }

    /// Parses a boolean literal.
    ///
    /// ```txt
    /// boolean_lit =
    ///     | (plain_identifier["true"] | plain_identifier["TRUE"])
    ///     | (plain_identifier["false"] | plain_identifier["FALSE"])
    /// ```
    pub fn parse_boolean_lit(&mut self) -> (r: ParserResult<Option<Ast<'a>>>)
        requires
            old(self).wf(),
        ensures
            rule_step(*old(self), *final(self), r, boolean_rule(old(self).bytes(), old(self).state())),
            r matches Ok(Some(a)) ==> a.kind == AstKind::BooleanLiteral(
                keyword_rule(old(self).bytes(), old(self).state(), "true"@) is Matched,
            ),
    {
        if let Some(a) = self.parse_kw("true")? {
            return Ok(Some(Ast { span: a.span, kind: AstKind::BooleanLiteral(true) }));
        }
        if let Some(a) = self.parse_kw("false")? {
            return Ok(Some(Ast { span: a.span, kind: AstKind::BooleanLiteral(false) }));
        }
        Ok(None)
    }

    /// Parses a none literal.
    ///
    /// ```txt
    /// none_lit =
    ///     | plain_identifier["none"]
    ///     | plain_identifier["NONE"]
    /// ```
    pub fn parse_none_lit(&mut self) -> (r: ParserResult<Option<Ast<'a>>>)
        requires
            old(self).wf(),
        ensures
            rule_step(*old(self), *final(self), r, keyword_rule(old(self).bytes(), old(self).state(), "none"@)),
            r matches Ok(Some(a)) ==> a.kind == AstKind::NoneLiteral,
    {
        if let Some(a) = self.parse_kw("none")? {
            return Ok(Some(Ast { span: a.span, kind: AstKind::NoneLiteral }));
        }
        Ok(None)
    }
    /// Parses a raw literal.
    ///
    /// ```txt
    /// raw_lit =
    ///     | integer_lit
    ///     | float_lit
    ///     | string_lit
    ///     | regex_lit
    ///     | byte_string_lit
    ///     | boolean_lit
    ///     | none_lit
    /// ```
    pub fn parse_raw_lit(&mut self) -> (r: ParserResult<Option<Ast<'a>>>)
        requires
            old(self).wf(),
        ensures
            rule_step(*old(self), *final(self), r, raw_lit_rule(old(self).bytes(), old(self).state())),
            r matches Ok(Some(a)) ==> raw_lit_kind(old(self).bytes(), old(self).state(), a.kind),
    {
        proof {
            reveal(next_token_of);
        }
        let state = self.get_state();
        if let Some(t) = self.eat_token()? {
            let span = t.span;
            match t.kind {
                TokenKind::DecIntegerLiteral(lit) => {
                    proof {
                        encode_utf8_decode_utf8(lit@);
                    }
                    return match convert_string_to_int(lit, 10) {
                        Ok(v) => Ok(Some(Ast { span, kind: AstKind::IntegerLiteral(v) })),
                        Err(e) => Err(e),
                    };
                },
                TokenKind::HexIntegerLiteral(lit) => {
                    proof {
                        encode_utf8_decode_utf8(lit@);
                    }
                    return match convert_string_to_int(lit, 16) {
                        Ok(v) => Ok(Some(Ast { span, kind: AstKind::IntegerLiteral(v) })),
                        Err(e) => Err(e),
                    };
                },
                TokenKind::BinIntegerLiteral(lit) => {
                    proof {
                        encode_utf8_decode_utf8(lit@);
                    }
                    return match convert_string_to_int(lit, 2) {
                        Ok(v) => Ok(Some(Ast { span, kind: AstKind::IntegerLiteral(v) })),
                        Err(e) => Err(e),
                    };
                },
                TokenKind::OctIntegerLiteral(lit) => {
                    proof {
                        encode_utf8_decode_utf8(lit@);
                    }
                    return match convert_string_to_int(lit, 8) {
                        Ok(v) => Ok(Some(Ast { span, kind: AstKind::IntegerLiteral(v) })),
                        Err(e) => Err(e),
                    };
                },
                TokenKind::FloatLiteral(lit) => {
                    return Ok(Some(Ast { span, kind: AstKind::FloatLiteral(lit) }));
                },
                TokenKind::StringLiteral(lit) => {
                    return Ok(Some(Ast { span, kind: AstKind::StringLiteral(lit) }));
                },
                TokenKind::RegexLiteral(lit, flags) => {
                    return Ok(Some(Ast { span, kind: AstKind::RegexLiteral { pattern: lit, flags } }));
                },
                TokenKind::ByteStringLiteral(lit) => {
                    return Ok(Some(Ast { span, kind: AstKind::ByteStringLiteral(lit) }));
                },
                _ => {
                    self.set_state(state);
                    if let Some(ast) = self.parse_boolean_lit()? {
                        return Ok(Some(ast));
                    }
                    return self.parse_none_lit();
                },
            }
        }
        self.set_state(state);
        Ok(None)
    }
}

} // verus!

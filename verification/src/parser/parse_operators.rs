//! The operators of the grammar.

use vstd::prelude::*;

use crate::ast::{Ast, AstKind};
use crate::lexer::{TokenKind, TokenTag};

use super::parse_keywords::{keyword_rule, keywords2_rule};
use super::parser::{alt_rule, rule_step, token_is, token_rule, Parser};
use super::ParserResult;

verus! {

impl<'a> Parser<'a> {
    /// Parses a token of the given kind: of its rule, with its text where the rule carries text,
    /// and with its regular expression flags.
    pub fn parse_tok(&mut self, token_kind: TokenKind) -> (r: ParserResult<Option<Ast<'a>>>)
        requires
            old(self).wf(),
        ensures
            rule_step(
                *old(self),
                *final(self),
                r,
                token_rule(old(self).bytes(), old(self).state(), token_is(token_kind.tag(), token_kind.text(), token_kind.flag_bits())),
            ),
            r matches Ok(Some(a)) ==> a.kind == AstKind::Temp(None),
    {
        self.parse_token_where(token_kind.tag_of(), token_kind.text_of(), token_kind.flag_bits_of())
    }

    /// Parses an operator that is a multiplication operator.
    ///
    /// ```txt
    /// op_mul =
    ///     | op_mul_lexer
    ///     | op_star
    /// ```
    pub fn parse_op_mul(&mut self) -> (r: ParserResult<Option<Ast<'a>>>)
        requires
            old(self).wf(),
        ensures
            rule_step(
                *old(self),
                *final(self),
                r,
                alt_rule(
                    token_rule(old(self).bytes(), old(self).state(), token_is(TokenTag::OpMulLexer, Seq::empty(), 0)),
                    token_rule(old(self).bytes(), old(self).state(), token_is(TokenTag::OpStar, Seq::empty(), 0)),
                ),
            ),
            r matches Ok(Some(a)) ==> a.kind == AstKind::Temp(None),
    {
        let r1 = self.parse_tok(TokenKind::OpMulLexer);
        if !(r1 matches Ok(None)) {
            return r1;
        }
        self.parse_tok(TokenKind::OpStar)
    }

    /// Parses an operator that is a logical AND operator.
    ///
    /// ```txt
    /// op_and =
    ///     | op_and_lexer
    ///     | plain_identifier["and"]
    ///     | plain_identifier["AND"]
    /// ```
    pub fn parse_op_and(&mut self) -> (r: ParserResult<Option<Ast<'a>>>)
        requires
            old(self).wf(),
        ensures
            rule_step(
                *old(self),
                *final(self),
                r,
                alt_rule(
                    token_rule(old(self).bytes(), old(self).state(), token_is(TokenTag::OpAndLexer, Seq::empty(), 0)),
                    keyword_rule(old(self).bytes(), old(self).state(), "and"@),
                ),
            ),
            r matches Ok(Some(a)) ==> a.kind == AstKind::Temp(None),
    {
        let r1 = self.parse_tok(TokenKind::OpAndLexer);
        if !(r1 matches Ok(None)) {
            return r1;
        }
        self.parse_kw("and")
    }

    /// Parses an operator that is a logical OR operator.
    ///
    /// ```txt
    /// op_or =
    ///     | op_or_lexer
    ///     | plain_identifier["or"]
    ///     | plain_identifier["OR"]
    /// ```
    pub fn parse_op_or(&mut self) -> (r: ParserResult<Option<Ast<'a>>>)
        requires
            old(self).wf(),
        ensures
            rule_step(
                *old(self),
                *final(self),
                r,
                alt_rule(
                    token_rule(old(self).bytes(), old(self).state(), token_is(TokenTag::OpOrLexer, Seq::empty(), 0)),
                    keyword_rule(old(self).bytes(), old(self).state(), "or"@),
                ),
            ),
            r matches Ok(Some(a)) ==> a.kind == AstKind::Temp(None),
    {
        let r1 = self.parse_tok(TokenKind::OpOrLexer);
        if !(r1 matches Ok(None)) {
            return r1;
        }
        self.parse_kw("or")
    }

    /// Parses an operator that is an IS operator.
    ///
    /// ```txt
    /// op_is =
    ///     | op_is_lexer
    ///     | plain_identifier["is"]
    ///     | plain_identifier["IS"]
    /// ```
    pub fn parse_op_is(&mut self) -> (r: ParserResult<Option<Ast<'a>>>)
        requires
            old(self).wf(),
        ensures
            rule_step(
                *old(self),
                *final(self),
                r,
                alt_rule(
                    token_rule(old(self).bytes(), old(self).state(), token_is(TokenTag::OpIsLexer, Seq::empty(), 0)),
                    keyword_rule(old(self).bytes(), old(self).state(), "is"@),
                ),
            ),
            r matches Ok(Some(a)) ==> a.kind == AstKind::Temp(None),
    {
        let r1 = self.parse_tok(TokenKind::OpIsLexer);
        if !(r1 matches Ok(None)) {
            return r1;
        }
        self.parse_kw("is")
    }

    /// Parses an operator that is an IS operator.
    ///
    /// ```txt
    /// op_is_not =
    ///     | op_is_not_lexer
    ///     | plain_identifier["is"]
    ///     | plain_identifier["IS"]
    /// ```
    pub fn parse_op_is_not(&mut self) -> (r: ParserResult<Option<Ast<'a>>>)
        requires
            old(self).wf(),
        ensures
            rule_step(
                *old(self),
                *final(self),
                r,
                alt_rule(
                    token_rule(old(self).bytes(), old(self).state(), token_is(TokenTag::OpIsNotLexer, Seq::empty(), 0)),
                    keywords2_rule(old(self).bytes(), old(self).state(), "is"@, "not"@),
                ),
            ),
            r matches Ok(Some(a)) ==> a.kind == AstKind::Temp(None),
    {
        let r1 = self.parse_tok(TokenKind::OpIsNotLexer);
        if !(r1 matches Ok(None)) {
            return r1;
        }
        self.parse_kw2("is", "not")
    }

    /// Parses an operator that is a NOT operator.
    ///
    /// ```txt
    /// op_not =
    ///     | op_not_lexer
    ///     | plain_identifier["not"]
    ///     | plain_identifier["NOT"]
    /// ```
    pub fn parse_op_not(&mut self) -> (r: ParserResult<Option<Ast<'a>>>)
        requires
            old(self).wf(),
        ensures
            rule_step(
                *old(self),
                *final(self),
                r,
                alt_rule(
                    token_rule(old(self).bytes(), old(self).state(), token_is(TokenTag::OpNotLexer, Seq::empty(), 0)),
                    keyword_rule(old(self).bytes(), old(self).state(), "not"@),
                ),
            ),
            r matches Ok(Some(a)) ==> a.kind == AstKind::Temp(None),
    {
        let r1 = self.parse_tok(TokenKind::OpNotLexer);
        if !(r1 matches Ok(None)) {
            return r1;
        }
        self.parse_kw("not")
    }

    /// Parses an operator that is an IN operator.
    ///
    /// ```txt
    /// op_in =
    ///     | plain_identifier["in"]
    ///     | plain_identifier["IN"]
    /// ```
    pub fn parse_op_in(&mut self) -> (r: ParserResult<Option<Ast<'a>>>)
        requires
            old(self).wf(),
        ensures
            rule_step(
                *old(self),
                *final(self),
                r,
                keyword_rule(old(self).bytes(), old(self).state(), "in"@),
            ),
            r matches Ok(Some(a)) ==> a.kind == AstKind::Temp(None),
    {
        self.parse_kw("in")
    }

    /// Parses an operator that is a NOT IN operator.
    ///
    /// ```txt
    /// op_not_in =
    ///     | plain_identifier["not"] plain_identifier["in"]
    ///     | plain_identifier["not"] plain_identifier["IN"]
    ///     | plain_identifier["NOT"] plain_identifier["IN"]
    ///     | plain_identifier["NOT"] plain_identifier["in"]
    /// ```
    pub fn parse_op_not_in(&mut self) -> (r: ParserResult<Option<Ast<'a>>>)
        requires
            old(self).wf(),
        ensures
            rule_step(
                *old(self),
                *final(self),
                r,
                keywords2_rule(old(self).bytes(), old(self).state(), "not"@, "in"@),
            ),
            r matches Ok(Some(a)) ==> a.kind == AstKind::Temp(None),
    {
        self.parse_kw2("not", "in")
    }

    /// Parses an operator that is a CONTAINS operator.
    ///
    /// ```txt
    /// op_contains =
    ///     | op_contains_lexer
    ///     | plain_identifier["contains"]
    ///     | plain_identifier["CONTAINS"]
    /// ```
    pub fn parse_op_contains(&mut self) -> (r: ParserResult<Option<Ast<'a>>>)
        requires
            old(self).wf(),
        ensures
            rule_step(
                *old(self),
                *final(self),
                r,
                alt_rule(
                    token_rule(old(self).bytes(), old(self).state(), token_is(TokenTag::OpContainsLexer, Seq::empty(), 0)),
                    keyword_rule(old(self).bytes(), old(self).state(), "contains"@),
                ),
            ),
            r matches Ok(Some(a)) ==> a.kind == AstKind::Temp(None),
    {
        let r1 = self.parse_tok(TokenKind::OpContainsLexer);
        if !(r1 matches Ok(None)) {
            return r1;
        }
        self.parse_kw("contains")
    }

    /// Parses an operator that is a NOT CONTAINS operator.
    ///
    /// ```txt
    /// op_not_contains =
    ///     | op_not_contains_lexer
    ///     | plain_identifier["not"] plain_identifier["contains"]
    ///     | plain_identifier["not"] plain_identifier["CONTAINS"]
    ///     | plain_identifier["NOT"] plain_identifier["CONTAINS"]
    ///     | plain_identifier["NOT"] plain_identifier["contains"]
    /// ```
    pub fn parse_op_not_contains(&mut self) -> (r: ParserResult<Option<Ast<'a>>>)
        requires
            old(self).wf(),
        ensures
            rule_step(
                *old(self),
                *final(self),
                r,
                alt_rule(
                    token_rule(old(self).bytes(), old(self).state(), token_is(TokenTag::OpNotContainsLexer, Seq::empty(), 0)),
                    keywords2_rule(old(self).bytes(), old(self).state(), "not"@, "contains"@),
                ),
            ),
            r matches Ok(Some(a)) ==> a.kind == AstKind::Temp(None),
    {
        let r1 = self.parse_tok(TokenKind::OpNotContainsLexer);
        if !(r1 matches Ok(None)) {
            return r1;
        }
        self.parse_kw2("not", "contains")
    }

    /// Parses an operator that is a CONTAINS NONE operator.
    ///
    /// ```txt
    /// op_contains_none =
    ///     | op_contains_none_lexer
    ///     | plain_identifier["contains"] plain_identifier["none"]
    ///     | plain_identifier["contains"] plain_identifier["NONE"]
    ///     | plain_identifier["CONTAINS"] plain_identifier["NONE"]
    ///     | plain_identifier["CONTAINS"] plain_identifier["none"]
    /// ```
    pub fn parse_op_contains_none(&mut self) -> (r: ParserResult<Option<Ast<'a>>>)
        requires
            old(self).wf(),
        ensures
            rule_step(
                *old(self),
                *final(self),
                r,
                alt_rule(
                    token_rule(old(self).bytes(), old(self).state(), token_is(TokenTag::OpContainsNoneLexer, Seq::empty(), 0)),
                    keywords2_rule(old(self).bytes(), old(self).state(), "contains"@, "none"@),
                ),
            ),
            r matches Ok(Some(a)) ==> a.kind == AstKind::Temp(None),
    {
        let r1 = self.parse_tok(TokenKind::OpContainsNoneLexer);
        if !(r1 matches Ok(None)) {
            return r1;
        }
        self.parse_kw2("contains", "none")
    }

    /// Parses an operator that is a CONTAINS ALL operator.
    ///
    /// ```txt
    /// op_contains_all =
    ///     | op_contains_all_lexer
    ///     | plain_identifier["contains"] plain_identifier["all"]
    ///     | plain_identifier["contains"] plain_identifier["ALL"]
    ///     | plain_identifier["CONTAINS"] plain_identifier["ALL"]
    ///     | plain_identifier["CONTAINS"] plain_identifier["all"]
    /// ```
    pub fn parse_op_contains_all(&mut self) -> (r: ParserResult<Option<Ast<'a>>>)
        requires
            old(self).wf(),
        ensures
            rule_step(
                *old(self),
                *final(self),
                r,
                alt_rule(
                    token_rule(old(self).bytes(), old(self).state(), token_is(TokenTag::OpContainsAllLexer, Seq::empty(), 0)),
                    keywords2_rule(old(self).bytes(), old(self).state(), "contains"@, "all"@),
                ),
            ),
            r matches Ok(Some(a)) ==> a.kind == AstKind::Temp(None),
    {
        let r1 = self.parse_tok(TokenKind::OpContainsAllLexer);
        if !(r1 matches Ok(None)) {
            return r1;
        }
        self.parse_kw2("contains", "all")
    }

    /// Parses an operator that is a CONTAINS ANY operator.
    ///
    /// ```txt
    /// op_contains_any =
    ///     | op_contains_any_lexer
    ///     | plain_identifier["contains"] plain_identifier["any"]
    ///     | plain_identifier["contains"] plain_identifier["ANY"]
    ///     | plain_identifier["CONTAINS"] plain_identifier["ANY"]
    ///     | plain_identifier["CONTAINS"] plain_identifier["any"]
    /// ```
    pub fn parse_op_contains_any(&mut self) -> (r: ParserResult<Option<Ast<'a>>>)
        requires
            old(self).wf(),
        ensures
            rule_step(
                *old(self),
                *final(self),
                r,
                alt_rule(
                    token_rule(old(self).bytes(), old(self).state(), token_is(TokenTag::OpContainsAnyLexer, Seq::empty(), 0)),
                    keywords2_rule(old(self).bytes(), old(self).state(), "contains"@, "any"@),
                ),
            ),
            r matches Ok(Some(a)) ==> a.kind == AstKind::Temp(None),
    {
        let r1 = self.parse_tok(TokenKind::OpContainsAnyLexer);
        if !(r1 matches Ok(None)) {
            return r1;
        }
        self.parse_kw2("contains", "any")
    }

    /// Parses an operator that is a MATCH operator.
    ///
    /// ```txt
    /// op_match =
    ///     | op_match_lexer
    ///     | plain_identifier["match"]
    ///     | plain_identifier["MATCH"]
    /// ```
    pub fn parse_op_match(&mut self) -> (r: ParserResult<Option<Ast<'a>>>)
        requires
            old(self).wf(),
        ensures
            rule_step(
                *old(self),
                *final(self),
                r,
                alt_rule(
                    token_rule(old(self).bytes(), old(self).state(), token_is(TokenTag::OpMatchLexer, Seq::empty(), 0)),
                    keyword_rule(old(self).bytes(), old(self).state(), "match"@),
                ),
            ),
            r matches Ok(Some(a)) ==> a.kind == AstKind::Temp(None),
    {
        let r1 = self.parse_tok(TokenKind::OpMatchLexer);
        if !(r1 matches Ok(None)) {
            return r1;
        }
        self.parse_kw("match")
    }

    /// Parses an operator that is a NOT MATCH operator.
    ///
    /// ```txt
    /// op_not_match =
    ///     | op_not_match_lexer
    ///     | plain_identifier["not"] plain_identifier["match"]
    ///     | plain_identifier["not"] plain_identifier["MATCH"]
    ///     | plain_identifier["NOT"] plain_identifier["MATCH"]
    ///     | plain_identifier["NOT"] plain_identifier["match"]
    /// ```
    pub fn parse_op_not_match(&mut self) -> (r: ParserResult<Option<Ast<'a>>>)
        requires
            old(self).wf(),
        ensures
            rule_step(
                *old(self),
                *final(self),
                r,
                alt_rule(
                    token_rule(old(self).bytes(), old(self).state(), token_is(TokenTag::OpNotMatchLexer, Seq::empty(), 0)),
                    keywords2_rule(old(self).bytes(), old(self).state(), "not"@, "match"@),
                ),
            ),
            r matches Ok(Some(a)) ==> a.kind == AstKind::Temp(None),
    {
        let r1 = self.parse_tok(TokenKind::OpNotMatchLexer);
        if !(r1 matches Ok(None)) {
            return r1;
        }
        self.parse_kw2("not", "match")
    }
}

} // verus!

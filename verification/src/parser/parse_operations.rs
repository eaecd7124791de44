//! Identifiers joined by a separator, and the operations of the grammar that name things.

use vstd::prelude::*;
use vstd::string::*;
use vstd::utf8::encode_utf8;

use crate::ast::{Ast, AstKind};
use crate::lexer::{state_fits, tag_has_text, LexView, TokenKind, TokenTag};

use super::parse_literals::next_text;
use super::parse_statements::{identifier_rule, identifier_span};
use super::parser::{
    lemma_then_rule_forward, lemma_token_rule_forward, reads_forward, rule_step, then_rule,
    token_either, token_is, token_rule, Parser, RuleOutcome,
};
use super::{ParserError, ParserResult, StateCapture};

verus! {

/// The separator `sep` and an identifier.
pub open spec fn sep_step_rule(b: Seq<u8>, st: LexView, sep: TokenTag) -> RuleOutcome {
    then_rule(token_rule(b, st, token_is(sep, Seq::empty(), 0)), |s: LexView| identifier_rule(b, s))
}

/// The state from which the identifier of `sep identifier`, read from `st`, is read.
pub open spec fn sep_ident_from(b: Seq<u8>, st: LexView, sep: TokenTag) -> LexView {
    token_rule(b, st, token_is(sep, Seq::empty(), 0))->next
}

/// The repetitions of `sep identifier` from `st`, at most `fuel` of them: the states from which
/// the identifiers were read and the state after them, or an error.
pub open spec fn sep_run(b: Seq<u8>, st: LexView, sep: TokenTag, fuel: nat) -> Result<
    (Seq<LexView>, LexView),
    ParserError,
>
    decreases fuel,
{
    if fuel == 0 {
        Ok((Seq::empty(), st))
    } else {
        match sep_step_rule(b, st, sep) {
            RuleOutcome::Matched { next, .. } => match sep_run(b, next, sep, (fuel - 1) as nat) {
                Ok((froms, last)) => Ok((seq![sep_ident_from(b, st, sep)] + froms, last)),
                Err(e) => Err(e),
            },
            RuleOutcome::Failed(e) => Err(e),
            _ => Ok((Seq::empty(), st)),
        }
    }
}

/// The repetitions of `sep identifier` from `st`, as many as there are: one more than the input
/// has bytes is more than can be read.
pub open spec fn sep_list(b: Seq<u8>, st: LexView, sep: TokenTag) -> Result<
    (Seq<LexView>, LexView),
    ParserError,
> {
    sep_run(b, st, sep, (b.len() + 1) as nat)
}

/// Runs of `sep identifier` put together: `froms` read first, then what `rest` read.
pub open spec fn sep_after(
    froms: Seq<LexView>,
    rest: Result<(Seq<LexView>, LexView), ParserError>,
) -> Result<(Seq<LexView>, LexView), ParserError> {
    match rest {
        Ok((f, last)) => Ok((froms + f, last)),
        Err(e) => Err(e),
    }
}

/// The tree `a` is the identifier read from `from`.
pub open spec fn ident_at<'a>(b: Seq<u8>, from: LexView, a: Ast<'a>) -> bool {
    &&& a.span == identifier_span(b, from)
    &&& match a.kind {
        AstKind::Identifier(s) => s.spec_bytes() == next_text(b, from),
        _ => false,
    }
}

/// The trees `v` are the identifiers read from the states `froms`, in order.
pub open spec fn idents_at<'a>(b: Seq<u8>, froms: Seq<LexView>, v: Seq<Ast<'a>>) -> bool {
    &&& v.len() == froms.len()
    &&& forall|i: int| 0 <= i < froms.len() ==> ident_at(b, froms[i], #[trigger] v[i])
}

/// An identifier followed by any number of `:: identifier`, from the state `st` of the input `b`.
pub open spec fn identifier_scope_rule(b: Seq<u8>, st: LexView) -> RuleOutcome {
    match identifier_rule(b, st) {
        RuleOutcome::Matched { start, end, next } => match sep_list(b, next, TokenTag::OpScope) {
            Ok((froms, last)) => if froms.len() == 0 {
                RuleOutcome::Matched { start, end, next }
            } else {
                RuleOutcome::Matched { start, end: identifier_rule(b, froms.last())->end, next: last }
            },
            Err(e) => RuleOutcome::Failed(e),
        },
        o => o,
    }
}

/// The tree of an identifier with its scopes, read from `st`, has the kind `kind`: the identifier
/// alone where no scope follows it, else all the identifiers in order.
pub open spec fn identifier_scope_kind<'a>(b: Seq<u8>, st: LexView, kind: AstKind<'a>) -> bool {
    let froms = sep_list(b, identifier_rule(b, st)->next, TokenTag::OpScope)->Ok_0.0;
    if froms.len() == 0 {
        kind matches AstKind::Identifier(s) && s.spec_bytes() == next_text(b, st)
    } else {
        match kind {
            AstKind::ScopedIdentifier(v) => idents_at(b, seq![st] + froms, v@),
            _ => false,
        }
    }
}

impl<'a> Parser<'a> {
    /// Reads `sep identifier` as many times as it comes, and gives the identifiers.
    pub(crate) fn read_sep_idents(&mut self, sep: TokenTag) -> (r: ParserResult<Vec<Ast<'a>>>)
        requires
            old(self).wf(),
            !tag_has_text(sep),
        ensures
            final(self).wf(),
            final(self).lexer.string == old(self).lexer.string,
            match sep_list(old(self).bytes(), old(self).state(), sep) {
                Ok((froms, last)) => {
                    &&& r matches Ok(v)
                    &&& idents_at(old(self).bytes(), froms, v@)
                    &&& final(self).state() == last
                    &&& froms.len() > 0 ==> identifier_rule(old(self).bytes(), froms.last())->end
                        == v@.last().span.end
                },
                Err(e) => r matches Err(x) && x == e,
            },
    {
        let ghost b = self.bytes();
        let ghost s0 = self.state();
        let ghost fuel: nat = (b.len() + 1) as nat;
        let mut rest: Vec<Ast<'a>> = Vec::new();
        let ghost mut froms: Seq<LexView> = Seq::empty();
        proof {
            match sep_run(b, s0, sep, fuel) {
                Ok((f, last)) => {
                    assert(froms + f =~= f);
                },
                Err(_) => {},
            }
        }
        loop
            invariant_except_break
                sep_list(b, s0, sep) == sep_after(froms, sep_run(b, self.state(), sep, (fuel - froms.len()) as nat)),
            invariant
                self.wf(),
                self.lexer.string == old(self).lexer.string,
                self.bytes() == b,
                b == old(self).bytes(),
                s0 == old(self).state(),
                b == encode_utf8(self.lexer.string@),
                !tag_has_text(sep),
                0 <= s0.cursor <= self.state().cursor <= b.len(),
                froms.len() <= self.state().cursor - s0.cursor,
                fuel == b.len() + 1,
                idents_at(b, froms, rest@),
                froms.len() > 0 ==> identifier_rule(b, froms.last())->end == rest@.last().span.end,
            ensures
                sep_list(b, s0, sep) == Ok::<(Seq<LexView>, LexView), ParserError>((froms, self.state())),
            decreases b.len() - self.state().cursor,
        {
            let ghost cur = self.state();
            let ghost k: nat = (fuel - froms.len()) as nat;
            proof {
                assert(k >= 1);
                lemma_token_rule_forward(b, self.lexer.string@, cur, token_is(sep, Seq::empty(), 0));
                assert forall|s: LexView| state_fits(b, s) implies reads_forward(b, s, #[trigger] identifier_rule(b, s)) by {
                    lemma_token_rule_forward(b, self.lexer.string@, s, token_either(TokenTag::PlainIdentifier, TokenTag::EscapedIdentifier));
                }
                lemma_then_rule_forward(
                    b,
                    cur,
                    token_rule(b, cur, token_is(sep, Seq::empty(), 0)),
                    |s: LexView| identifier_rule(b, s),
                );
            }
            let saved = self.get_state();
            let sep_kind = TokenKind::from_parts(sep, "", crate::lexer::RegexFlags::empty());
            if self.parse_tok(sep_kind)?.is_none() {
                proof {
                    assert(sep_step_rule(b, cur, sep) is NoMatch);
                    assert(froms + Seq::<LexView>::empty() =~= froms);
                }
                break;
            }
            match self.parse_identifier()? {
                Some(id) => {
                    proof {
                        let f2 = froms.push(sep_ident_from(b, cur, sep));
                        match sep_run(b, self.state(), sep, (k - 1) as nat) {
                            Ok((f, last)) => {
                                assert(froms + (seq![sep_ident_from(b, cur, sep)] + f) =~= f2 + f);
                            },
                            Err(_) => {},
                        }
                        froms = f2;
                    }
                    rest.push(id);
                },
                None => {
                    self.set_state(saved);
                    proof {
                        assert(sep_step_rule(b, cur, sep) is NoMatch);
                        assert(froms + Seq::<LexView>::empty() =~= froms);
                    }
                    break;
                },
            }
        }
        Ok(rest)
    }

    /// Parses a scope operation.
    ///
    /// ```txt
    /// identifier_scope_op =
    ///     | identifier (op_scope identifier)+
    ///     | identifier
    /// ```
    pub fn parse_identifier_scope_op(&mut self) -> (r: ParserResult<Option<Ast<'a>>>)
        requires
            old(self).wf(),
        ensures
            rule_step(*old(self), *final(self), r, identifier_scope_rule(old(self).bytes(), old(self).state())),
            r matches Ok(Some(a)) ==> identifier_scope_kind(old(self).bytes(), old(self).state(), a.kind),
    {
        let ghost b = self.bytes();
        let ghost st0 = self.state();
        let first = match self.parse_identifier()? {
            Some(i) => i,
            None => return Ok(None),
        };
        let mut rest = self.read_sep_idents(TokenTag::OpScope)?;
        if rest.len() == 0 {
            return Ok(Some(first));
        }
        let start = first.span.start;
        let end = rest[rest.len() - 1].span.end;
        let ghost froms = sep_list(b, identifier_rule(b, st0)->next, TokenTag::OpScope)->Ok_0.0;
        let ghost old_rest = rest@;
        let mut all: Vec<Ast<'a>> = Vec::new();
        all.push(first);
        all.append(&mut rest);
        proof {
            assert(all@ =~= seq![all@[0]] + old_rest);
            assert forall|i: int| 0 <= i < froms.len() + 1 implies ident_at(b, (seq![st0] + froms)[i], #[trigger] all@[i]) by {
                if i > 0 {
                    assert(all@[i] == old_rest[i - 1]);
                    assert((seq![st0] + froms)[i] == froms[i - 1]);
                }
            }
        }
        Ok(Some(Ast { span: start..end, kind: AstKind::ScopedIdentifier(all) }))
    }
}

} // verus!

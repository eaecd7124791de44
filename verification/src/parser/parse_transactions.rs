//! The transaction expressions.

use vstd::prelude::*;

use crate::ast::{Ast, AstKind};
use crate::lexer::LexView;

use super::parse_keywords::keyword_rule;
use super::parser::{rule_step, Parser, RuleOutcome};
use super::ParserResult;

verus! {

/// The keyword `w`, then optionally the keyword `transaction`.
pub open spec fn transaction_rule(b: Seq<u8>, st: LexView, w: Seq<char>) -> RuleOutcome {
    match keyword_rule(b, st, w) {
        RuleOutcome::Matched { start, end, next } => match keyword_rule(b, next, "transaction"@) {
            RuleOutcome::Matched { end: e2, next: n2, .. } => RuleOutcome::Matched {
                start,
                end: e2,
                next: n2,
            },
            RuleOutcome::Failed(e) => RuleOutcome::Failed(e),
            _ => RuleOutcome::Matched { start, end, next },
        },
        o => o,
    }
}

impl<'a> Parser<'a> {
    /// Reads the keyword `w`, then optionally the keyword `transaction`.
    fn read_transaction(&mut self, w: &'static str) -> (r: ParserResult<Option<Ast<'a>>>)
        requires
            old(self).wf(),
        ensures
            rule_step(*old(self), *final(self), r, transaction_rule(old(self).bytes(), old(self).state(), w@)),
    {
        let k = match self.parse_kw(w)? {
            Some(k) => k,
            None => return Ok(None),
        };
        let mut end = k.span.end;
        if let Some(t) = self.parse_kw_transaction()? {
            end = t.span.end;
        }
        Ok(Some(Ast { span: k.span.start..end, kind: AstKind::Temp(None) }))
    }

    /// Parses `BEGIN TRANSACTION` expression.
    ///
    /// ```txt
    /// begin_exp =
    ///     | kw_begin kw_transaction?
    /// ```
    pub fn parse_begin_exp(&mut self) -> (r: ParserResult<Option<Ast<'a>>>)
        requires
            old(self).wf(),
        ensures
            rule_step(*old(self), *final(self), r, transaction_rule(old(self).bytes(), old(self).state(), "begin"@)),
            r matches Ok(Some(a)) ==> a.kind == AstKind::BeginTransaction,
    {
        match self.read_transaction("begin")? {
            Some(a) => Ok(Some(Ast { span: a.span, kind: AstKind::BeginTransaction })),
            None => Ok(None),
        }
    }

    /// Parses `COMMIT TRANSACTION` expression.
    ///
    /// ```txt
    /// commit_exp =
    ///     | kw_commit kw_transaction?
    /// ```
    pub fn parse_commit_exp(&mut self) -> (r: ParserResult<Option<Ast<'a>>>)
        requires
            old(self).wf(),
        ensures
            rule_step(*old(self), *final(self), r, transaction_rule(old(self).bytes(), old(self).state(), "commit"@)),
            r matches Ok(Some(a)) ==> a.kind == AstKind::CommitTransaction,
    {
        match self.read_transaction("commit")? {
            Some(a) => Ok(Some(Ast { span: a.span, kind: AstKind::CommitTransaction })),
            None => Ok(None),
        }
    }

    /// Parses `CANCEL TRANSACTION` expression.
    ///
    /// ```txt
    /// cancel_exp =
    ///     | kw_cancel kw_transaction?
    /// ```
    pub fn parse_cancel_exp(&mut self) -> (r: ParserResult<Option<Ast<'a>>>)
        requires
            old(self).wf(),
        ensures
            rule_step(*old(self), *final(self), r, transaction_rule(old(self).bytes(), old(self).state(), "cancel"@)),
            r matches Ok(Some(a)) ==> a.kind == AstKind::CancelTransaction,
    {
        match self.read_transaction("cancel")? {
            Some(a) => Ok(Some(Ast { span: a.span, kind: AstKind::CancelTransaction })),
            None => Ok(None),
        }
    }
}

} // verus!

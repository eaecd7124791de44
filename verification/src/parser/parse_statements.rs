//! The statements of the grammar.

use vstd::prelude::*;
use vstd::string::*;

use crate::ast::{Ast, AstKind};
use crate::lexer::{LexView, TokenKind, TokenTag};

use super::parse_keywords::keyword_rule;
use super::parse_literals::next_text;
use super::parser::{
    alt_rule, rule_step, then_rule, token_either, token_is, token_rule, Parser, RuleOutcome,
};
use super::parse_objects::{flag_rule, FlagKind, ObjectParts};
use super::{ParserError, ParserResult, StateCapture};

verus! {

/// A terminator token.
pub open spec fn terminator_rule(b: Seq<u8>, st: LexView) -> RuleOutcome {
    token_rule(b, st, token_is(TokenTag::Terminator, Seq::empty(), 0))
}

/// The keywords `if not exists` (or `if not exist`).
pub open spec fn if_not_exists_rule(b: Seq<u8>, st: LexView) -> RuleOutcome {
    then_rule(
        then_rule(keyword_rule(b, st, "if"@), |s: LexView| keyword_rule(b, s, "not"@)),
        |s: LexView| alt_rule(keyword_rule(b, s, "exists"@), keyword_rule(b, s, "exist"@)),
    )
}

/// An identifier.
pub open spec fn identifier_rule(b: Seq<u8>, st: LexView) -> RuleOutcome {
    token_rule(b, st, token_either(TokenTag::PlainIdentifier, TokenTag::EscapedIdentifier))
}

/// What an optional flag and a required identifier, in either order, give.
pub enum PermOutcome {
    /// Both read: the span of the flag where it was there, the span of the identifier
    /// and the state it was read from, and the state after both.
    Done { flag: Option<(int, int)>, name_start: int, name_end: int, name_from: LexView, next: LexView },
    /// No match.
    NoMatch,
    /// An error.
    Failed(ParserError),
}

/// The error or no match that a rule's outcome gives, as an outcome of the permutation.
pub open spec fn perm_stop(o: RuleOutcome) -> PermOutcome {
    match o {
        RuleOutcome::Failed(e) => PermOutcome::Failed(e),
        _ => PermOutcome::NoMatch,
    }
}

/// An optional flag and a required identifier, in either order: each round tries the rules
/// not yet read, the flag first, and takes the first that matches; a round in which none
/// matches ends the permutation, which fails to match where the identifier is missing.
pub open spec fn flag_and_name_rule(b: Seq<u8>, st: LexView, f: FlagKind) -> PermOutcome {
    match flag_rule(b, st, f) {
        RuleOutcome::Matched { start: xs, end: xe, next: s1 } => match identifier_rule(b, s1) {
            RuleOutcome::Matched { start: ys, end: ye, next: s2 } => PermOutcome::Done {
                flag: Some((xs, xe)),
                name_start: ys,
                name_end: ye,
                name_from: s1,
                next: s2,
            },
            o => perm_stop(o),
        },
        RuleOutcome::NoMatch => match identifier_rule(b, st) {
            RuleOutcome::Matched { start: ys, end: ye, next: s1 } => match flag_rule(b, s1, f) {
                RuleOutcome::Matched { start: xs, end: xe, next: s2 } => PermOutcome::Done {
                    flag: Some((xs, xe)),
                    name_start: ys,
                    name_end: ye,
                    name_from: st,
                    next: s2,
                },
                RuleOutcome::NoMatch => PermOutcome::Done {
                    flag: None,
                    name_start: ys,
                    name_end: ye,
                    name_from: st,
                    next: s1,
                },
                o => perm_stop(o),
            },
            o => perm_stop(o),
        },
        o => perm_stop(o),
    }
}

/// The span of the identifier read from `st`.
pub open spec fn identifier_span(b: Seq<u8>, st: LexView) -> crate::Span {
    let o = identifier_rule(b, st);
    core::ops::Range { start: (o->start) as usize, end: (o->end) as usize }
}

/// The larger of two integers.
pub open spec fn max_int(a: int, b: int) -> int {
    if a >= b {
        a
    } else {
        b
    }
}

/// A statement on a namespace: the keyword `lead`, `namespace` or `ns`, and then an optional
/// flag and the namespace's name in either order; from the state `st` of the input `b`.
pub open spec fn namespace_stmt_rule(b: Seq<u8>, st: LexView, lead: Seq<char>, f: FlagKind) -> RuleOutcome {
    match keyword_rule(b, st, lead) {
        RuleOutcome::Matched { start, next: s1, .. } => match namespace_kw_rule(b, s1) {
            RuleOutcome::Matched { next: s2, .. } => match flag_and_name_rule(b, s2, f) {
                PermOutcome::Done { flag, name_end, next, .. } => RuleOutcome::Matched {
                    start,
                    end: match flag {
                        Some(x) => max_int(name_end, x.1),
                        None => name_end,
                    },
                    next,
                },
                PermOutcome::NoMatch => RuleOutcome::NoMatch,
                PermOutcome::Failed(e) => RuleOutcome::Failed(e),
            },
            o => o,
        },
        o => o,
    }
}

/// The outcome of the permutation of a statement on a namespace.
pub open spec fn namespace_stmt_perm(b: Seq<u8>, st: LexView, lead: Seq<char>, f: FlagKind) -> PermOutcome {
    let s1 = keyword_rule(b, st, lead)->next;
    flag_and_name_rule(b, namespace_kw_rule(b, s1)->next, f)
}

/// The name and the flag hold what a statement on a namespace read from `st`: the name is the
/// identifier that was read, and the flag says whether the flag was there.
pub open spec fn namespace_parts_agree<'a>(
    b: Seq<u8>,
    st: LexView,
    lead: Seq<char>,
    f: FlagKind,
    name: Ast<'a>,
    flag: bool,
) -> bool {
    let p = namespace_stmt_perm(b, st, lead, f);
    &&& flag == (p->flag is Some)
    &&& name.span.start == p->name_start
    &&& name.span.end == p->name_end
    &&& name.kind matches AstKind::Identifier(s) && s.spec_bytes() == next_text(b, p->name_from)
}

/// The keyword `database` or `db`.
pub open spec fn database_kw_rule(b: Seq<u8>, st: LexView) -> RuleOutcome {
    alt_rule(keyword_rule(b, st, "database"@), keyword_rule(b, st, "db"@))
}

/// A `USE` statement, from the state `st` of the input `b`.
pub open spec fn use_rule(b: Seq<u8>, st: LexView) -> RuleOutcome {
    then_rule(
        then_rule(keyword_rule(b, st, "use"@), |s: LexView| database_kw_rule(b, s)),
        |s: LexView| identifier_rule(b, s),
    )
}

/// The tree of a `USE` statement read from the state `st` of the input `b` has the kind
/// `kind`: the database is the identifier that was read.
pub open spec fn use_kind<'a>(b: Seq<u8>, st: LexView, kind: AstKind<'a>) -> bool {
    let from = use_name_from(b, st);
    match kind {
        AstKind::Use { database } => {
            &&& database.span == identifier_span(b, from)
            &&& database.kind matches AstKind::Identifier(s) && s.spec_bytes() == next_text(b, from)
        },
        _ => false,
    }
}

/// The state from which a `USE` statement reads its database's name.
pub open spec fn use_name_from(b: Seq<u8>, st: LexView) -> LexView {
    database_kw_rule(b, keyword_rule(b, st, "use"@)->next)->next
}

/// The keyword `namespace` or `ns`.
pub open spec fn namespace_kw_rule(b: Seq<u8>, st: LexView) -> RuleOutcome {
    alt_rule(keyword_rule(b, st, "namespace"@), keyword_rule(b, st, "ns"@))
}

/// `ON NAMESPACE` and an identifier.
pub open spec fn on_namespace_rule(b: Seq<u8>, st: LexView) -> RuleOutcome {
    then_rule(
        then_rule(keyword_rule(b, st, "on"@), |s: LexView| namespace_kw_rule(b, s)),
        |s: LexView| identifier_rule(b, s),
    )
}

/// `ON DATABASE` and an identifier.
pub open spec fn on_database_rule(b: Seq<u8>, st: LexView) -> RuleOutcome {
    then_rule(
        then_rule(keyword_rule(b, st, "on"@), |s: LexView| database_kw_rule(b, s)),
        |s: LexView| identifier_rule(b, s),
    )
}

/// `ON TABLE` and an identifier.
pub open spec fn on_table_rule(b: Seq<u8>, st: LexView) -> RuleOutcome {
    then_rule(
        then_rule(keyword_rule(b, st, "on"@), |s: LexView| keyword_rule(b, s, "table"@)),
        |s: LexView| identifier_rule(b, s),
    )
}

impl<'a> Parser<'a> {
    /// Parses a terminator.
    ///
    /// ```txt
    /// terminator =
    ///     | terminator
    /// ```
    pub fn parse_terminator(&mut self) -> (r: ParserResult<Option<Ast<'a>>>)
        requires
            old(self).wf(),
        ensures
            rule_step(*old(self), *final(self), r, terminator_rule(old(self).bytes(), old(self).state())),
            r matches Ok(Some(a)) ==> a.kind == AstKind::Temp(None),
    {
        self.parse_tok(TokenKind::Terminator)
    }

    /// Parses partial `partial_if_not_exists` syntax.
    ///
    /// ```txt
    /// partial_if_not_exists =
    ///     | kw_if kw_not (kw_exists | kw_exist)
    /// ```
    pub fn parse_partial_if_not_exists(&mut self) -> (r: ParserResult<Option<Ast<'a>>>)
        requires
            old(self).wf(),
        ensures
            rule_step(*old(self), *final(self), r, if_not_exists_rule(old(self).bytes(), old(self).state())),
            r matches Ok(Some(a)) ==> a.kind == AstKind::Temp(None),
    {
        let saved = self.get_state();
        if let Some(a) = self.parse_kw_if()? {
            if let Some(_) = self.parse_kw_not()? {
                let last = match self.parse_kw_exists()? {
                    Some(e) => Some(e),
                    None => self.parse_kw("exist")?,
                };
                if let Some(e) = last {
                    return Ok(Some(Ast { span: a.span.start..e.span.end, kind: AstKind::Temp(None) }));
                }
            }
        }
        self.set_state(saved);
        Ok(None)
    }
    /// Reads a statement on a namespace: the keyword `lead`, `namespace` or `ns`, and then an
    /// optional flag and the namespace's name in either order.
    fn read_namespace_stmt(&mut self, lead: &'static str, f: FlagKind) -> (r: ParserResult<
        Option<ObjectParts<'a>>,
    >)
        requires
            old(self).wf(),
        ensures
            final(self).wf(),
            final(self).lexer.string == old(self).lexer.string,
            match namespace_stmt_rule(old(self).bytes(), old(self).state(), lead@, f) {
                RuleOutcome::Matched { start, end, next } => {
                    &&& r matches Ok(Some(p))
                    &&& p.span.start == start
                    &&& p.span.end == end
                    &&& final(self).state() == next
                    &&& namespace_parts_agree(old(self).bytes(), old(self).state(), lead@, f, p.subject, p.flag)
                },
                RuleOutcome::NoMatch => r matches Ok(None) && final(self).state() == old(self).state(),
                RuleOutcome::Failed(e) => r matches Err(x) && x == e,
                RuleOutcome::FailedInt(_) => false,
            },
    {
        let saved = self.get_state();
        let d = match self.parse_kw(lead)? {
            Some(d) => d,
            None => return Ok(None),
        };
        let kw = match self.parse_kw_namespace()? {
            Some(k) => Some(k),
            None => self.parse_kw_ns()?,
        };
        if kw.is_none() {
            self.set_state(saved);
            return Ok(None);
        }
        let flag: Option<Ast<'a>>;
        let name: Ast<'a>;
        match self.read_flag(f)? {
            Some(x) => match self.parse_identifier()? {
                Some(y) => {
                    flag = Some(x);
                    name = y;
                },
                None => {
                    self.set_state(saved);
                    return Ok(None);
                },
            },
            None => match self.parse_identifier()? {
                Some(y) => {
                    name = y;
                    flag = self.read_flag(f)?;
                },
                None => {
                    self.set_state(saved);
                    return Ok(None);
                },
            },
        }
        let end = match &flag {
            Some(x) => if x.span.end > name.span.end {
                x.span.end
            } else {
                name.span.end
            },
            None => name.span.end,
        };
        let flag = flag.is_some();
        Ok(Some(ObjectParts { span: d.span.start..end, subject: name, flag, on: None }))
    }

    /// Parses a `DEFINE NAMESPACE` statement
    ///
    /// ```txt
    /// define_namespace_stmt =
    ///     | kw_define (kw_namespace | kw_ns) << partial_if_not_exists? identifier >>
    /// ```
    pub fn parse_define_namespace_stmt(&mut self) -> (r: ParserResult<Option<Ast<'a>>>)
        requires
            old(self).wf(),
        ensures
            rule_step(
                *old(self),
                *final(self),
                r,
                namespace_stmt_rule(old(self).bytes(), old(self).state(), "define"@, FlagKind::IfNotExists),
            ),
            r matches Ok(Some(a)) ==> match a.kind {
                AstKind::DefineNamespace { name, if_not_exists } => namespace_parts_agree(
                    old(self).bytes(),
                    old(self).state(),
                    "define"@,
                    FlagKind::IfNotExists,
                    *name,
                    if_not_exists,
                ),
                _ => false,
            },
    {
        match self.read_namespace_stmt("define", FlagKind::IfNotExists)? {
            Some(p) => Ok(
                Some(
                    Ast {
                        span: p.span,
                        kind: AstKind::DefineNamespace { name: Box::new(p.subject), if_not_exists: p.flag },
                    },
                ),
            ),
            None => Ok(None),
        }
    }

    /// Parses `REMOVE NAMESPACE` expression.
    ///
    /// ```txt
    /// remove_namespace_exp =
    ///     | kw_remove (kw_namespace | kw_ns) << partial_if_exists? identifier >>
    /// ```
    pub fn parse_remove_namespace_exp(&mut self) -> (r: ParserResult<Option<Ast<'a>>>)
        requires
            old(self).wf(),
        ensures
            rule_step(
                *old(self),
                *final(self),
                r,
                namespace_stmt_rule(old(self).bytes(), old(self).state(), "remove"@, FlagKind::IfExists),
            ),
            r matches Ok(Some(a)) ==> match a.kind {
                AstKind::RemoveNamespace { subject, if_exists } => namespace_parts_agree(
                    old(self).bytes(),
                    old(self).state(),
                    "remove"@,
                    FlagKind::IfExists,
                    *subject,
                    if_exists,
                ),
                _ => false,
            },
    {
        match self.read_namespace_stmt("remove", FlagKind::IfExists)? {
            Some(p) => Ok(
                Some(
                    Ast {
                        span: p.span,
                        kind: AstKind::RemoveNamespace { subject: Box::new(p.subject), if_exists: p.flag },
                    },
                ),
            ),
            None => Ok(None),
        }
    }

    /// Parses `DESCRIBE NAMESPACE` expression.
    ///
    /// ```txt
    /// describe_namespace_exp =
    ///     | kw_describe (kw_namespace | kw_ns) << partial_if_exists? identifier >>
    /// ```
    pub fn parse_describe_namespace_exp(&mut self) -> (r: ParserResult<Option<Ast<'a>>>)
        requires
            old(self).wf(),
        ensures
            rule_step(
                *old(self),
                *final(self),
                r,
                namespace_stmt_rule(old(self).bytes(), old(self).state(), "describe"@, FlagKind::IfExists),
            ),
            r matches Ok(Some(a)) ==> match a.kind {
                AstKind::DescribeNamespace { subject, if_exists } => namespace_parts_agree(
                    old(self).bytes(),
                    old(self).state(),
                    "describe"@,
                    FlagKind::IfExists,
                    *subject,
                    if_exists,
                ),
                _ => false,
            },
    {
        match self.read_namespace_stmt("describe", FlagKind::IfExists)? {
            Some(p) => Ok(
                Some(
                    Ast {
                        span: p.span,
                        kind: AstKind::DescribeNamespace { subject: Box::new(p.subject), if_exists: p.flag },
                    },
                ),
            ),
            None => Ok(None),
        }
    }

    /// Parses a `USE` statement.
    ///
    /// ```txt
    /// use_stmt =
    ///     | kw_use (kw_database | kw_db) identifier
    /// ```
    pub fn parse_use_stmt(&mut self) -> (r: ParserResult<Option<Ast<'a>>>)
        requires
            old(self).wf(),
        ensures
            rule_step(*old(self), *final(self), r, use_rule(old(self).bytes(), old(self).state())),
            r matches Ok(Some(a)) ==> use_kind(old(self).bytes(), old(self).state(), a.kind),
    {
        let saved = self.get_state();
        if let Some(u) = self.parse_kw_use()? {
            let kw = match self.parse_kw_database()? {
                Some(k) => Some(k),
                None => self.parse_kw_db()?,
            };
            if kw.is_some() {
                if let Some(ident) = self.parse_identifier()? {
                    let end = ident.span.end;
                    return Ok(
                        Some(Ast { span: u.span.start..end, kind: AstKind::Use { database: Box::new(ident) } }),
                    );
                }
            }
        }
        self.set_state(saved);
        Ok(None)
    }
    /// Parses partial `partial_on_namespace` syntax.
    ///
    /// ```txt
    /// partial_on_namespace =
    ///     | kw_on (kw_namespace | kw_ns) identifier
    /// ```
    pub fn parse_partial_on_namespace(&mut self) -> (r: ParserResult<Option<Ast<'a>>>)
        requires
            old(self).wf(),
        ensures
            rule_step(*old(self), *final(self), r, on_namespace_rule(old(self).bytes(), old(self).state())),
            r matches Ok(Some(a)) ==> a.kind == AstKind::Temp(None),
    {
        let saved = self.get_state();
        if let Some(on) = self.parse_kw_on()? {
            let kw = match self.parse_kw_namespace()? {
                Some(k) => Some(k),
                None => self.parse_kw_ns()?,
            };
            if kw.is_some() {
                if let Some(ident) = self.parse_identifier()? {
                    return Ok(Some(Ast { span: on.span.start..ident.span.end, kind: AstKind::Temp(None) }));
                }
            }
        }
        self.set_state(saved);
        Ok(None)
    }

    /// Parses partial `partial_on_database` syntax.
    ///
    /// ```txt
    /// partial_on_database =
    ///     | kw_on (kw_database | kw_db) identifier
    /// ```
    pub fn parse_partial_on_database(&mut self) -> (r: ParserResult<Option<Ast<'a>>>)
        requires
            old(self).wf(),
        ensures
            rule_step(*old(self), *final(self), r, on_database_rule(old(self).bytes(), old(self).state())),
            r matches Ok(Some(a)) ==> a.kind == AstKind::Temp(None),
    {
        let saved = self.get_state();
        if let Some(on) = self.parse_kw_on()? {
            let kw = match self.parse_kw_database()? {
                Some(k) => Some(k),
                None => self.parse_kw_db()?,
            };
            if kw.is_some() {
                if let Some(ident) = self.parse_identifier()? {
                    return Ok(Some(Ast { span: on.span.start..ident.span.end, kind: AstKind::Temp(None) }));
                }
            }
        }
        self.set_state(saved);
        Ok(None)
    }

    /// Parses partial `partial_on_table` syntax.
    ///
    /// ```txt
    /// partial_on_table =
    ///     | kw_on kw_table identifier
    /// ```
    pub fn parse_partial_on_table(&mut self) -> (r: ParserResult<Option<Ast<'a>>>)
        requires
            old(self).wf(),
        ensures
            rule_step(*old(self), *final(self), r, on_table_rule(old(self).bytes(), old(self).state())),
            r matches Ok(Some(a)) ==> a.kind == AstKind::Temp(None),
    {
        let saved = self.get_state();
        if let Some(on) = self.parse_kw_on()? {
            let kw = self.parse_kw_table()?;
            if kw.is_some() {
                if let Some(ident) = self.parse_identifier()? {
                    return Ok(Some(Ast { span: on.span.start..ident.span.end, kind: AstKind::Temp(None) }));
                }
            }
        }
        self.set_state(saved);
        Ok(None)
    }
}

} // verus!

//! The index expressions, whose clauses come in any order.

use vstd::prelude::*;
use vstd::string::*;

use crate::ast::{Ast, AstKind};
use crate::lexer::LexView;

use super::parse_literals::next_text;
use super::parse_objects::{if_exists_rule, object_head, on_from, on_rule, FlagKind, ObjectForm, OnKind};
use super::parse_statements::{identifier_rule, identifier_span, max_int};
use super::parse_keywords::keyword_rule;
use super::parser::{alt_rule, rule_step, Parser, RuleOutcome};
use super::{ParserError, ParserResult, StateCapture};

verus! {

/// What the permutation of a `REMOVE INDEX` expression has read so far: the span of
/// `if exists`, the states from which `ON TABLE` and `ON DATABASE` were read, each where it was
/// there, and the state after them.
pub struct IndexPerm {
    pub flag: Option<(int, int)>,
    pub table: Option<LexView>,
    pub database: Option<LexView>,
    pub next: LexView,
}

/// What a round of the permutation gives.
pub enum IndexRound {
    /// A clause was read.
    Took(IndexPerm),
    /// No clause not yet read matches.
    Stopped,
    /// An error.
    Failed(ParserError),
}

/// One round of the permutation: the clauses not yet read are tried in the order
/// `if exists` (where `with_flag` allows it), `ON TABLE`, `ON DATABASE`, and the first that
/// matches is taken.
pub open spec fn index_round(b: Seq<u8>, acc: IndexPerm, with_flag: bool) -> IndexRound {
    let st = acc.next;
    let o1 = if with_flag && acc.flag is None {
        if_exists_rule(b, st)
    } else {
        RuleOutcome::NoMatch
    };
    match o1 {
        RuleOutcome::Matched { start, end, next } => IndexRound::Took(
            IndexPerm { flag: Some((start, end)), next, ..acc },
        ),
        RuleOutcome::Failed(e) => IndexRound::Failed(e),
        _ => {
            let o2 = if acc.table is None {
                on_rule(b, st, OnKind::Table)
            } else {
                RuleOutcome::NoMatch
            };
            match o2 {
                RuleOutcome::Matched { next, .. } => IndexRound::Took(
                    IndexPerm { table: Some(st), next, ..acc },
                ),
                RuleOutcome::Failed(e) => IndexRound::Failed(e),
                _ => {
                    let o3 = if acc.database is None {
                        on_rule(b, st, OnKind::Database)
                    } else {
                        RuleOutcome::NoMatch
                    };
                    match o3 {
                        RuleOutcome::Matched { next, .. } => IndexRound::Took(
                            IndexPerm { database: Some(st), next, ..acc },
                        ),
                        RuleOutcome::Failed(e) => IndexRound::Failed(e),
                        _ => IndexRound::Stopped,
                    }
                },
            }
        },
    }
}

/// At most `rounds` rounds of the permutation from `acc`; a round that takes nothing ends it.
pub open spec fn index_perm(b: Seq<u8>, acc: IndexPerm, with_flag: bool, rounds: nat) -> Result<
    IndexPerm,
    ParserError,
>
    decreases rounds,
{
    if rounds == 0 {
        Ok(acc)
    } else {
        match index_round(b, acc, with_flag) {
            IndexRound::Took(a) => index_perm(b, a, with_flag, (rounds - 1) as nat),
            IndexRound::Stopped => Ok(acc),
            IndexRound::Failed(e) => Err(e),
        }
    }
}

/// Nothing read yet, from the state `st`.
pub open spec fn index_start(st: LexView) -> IndexPerm {
    IndexPerm { flag: None, table: None, database: None, next: st }
}

/// The end of the expression: `e`, then at least the end of `ON TABLE`, then at least the end
/// of `ON DATABASE` where it was there.
pub open spec fn index_end(b: Seq<u8>, e: int, g: IndexPerm) -> int {
    let e1 = max_int(e, on_rule(b, g.table.unwrap(), OnKind::Table)->end);
    match g.database {
        Some(d) => max_int(e1, on_rule(b, d, OnKind::Database)->end),
        None => e1,
    }
}

/// What a `REMOVE INDEX` expression reads after its first two keywords.
pub enum IndexTail {
    /// The end, whether `if exists` was there, the state from which the name was read, what the
    /// permutation read, and the state after the expression.
    Done { end: int, flag: bool, name_from: LexView, perm: IndexPerm },
    /// No match.
    NoMatch,
    /// An error.
    Failed(ParserError),
}

/// The first form after the first two keywords:
/// `partial_if_exists identifier << partial_on_table partial_on_database? >>`.
pub open spec fn index_tail_a(b: Seq<u8>, st: LexView) -> IndexTail {
    match if_exists_rule(b, st) {
        RuleOutcome::Matched { end: xe, next: s1, .. } => match identifier_rule(b, s1) {
            RuleOutcome::Matched { next: s2, .. } => match index_perm(b, index_start(s2), false, 2) {
                Ok(g) => if g.table is Some {
                    IndexTail::Done { end: index_end(b, xe, g), flag: true, name_from: s1, perm: g }
                } else {
                    IndexTail::NoMatch
                },
                Err(e) => IndexTail::Failed(e),
            },
            RuleOutcome::Failed(e) => IndexTail::Failed(e),
            _ => IndexTail::NoMatch,
        },
        RuleOutcome::Failed(e) => IndexTail::Failed(e),
        _ => IndexTail::NoMatch,
    }
}

/// The second form after the first two keywords:
/// `identifier << partial_if_exists? partial_on_table partial_on_database? >>`.
pub open spec fn index_tail_b(b: Seq<u8>, st: LexView) -> IndexTail {
    match identifier_rule(b, st) {
        RuleOutcome::Matched { end: ye, next: s1, .. } => match index_perm(b, index_start(s1), true, 3) {
            Ok(g) => if g.table is Some {
                IndexTail::Done {
                    end: index_end(
                        b,
                        match g.flag {
                            Some(f) => f.1,
                            None => ye,
                        },
                        g,
                    ),
                    flag: g.flag is Some,
                    name_from: st,
                    perm: g,
                }
            } else {
                IndexTail::NoMatch
            },
            Err(e) => IndexTail::Failed(e),
        },
        RuleOutcome::Failed(e) => IndexTail::Failed(e),
        _ => IndexTail::NoMatch,
    }
}

/// What a `REMOVE INDEX` expression gives after its first two keywords: the first form, or else
/// the second.
pub open spec fn index_tail(b: Seq<u8>, s: LexView) -> IndexTail {
    match index_tail_a(b, s) {
        IndexTail::NoMatch => index_tail_b(b, s),
        t => t,
    }
}

/// The first two keywords of an index expression led by `lead`.
pub open spec fn index_form(lead: &'static str) -> ObjectForm {
    ObjectForm {
        lead,
        kw1: "index",
        kw2: "index",
        flag: FlagKind::IfExists,
        on: OnKind::Table,
        variable: false,
    }
}

/// An index expression led by `lead`, from the state `st` of the input `b`.
pub open spec fn index_stmt_rule(b: Seq<u8>, st: LexView, lead: &'static str) -> RuleOutcome {
    match object_head(b, st, index_form(lead)) {
        RuleOutcome::Matched { start, next: s, .. } => match index_tail(b, s) {
            IndexTail::Done { end, perm, .. } => RuleOutcome::Matched { start, end, next: perm.next },
            IndexTail::NoMatch => RuleOutcome::NoMatch,
            IndexTail::Failed(e) => RuleOutcome::Failed(e),
        },
        o => o,
    }
}

/// The identifier `n` is the one that the owner clause `o`, read from `s`, names.
pub open spec fn owner_ident<'a>(b: Seq<u8>, s: LexView, o: OnKind, n: Ast<'a>) -> bool {
    let from = on_from(b, s, o);
    &&& n.span == identifier_span(b, from)
    &&& n.span.end == on_rule(b, s, o)->end
    &&& n.kind matches AstKind::Identifier(x) && x.spec_bytes() == next_text(b, from)
}

/// What the permutation read, held in trees.
pub struct IndexAcc<'a> {
    pub flag: Option<Ast<'a>>,
    pub table: Option<Ast<'a>>,
    pub database: Option<Ast<'a>>,
}

/// The trees hold what the permutation read.
pub open spec fn acc_agrees<'a>(b: Seq<u8>, acc: IndexAcc<'a>, g: IndexPerm) -> bool {
    &&& acc.flag is Some <==> g.flag is Some
    &&& acc.flag matches Some(f) ==> f.span.end == g.flag.unwrap().1
    &&& acc.table is Some <==> g.table is Some
    &&& acc.table matches Some(t) ==> owner_ident(b, g.table.unwrap(), OnKind::Table, t)
    &&& acc.database is Some <==> g.database is Some
    &&& acc.database matches Some(d) ==> owner_ident(b, g.database.unwrap(), OnKind::Database, d)
}

/// The name, the flag, the table and the database hold what the tail `t` of an index
/// expression read.
pub open spec fn index_parts_agree<'a>(
    b: Seq<u8>,
    t: IndexTail,
    subject: Ast<'a>,
    flag: bool,
    table: Ast<'a>,
    database: Option<Box<Ast<'a>>>,
) -> bool {
    &&& flag == t->flag
    &&& subject.span == identifier_span(b, t->name_from)
    &&& subject.kind matches AstKind::Identifier(x) && x.spec_bytes() == next_text(b, t->name_from)
    &&& owner_ident(b, t->perm.table.unwrap(), OnKind::Table, table)
    &&& database is Some <==> t->perm.database is Some
    &&& database matches Some(d) ==> owner_ident(b, t->perm.database.unwrap(), OnKind::Database, *d)
}

/// The parts hold what an index expression led by `lead` read from `st`.
pub open spec fn index_stmt_parts_agree<'a>(
    b: Seq<u8>,
    st: LexView,
    lead: &'static str,
    subject: Ast<'a>,
    flag: bool,
    table: Ast<'a>,
    database: Option<Box<Ast<'a>>>,
) -> bool {
    index_parts_agree(
        b,
        index_tail(b, object_head(b, st, index_form(lead))->next),
        subject,
        flag,
        table,
        database,
    )
}

/// The parts of an index expression.
pub struct IndexParts<'a> {
    /// The span of the expression.
    pub span: crate::Span,
    /// The name of the index.
    pub subject: Ast<'a>,
    /// Whether `if exists` was there.
    pub flag: bool,
    /// The table's name.
    pub table: Ast<'a>,
    /// The database's name, where it was there.
    pub database: Option<Box<Ast<'a>>>,
}

/// The parser went from `before` to `after`, giving `r`, as the tail `t` of an index expression
/// that starts at `start` says.
pub open spec fn index_tail_step<'a>(
    before: Parser<'a>,
    after: Parser<'a>,
    r: ParserResult<Option<IndexParts<'a>>>,
    start: int,
    t: IndexTail,
) -> bool {
    &&& after.wf()
    &&& after.lexer.string == before.lexer.string
    &&& match t {
        IndexTail::Done { end, perm, .. } => {
            &&& r matches Ok(Some(a))
            &&& a.span.start == start
            &&& a.span.end == end
            &&& after.state() == perm.next
            &&& index_parts_agree(before.bytes(), t, a.subject, a.flag, a.table, a.database)
        },
        IndexTail::NoMatch => r matches Ok(None) && after.state() == before.state(),
        IndexTail::Failed(e) => r matches Err(x) && x == e,
    }
}

impl<'a> Parser<'a> {
    /// One round of the permutation of a `REMOVE INDEX` expression; `true` where a clause was
    /// read.
    fn index_round_exec(&mut self, acc: &mut IndexAcc<'a>, with_flag: bool, Ghost(g): Ghost<IndexPerm>) -> (r:
        ParserResult<bool>)
        requires
            old(self).wf(),
            old(self).state() == g.next,
            acc_agrees(old(self).bytes(), *old(acc), g),
        ensures
            final(self).wf(),
            final(self).lexer.string == old(self).lexer.string,
            match index_round(old(self).bytes(), g, with_flag) {
                IndexRound::Took(g2) => {
                    &&& r == Ok::<bool, ParserError>(true)
                    &&& final(self).state() == g2.next
                    &&& acc_agrees(old(self).bytes(), *final(acc), g2)
                },
                IndexRound::Stopped => {
                    &&& r == Ok::<bool, ParserError>(false)
                    &&& final(self).state() == g.next
                    &&& acc_agrees(old(self).bytes(), *final(acc), g)
                },
                IndexRound::Failed(e) => r matches Err(x) && x == e,
            },
    {
        if with_flag && acc.flag.is_none() {
            if let Some(f) = self.parse_partial_if_exists()? {
                acc.flag = Some(f);
                return Ok(true);
            }
        }
        if acc.table.is_none() {
            if let Some(t) = self.read_on(OnKind::Table)? {
                acc.table = Some(t);
                return Ok(true);
            }
        }
        if acc.database.is_none() {
            if let Some(d) = self.read_on(OnKind::Database)? {
                acc.database = Some(d);
                return Ok(true);
            }
        }
        Ok(false)
    }

    /// At most `rounds` rounds of the permutation of a `REMOVE INDEX` expression.
    fn index_perm_exec(&mut self, with_flag: bool, rounds: usize) -> (r: ParserResult<IndexAcc<'a>>)
        requires
            old(self).wf(),
        ensures
            final(self).wf(),
            final(self).lexer.string == old(self).lexer.string,
            match index_perm(old(self).bytes(), index_start(old(self).state()), with_flag, rounds as nat) {
                Ok(g) => {
                    &&& r matches Ok(acc)
                    &&& final(self).state() == g.next
                    &&& acc_agrees(old(self).bytes(), acc, g)
                },
                Err(e) => r matches Err(x) && x == e,
            },
    {
        let ghost b = self.bytes();
        let ghost g0 = index_start(self.state());
        let ghost mut g = g0;
        let mut acc = IndexAcc { flag: None, table: None, database: None };
        let mut i: usize = 0;
        while i < rounds
            invariant
                self.wf(),
                self.lexer.string == old(self).lexer.string,
                self.bytes() == b,
                b == old(self).bytes(),
                g0 == index_start(old(self).state()),
                0 <= i <= rounds,
                self.state() == g.next,
                acc_agrees(b, acc, g),
                index_perm(b, g0, with_flag, rounds as nat) == index_perm(b, g, with_flag, (rounds - i) as nat),
            decreases rounds - i,
        {
            let ghost before = g;
            let ghost k: nat = (rounds - i) as nat;
            proof {
                assert(index_perm(b, g, with_flag, k) == match index_round(b, g, with_flag) {
                    IndexRound::Took(a) => index_perm(b, a, with_flag, (k - 1) as nat),
                    IndexRound::Stopped => Ok(g),
                    IndexRound::Failed(e) => Err(e),
                });
            }
            let took = match self.index_round_exec(&mut acc, with_flag, Ghost(g)) {
                Ok(t) => t,
                Err(e) => {
                    proof {
                        assert(index_round(b, g, with_flag) is Failed);
                        assert(index_perm(b, g, with_flag, k) == Err::<IndexPerm, ParserError>(e));
                        assert(index_perm(b, g0, with_flag, rounds as nat) == Err::<IndexPerm, ParserError>(e));
                    }
                    return Err(e);
                },
            };
            if !took {
                proof {
                    assert(index_round(b, g, with_flag) is Stopped);
                    assert(index_perm(b, g0, with_flag, rounds as nat) == Ok::<IndexPerm, ParserError>(g));
                }
                return Ok(acc);
            }
            proof {
                g = index_round(b, before, with_flag)->Took_0;
            }
            i = i + 1;
        }
        Ok(acc)
    }
    /// Reads the first form of a `REMOVE INDEX` expression after its first two keywords.
    fn read_index_form_a(&mut self, start: usize) -> (r: ParserResult<Option<IndexParts<'a>>>)
        requires
            old(self).wf(),
        ensures
            index_tail_step(*old(self), *final(self), r, start as int, index_tail_a(old(self).bytes(), old(self).state())),
    {
        let saved = self.get_state();
        if let Some(x) = self.parse_partial_if_exists()? {
            if let Some(name) = self.parse_identifier()? {
                let acc = self.index_perm_exec(false, 2)?;
                let IndexAcc { flag: _, table, database } = acc;
                if let Some(table) = table {
                    let mut end = x.span.end;
                    if table.span.end > end {
                        end = table.span.end;
                    }
                    let database = match database {
                        Some(d) => {
                            if d.span.end > end {
                                end = d.span.end;
                            }
                            Some(Box::new(d))
                        },
                        None => None,
                    };
                    return Ok(Some(IndexParts { span: start..end, subject: name, flag: true, table, database }));
                }
            }
        }
        self.set_state(saved);
        Ok(None)
    }

    /// Reads the second form of a `REMOVE INDEX` expression after its first two keywords.
    fn read_index_form_b(&mut self, start: usize) -> (r: ParserResult<Option<IndexParts<'a>>>)
        requires
            old(self).wf(),
        ensures
            index_tail_step(*old(self), *final(self), r, start as int, index_tail_b(old(self).bytes(), old(self).state())),
    {
        let saved = self.get_state();
        let name = match self.parse_identifier()? {
            Some(n) => n,
            None => return Ok(None),
        };
        let acc = self.index_perm_exec(true, 3)?;
        let IndexAcc { flag, table, database } = acc;
        if let Some(table) = table {
            let mut end = name.span.end;
            let if_exists = flag.is_some();
            if let Some(f) = &flag {
                end = f.span.end;
            }
            if table.span.end > end {
                end = table.span.end;
            }
            let database = match database {
                Some(d) => {
                    if d.span.end > end {
                        end = d.span.end;
                    }
                    Some(Box::new(d))
                },
                None => None,
            };
            return Ok(Some(IndexParts { span: start..end, subject: name, flag: if_exists, table, database }));
        }
        self.set_state(saved);
        Ok(None)
    }

    /// Reads an index expression led by `lead`: the first form, or else the second.
    fn read_index_stmt(&mut self, lead: &'static str) -> (r: ParserResult<Option<IndexParts<'a>>>)
        requires
            old(self).wf(),
        ensures
            final(self).wf(),
            final(self).lexer.string == old(self).lexer.string,
            match index_stmt_rule(old(self).bytes(), old(self).state(), lead) {
                RuleOutcome::Matched { start, end, next } => {
                    &&& r matches Ok(Some(p))
                    &&& p.span.start == start
                    &&& p.span.end == end
                    &&& final(self).state() == next
                    &&& index_stmt_parts_agree(
                        old(self).bytes(),
                        old(self).state(),
                        lead,
                        p.subject,
                        p.flag,
                        p.table,
                        p.database,
                    )
                },
                RuleOutcome::NoMatch => r matches Ok(None) && final(self).state() == old(self).state(),
                RuleOutcome::Failed(e) => r matches Err(x) && x == e,
                RuleOutcome::FailedInt(_) => false,
            },
    {
        let ghost b = self.bytes();
        let ghost st0 = self.state();
        let saved = self.get_state();
        let d = match self.parse_kw(lead)? {
            Some(d) => d,
            None => return Ok(None),
        };
        if self.parse_kw_index()?.is_none() {
            self.set_state(saved);
            return Ok(None);
        }
        proof {
            let s1 = keyword_rule(b, st0, lead@)->next;
            assert(alt_rule(keyword_rule(b, s1, "index"@), keyword_rule(b, s1, "index"@)) is Matched);
            assert(object_head(b, st0, index_form(lead)) is Matched);
            assert(object_head(b, st0, index_form(lead))->next == self.state());
            assert(object_head(b, st0, index_form(lead))->start == d.span.start);
        }
        let start = d.span.start;
        if let Some(p) = self.read_index_form_a(start)? {
            return Ok(Some(p));
        }
        if let Some(p) = self.read_index_form_b(start)? {
            return Ok(Some(p));
        }
        self.set_state(saved);
        Ok(None)
    }

    /// Parses `REMOVE INDEX` expression.
    ///
    /// ```txt
    /// remove_index_exp =
    ///     | kw_remove kw_index partial_if_exists identifier << partial_on_table partial_on_database? >>
    ///     | kw_remove kw_index identifier << partial_if_exists? partial_on_table partial_on_database? >>
    /// ```
    pub fn parse_remove_index_exp(&mut self) -> (r: ParserResult<Option<Ast<'a>>>)
        requires
            old(self).wf(),
        ensures
            rule_step(*old(self), *final(self), r, index_stmt_rule(old(self).bytes(), old(self).state(), "remove")),
            r matches Ok(Some(a)) ==> match a.kind {
                AstKind::RemoveIndex { subject, if_exists, table, database } => index_stmt_parts_agree(
                    old(self).bytes(),
                    old(self).state(),
                    "remove",
                    *subject,
                    if_exists,
                    *table,
                    database,
                ),
                _ => false,
            },
    {
        match self.read_index_stmt("remove")? {
            Some(p) => Ok(
                Some(
                    Ast {
                        span: p.span,
                        kind: AstKind::RemoveIndex {
                            subject: Box::new(p.subject),
                            if_exists: p.flag,
                            table: Box::new(p.table),
                            database: p.database,
                        },
                    },
                ),
            ),
            None => Ok(None),
        }
    }

    /// Parses `DESCRIBE INDEX` expression.
    ///
    /// ```txt
    /// describe_index_exp =
    ///     | kw_describe kw_index partial_if_exists identifier << partial_on_table partial_on_database? >>
    ///     | kw_describe kw_index identifier << partial_if_exists? partial_on_table partial_on_database? >>
    /// ```
    pub fn parse_describe_index_exp(&mut self) -> (r: ParserResult<Option<Ast<'a>>>)
        requires
            old(self).wf(),
        ensures
            rule_step(*old(self), *final(self), r, index_stmt_rule(old(self).bytes(), old(self).state(), "describe")),
            r matches Ok(Some(a)) ==> match a.kind {
                AstKind::DescribeIndex { subject, if_exists, table, database } => index_stmt_parts_agree(
                    old(self).bytes(),
                    old(self).state(),
                    "describe",
                    *subject,
                    if_exists,
                    *table,
                    database,
                ),
                _ => false,
            },
    {
        match self.read_index_stmt("describe")? {
            Some(p) => Ok(
                Some(
                    Ast {
                        span: p.span,
                        kind: AstKind::DescribeIndex {
                            subject: Box::new(p.subject),
                            if_exists: p.flag,
                            table: Box::new(p.table),
                            database: p.database,
                        },
                    },
                ),
            ),
            None => Ok(None),
        }
    }
}

} // verus!

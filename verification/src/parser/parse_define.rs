//! The definitions whose clauses come in any order.

use vstd::prelude::*;

use crate::ast::{Ast, AstKind};
use crate::lexer::{LexView, TokenTag};

use super::parse_clauses::{
    block_at, clause_perm, clause_rule, err_agrees, module_block_from, clause_start, value_agrees, values_agree, variants_from,
    variants_rule, Clause, ClausePerm, ClauseValue,
};
use super::parse_index::owner_ident;
use super::parse_keywords::keyword_rule;
use super::parse_objects::{flag_rule, FlagKind, OnKind};
use super::parse_operations::{ident_at, idents_at};
use super::parse_statements::{identifier_rule, max_int};
use super::parse_types::{fields_agree, type_fields_from};
use super::parser::{alt_rule, rule_step, then_rule, Parser, RuleOutcome};
use super::{ParserError, ParserResult, StateCapture};

verus! {

/// The end of a statement whose name ends at `e`, after the clauses `cs` read from the states
/// `read`, taken from the clause `i` on: a flag puts the end at its own end, every other clause
/// moves it to at least its end.
pub open spec fn perm_end(b: Seq<u8>, e: int, cs: Seq<Clause>, read: Seq<Option<LexView>>, i: nat) -> int
    decreases cs.len() - i,
{
    if i >= cs.len() {
        e
    } else {
        let e2 = match read[i as int] {
            Some(from) => match cs[i as int] {
                Clause::Flag(_) => clause_rule(b, from, cs[i as int])->end,
                _ => max_int(e, clause_rule(b, from, cs[i as int])->end),
            },
            None => e,
        };
        perm_end(b, e2, cs, read, i + 1)
    }
}

/// Every clause that a definition requires (a module's block) was read.
pub open spec fn required_read(cs: Seq<Clause>, read: Seq<Option<LexView>>) -> bool {
    forall|i: int| 0 <= i < cs.len() && #[trigger] cs[i] == Clause::ModuleBlock ==> read[i] is Some
}

/// What a definition reads after its first two keywords.
pub enum NamedTail {
    /// The end, whether the flag was there, the state from which the name was read, whether the
    /// second form was read, and what the permutation of its clauses read.
    Done { end: int, flag: bool, name_from: LexView, form_b: bool, perm: ClausePerm },
    /// No match.
    NoMatch,
    /// A failure, as the outcome says.
    Failed(RuleOutcome),
}

/// The first form after the first two keywords: the flag `f`, the name, then the clauses
/// `cs_a` in any order.
pub open spec fn named_tail_a(b: Seq<u8>, st: LexView, f: FlagKind, cs_a: Seq<Clause>) -> NamedTail {
    match flag_rule(b, st, f) {
        RuleOutcome::Matched { next: s1, .. } => match identifier_rule(b, s1) {
            RuleOutcome::Matched { end: ye, next: s2, .. } => match clause_perm(
                b,
                cs_a,
                clause_start(cs_a.len(), s2),
                cs_a.len(),
            ) {
                Ok(g) => if required_read(cs_a, g.read) {
                    NamedTail::Done {
                        end: perm_end(b, ye, cs_a, g.read, 0),
                        flag: true,
                        name_from: s1,
                        form_b: false,
                        perm: g,
                    }
                } else {
                    NamedTail::NoMatch
                },
                Err(o) => NamedTail::Failed(o),
            },
            RuleOutcome::Failed(e) => NamedTail::Failed(RuleOutcome::Failed(e)),
            _ => NamedTail::NoMatch,
        },
        RuleOutcome::Failed(e) => NamedTail::Failed(RuleOutcome::Failed(e)),
        _ => NamedTail::NoMatch,
    }
}

/// The second form after the first two keywords: the name, then the clauses `cs_b`, the flag
/// first among them, in any order.
pub open spec fn named_tail_b(b: Seq<u8>, st: LexView, cs_b: Seq<Clause>) -> NamedTail {
    match identifier_rule(b, st) {
        RuleOutcome::Matched { end: ye, next: s1, .. } => match clause_perm(
            b,
            cs_b,
            clause_start(cs_b.len(), s1),
            cs_b.len(),
        ) {
            Ok(g) => if required_read(cs_b, g.read) {
                NamedTail::Done {
                    end: perm_end(b, ye, cs_b, g.read, 0),
                    flag: g.read[0] is Some,
                    name_from: st,
                    form_b: true,
                    perm: g,
                }
            } else {
                NamedTail::NoMatch
            },
            Err(o) => NamedTail::Failed(o),
        },
        RuleOutcome::Failed(e) => NamedTail::Failed(RuleOutcome::Failed(e)),
        _ => NamedTail::NoMatch,
    }
}

/// The first two keywords of a definition: `lead`, then `kw` or `kw2`.
pub open spec fn named_head(b: Seq<u8>, st: LexView, lead: Seq<char>, kw: Seq<char>, kw2: Seq<char>) -> RuleOutcome {
    then_rule(keyword_rule(b, st, lead), |s: LexView| alt_rule(keyword_rule(b, s, kw), keyword_rule(b, s, kw2)))
}

/// What a definition reads after its first two keywords, from `s`: the first form, or else the
/// second.
pub open spec fn named_tail(
    b: Seq<u8>,
    s: LexView,
    f: FlagKind,
    cs_a: Seq<Clause>,
    cs_b: Seq<Clause>,
) -> NamedTail {
    match named_tail_a(b, s, f, cs_a) {
        NamedTail::NoMatch => named_tail_b(b, s, cs_b),
        t => t,
    }
}

/// A definition led by the keywords `lead` and `kw` (or `kw2`), with the flag `f` and the
/// clauses `cs_a` (first form) or `cs_b` (second form), from the state `st` of the input `b`.
pub open spec fn named_rule(
    b: Seq<u8>,
    st: LexView,
    lead: Seq<char>,
    kw: Seq<char>,
    kw2: Seq<char>,
    f: FlagKind,
    cs_a: Seq<Clause>,
    cs_b: Seq<Clause>,
) -> RuleOutcome {
    match named_head(b, st, lead, kw, kw2) {
        RuleOutcome::Matched { start, next: s, .. } => match named_tail(b, s, f, cs_a, cs_b) {
            NamedTail::Done { end, perm, .. } => RuleOutcome::Matched { start, end, next: perm.next },
            NamedTail::NoMatch => RuleOutcome::NoMatch,
            NamedTail::Failed(o) => o,
        },
        o => o,
    }
}

/// The parts of a definition.
pub struct NamedParts<'a> {
    /// The span of the definition.
    pub span: crate::Span,
    /// The name.
    pub name: Ast<'a>,
    /// Whether the flag was there.
    pub flag: bool,
    /// Whether the second form was read.
    pub form_b: bool,
    /// What each clause gave, where it was there.
    pub values: Vec<Option<ClauseValue<'a>>>,
}

/// The parts `p` hold what the tail `t` read.
pub open spec fn named_parts_agree<'a>(
    b: Seq<u8>,
    t: NamedTail,
    cs_a: Seq<Clause>,
    cs_b: Seq<Clause>,
    p: NamedParts<'a>,
) -> bool {
    &&& t is Done
    &&& p.flag == t->flag
    &&& p.form_b == t->form_b
    &&& ident_at(b, t->name_from, p.name)
    &&& values_agree(b, if t->form_b { cs_b } else { cs_a }, p.values@, t->perm)
}

/// The clauses of an enum in the first form.
pub open spec fn enum_clauses_a() -> Seq<Clause> {
    seq![Clause::On(OnKind::Database), Clause::Variants]
}

/// The clauses of an enum in the second form.
pub open spec fn enum_clauses_b() -> Seq<Clause> {
    seq![Clause::Flag(FlagKind::IfNotExists), Clause::On(OnKind::Database), Clause::Variants]
}

/// A `DEFINE ENUM` statement, from the state `st` of the input `b`.
pub open spec fn define_enum_rule(b: Seq<u8>, st: LexView) -> RuleOutcome {
    named_rule(b, st, "define"@, "enum"@, "enum"@, FlagKind::IfNotExists, enum_clauses_a(), enum_clauses_b())
}

/// The tree of a `DEFINE ENUM` statement read from `st` has the kind `kind`: the name, the flag,
/// the database and the variants that were read.
pub open spec fn define_enum_kind<'a>(b: Seq<u8>, st: LexView, kind: AstKind<'a>) -> bool {
    let t = named_tail(
        b,
        named_head(b, st, "define"@, "enum"@, "enum"@)->next,
        FlagKind::IfNotExists,
        enum_clauses_a(),
        enum_clauses_b(),
    );
    let off: int = if t->form_b { 1 } else { 0 };
    let read = t->perm.read;
    match kind {
        AstKind::DefineEnum { name, if_not_exists, database, variants } => {
            &&& ident_at(b, t->name_from, *name)
            &&& if_not_exists == t->flag
            &&& database is Some <==> read[off] is Some
            &&& database matches Some(d) ==> owner_ident(b, read[off].unwrap(), OnKind::Database, *d)
            &&& read[off + 1] is None ==> variants@.len() == 0
            &&& read[off + 1] matches Some(from) ==> idents_at(b, variants_from(b, from), variants@)
        },
        _ => false,
    }
}

/// The clauses of a type in the first form.
pub open spec fn type_clauses_a() -> Seq<Clause> {
    seq![Clause::On(OnKind::Database), Clause::TypeFields]
}

/// The clauses of a type in the second form.
pub open spec fn type_clauses_b() -> Seq<Clause> {
    seq![Clause::Flag(FlagKind::IfNotExists), Clause::On(OnKind::Database), Clause::TypeFields]
}

/// A `DEFINE TYPE` statement, from the state `st` of the input `b`.
pub open spec fn define_type_rule(b: Seq<u8>, st: LexView) -> RuleOutcome {
    named_rule(b, st, "define"@, "type"@, "type"@, FlagKind::IfNotExists, type_clauses_a(), type_clauses_b())
}

/// The tree of a `DEFINE TYPE` statement read from `st` has the kind `kind`: the name, the flag,
/// the database and the fields that were read.
pub open spec fn define_type_kind<'a>(b: Seq<u8>, st: LexView, kind: AstKind<'a>) -> bool {
    let t = named_tail(
        b,
        named_head(b, st, "define"@, "type"@, "type"@)->next,
        FlagKind::IfNotExists,
        type_clauses_a(),
        type_clauses_b(),
    );
    let off: int = if t->form_b { 1 } else { 0 };
    let read = t->perm.read;
    match kind {
        AstKind::DefineType { name, if_not_exists, database, fields } => {
            &&& ident_at(b, t->name_from, *name)
            &&& if_not_exists == t->flag
            &&& database is Some <==> read[off] is Some
            &&& database matches Some(d) ==> owner_ident(b, read[off].unwrap(), OnKind::Database, *d)
            &&& read[off + 1] is None ==> fields@.len() == 0
            &&& read[off + 1] matches Some(from) ==> fields_agree(b, type_fields_from(b, from), fields@)
        },
        _ => false,
    }
}

/// The clauses of a module in the first form.
pub open spec fn module_clauses_a() -> Seq<Clause> {
    seq![Clause::ModuleBlock, Clause::On(OnKind::Database)]
}

/// The clauses of a module in the second form.
pub open spec fn module_clauses_b() -> Seq<Clause> {
    seq![Clause::Flag(FlagKind::IfNotExists), Clause::ModuleBlock, Clause::On(OnKind::Database)]
}

/// A `DEFINE MODULE` statement, from the state `st` of the input `b`.
pub open spec fn define_module_rule(b: Seq<u8>, st: LexView) -> RuleOutcome {
    named_rule(b, st, "define"@, "module"@, "mod"@, FlagKind::IfNotExists, module_clauses_a(), module_clauses_b())
}

/// The tree of a `DEFINE MODULE` statement read from `st` has the kind `kind`: the name, the
/// flag, the database and the block that were read.
pub open spec fn define_module_kind<'a>(b: Seq<u8>, st: LexView, kind: AstKind<'a>) -> bool {
    let t = named_tail(
        b,
        named_head(b, st, "define"@, "module"@, "mod"@)->next,
        FlagKind::IfNotExists,
        module_clauses_a(),
        module_clauses_b(),
    );
    let off: int = if t->form_b { 1 } else { 0 };
    let read = t->perm.read;
    match kind {
        AstKind::DefineModule { name, if_not_exists, database, block } => {
            &&& ident_at(b, t->name_from, *name)
            &&& if_not_exists == t->flag
            &&& block_at(b, module_block_from(b, read[off].unwrap()), *block)
            &&& database is Some <==> read[off + 1] is Some
            &&& database matches Some(d) ==> owner_ident(b, read[off + 1].unwrap(), OnKind::Database, *d)
        },
        _ => false,
    }
}

impl<'a> Parser<'a> {
    /// Every clause of `cs` that is required gave a value.
    fn required_ok(cs: &Vec<Clause>, values: &Vec<Option<ClauseValue<'a>>>, Ghost(b): Ghost<Seq<u8>>, Ghost(g): Ghost<ClausePerm>) -> (r: bool)
        requires
            values_agree(b, cs@, values@, g),
        ensures
            r == required_read(cs@, g.read),
    {
        let mut i: usize = 0;
        while i < cs.len()
            invariant
                values_agree(b, cs@, values@, g),
                0 <= i <= cs.len(),
                forall|j: int| 0 <= j < i && #[trigger] cs@[j] == Clause::ModuleBlock ==> g.read[j] is Some,
            decreases cs.len() - i,
        {
            if let Clause::ModuleBlock = cs[i] {
                if values[i].is_none() {
                    proof {
                        assert(values@[i as int] is None);
                    }
                    return false;
                }
                proof {
                    assert(values@[i as int] is Some);
                }
            }
            i = i + 1;
        }
        true
    }

    /// The end of a statement whose name ends at `e`, after the clauses `cs` gave `values`.
    fn perm_end_exec(e: usize, cs: &Vec<Clause>, values: &Vec<Option<ClauseValue<'a>>>, Ghost(b): Ghost<Seq<u8>>, Ghost(g): Ghost<ClausePerm>) -> (r: usize)
        requires
            values_agree(b, cs@, values@, g),
        ensures
            r == perm_end(b, e as int, cs@, g.read, 0),
    {
        let mut end = e;
        let mut i: usize = 0;
        while i < cs.len()
            invariant
                values_agree(b, cs@, values@, g),
                0 <= i <= cs.len(),
                perm_end(b, e as int, cs@, g.read, 0) == perm_end(b, end as int, cs@, g.read, i as nat),
            decreases cs.len() - i,
        {
            match &values[i] {
                Some(v) => {
                    let ve = match v {
                        ClauseValue::Tree(a) => a.span.end,
                        ClauseValue::List(_, x) => *x,
                        ClauseValue::Fields(_, x) => *x,
                        ClauseValue::Block(_, x) => *x,
                    };
                    proof {
                        assert(values@[i as int] is Some);
                        assert(value_agrees(b, cs@[i as int], g.read[i as int].unwrap(), values@[i as int].unwrap()));
                    }
                    match cs[i] {
                        Clause::Flag(_) => {
                            end = ve;
                        },
                        _ => {
                            if ve > end {
                                end = ve;
                            }
                        },
                    }
                },
                None => {},
            }
            i = i + 1;
        }
        end
    }

    /// Reads a definition led by the keywords `lead` and `kw`, with the flag `f` and the
    /// clauses `cs_a` (first form) or `cs_b` (second form).
    fn read_named_stmt(
        &mut self,
        lead: &'static str,
        kw: &'static str,
        kw2: &'static str,
        f: FlagKind,
        cs_a: &Vec<Clause>,
        cs_b: &Vec<Clause>,
    ) -> (r: ParserResult<Option<NamedParts<'a>>>)
        requires
            old(self).wf(),
            cs_b@.len() > 0,
            cs_b@[0] == Clause::Flag(f),
        ensures
            final(self).wf(),
            final(self).lexer.string == old(self).lexer.string,
            match named_rule(old(self).bytes(), old(self).state(), lead@, kw@, kw2@, f, cs_a@, cs_b@) {
                RuleOutcome::Matched { start, end, next } => {
                    &&& r matches Ok(Some(p))
                    &&& p.span.start == start
                    &&& p.span.end == end
                    &&& final(self).state() == next
                    &&& named_parts_agree(
                        old(self).bytes(),
                        named_tail(
                            old(self).bytes(),
                            named_head(old(self).bytes(), old(self).state(), lead@, kw@, kw2@)->next,
                            f,
                            cs_a@,
                            cs_b@,
                        ),
                        cs_a@,
                        cs_b@,
                        p,
                    )
                },
                RuleOutcome::NoMatch => r matches Ok(None) && final(self).state() == old(self).state(),
                o => r matches Err(x) && err_agrees(x, o),
            },
    {
        let ghost b = self.bytes();
        let ghost st0 = self.state();
        let saved = self.get_state();
        let d = match self.parse_kw(lead)? {
            Some(d) => d,
            None => return Ok(None),
        };
        let k = match self.parse_kw(kw)? {
            Some(k) => Some(k),
            None => self.parse_kw(kw2)?,
        };
        if k.is_none() {
            self.set_state(saved);
            return Ok(None);
        }
        let ghost s = self.state();
        proof {
            let s1 = keyword_rule(b, st0, lead@)->next;
            assert(alt_rule(keyword_rule(b, s1, kw@), keyword_rule(b, s1, kw2@)) is Matched);
            assert(named_head(b, st0, lead@, kw@, kw2@) is Matched);
            assert(named_head(b, st0, lead@, kw@, kw2@)->next == s);
            assert(named_head(b, st0, lead@, kw@, kw2@)->start == d.span.start);
        }
        let start = d.span.start;
        let after_head = self.get_state();
        if let Some(_x) = self.read_flag(f)? {
            let ghost s1 = self.state();
            if let Some(name) = self.parse_identifier()? {
                let ghost s2 = self.state();
                let values = self.clause_perm_exec(cs_a, cs_a.len())?;
                let ghost g = clause_perm(b, cs_a@, clause_start(cs_a@.len(), s2), cs_a@.len() as nat)->Ok_0;
                if Self::required_ok(cs_a, &values, Ghost(b), Ghost(g)) {
                    let end = Self::perm_end_exec(name.span.end, cs_a, &values, Ghost(b), Ghost(g));
                    return Ok(Some(NamedParts { span: start..end, name, flag: true, form_b: false, values }));
                }
            }
            self.set_state(after_head);
        }
        let name = match self.parse_identifier()? {
            Some(n) => n,
            None => {
                self.set_state(saved);
                return Ok(None);
            },
        };
        let ghost s1 = self.state();
        let values = self.clause_perm_exec(cs_b, cs_b.len())?;
        let ghost g = clause_perm(b, cs_b@, clause_start(cs_b@.len(), s1), cs_b@.len() as nat)->Ok_0;
        if !Self::required_ok(cs_b, &values, Ghost(b), Ghost(g)) {
            self.set_state(saved);
            return Ok(None);
        }
        let flag = values[0].is_some();
        let end = Self::perm_end_exec(name.span.end, cs_b, &values, Ghost(b), Ghost(g));
        Ok(Some(NamedParts { span: start..end, name, flag, form_b: true, values }))
    }
    /// Parses a `DEFINE ENUM` statement.
    ///
    /// ```txt
    /// define_enum_stmt =
    ///     | kw_define kw_enum partial_if_not_exists identifier << partial_on_database? partial_enum_variants? >>
    ///     | kw_define kw_enum identifier << partial_if_not_exists? partial_on_database? partial_enum_variants? >>
    /// ```
    pub fn parse_define_enum_stmt(&mut self) -> (r: ParserResult<Option<Ast<'a>>>)
        requires
            old(self).wf(),
        ensures
            rule_step(*old(self), *final(self), r, define_enum_rule(old(self).bytes(), old(self).state())),
            r matches Ok(Some(a)) ==> define_enum_kind(old(self).bytes(), old(self).state(), a.kind),
    {
        let cs_a = vec![Clause::On(OnKind::Database), Clause::Variants];
        let cs_b = vec![Clause::Flag(FlagKind::IfNotExists), Clause::On(OnKind::Database), Clause::Variants];
        proof {
            assert(cs_a@ =~= enum_clauses_a());
            assert(cs_b@ =~= enum_clauses_b());
        }
        match self.read_named_stmt("define", "enum", "enum", FlagKind::IfNotExists, &cs_a, &cs_b)? {
            None => Ok(None),
            Some(p) => {
                let NamedParts { span, name, flag, form_b, mut values } = p;
                let ghost vals = values@;
                let variants_v = values.pop();
                let db_v = values.pop();
                let database = match db_v {
                    Some(Some(ClauseValue::Tree(a))) => Some(Box::new(a)),
                    _ => None,
                };
                let variants = match variants_v {
                    Some(Some(ClauseValue::List(v, _))) => v,
                    _ => Vec::new(),
                };
                Ok(
                    Some(
                        Ast {
                            span,
                            kind: AstKind::DefineEnum {
                                name: Box::new(name),
                                if_not_exists: flag,
                                database,
                                variants,
                            },
                        },
                    ),
                )
            },
        }
    }
    /// Parses a `DEFINE TYPE` statement.
    ///
    /// ```txt
    /// define_type_stmt =
    ///     | kw_define kw_type partial_if_not_exists identifier << partial_on_database? partial_type_fields? >>
    ///     | kw_define kw_type identifier << partial_if_not_exists? partial_on_database? partial_type_fields? >>
    /// ```
    pub fn parse_define_type_stmt(&mut self) -> (r: ParserResult<Option<Ast<'a>>>)
        requires
            old(self).wf(),
        ensures
            rule_step(*old(self), *final(self), r, define_type_rule(old(self).bytes(), old(self).state())),
            r matches Ok(Some(a)) ==> define_type_kind(old(self).bytes(), old(self).state(), a.kind),
    {
        let cs_a = vec![Clause::On(OnKind::Database), Clause::TypeFields];
        let cs_b = vec![Clause::Flag(FlagKind::IfNotExists), Clause::On(OnKind::Database), Clause::TypeFields];
        proof {
            assert(cs_a@ =~= type_clauses_a());
            assert(cs_b@ =~= type_clauses_b());
        }
        match self.read_named_stmt("define", "type", "type", FlagKind::IfNotExists, &cs_a, &cs_b)? {
            None => Ok(None),
            Some(p) => {
                let NamedParts { span, name, flag, form_b, mut values } = p;
                let fields_v = values.pop();
                let db_v = values.pop();
                let database = match db_v {
                    Some(Some(ClauseValue::Tree(a))) => Some(Box::new(a)),
                    _ => None,
                };
                let fields = match fields_v {
                    Some(Some(ClauseValue::Fields(v, _))) => v,
                    _ => Vec::new(),
                };
                Ok(
                    Some(
                        Ast {
                            span,
                            kind: AstKind::DefineType { name: Box::new(name), if_not_exists: flag, database, fields },
                        },
                    ),
                )
            },
        }
    }
    /// Parses a `DEFINE MODULE` statement.
    ///
    /// ```txt
    /// define_module_stmt =
    ///     | kw_define (kw_module | kw_mod) partial_if_not_exists identifier << partial_module_block partial_on_database? >>
    ///     | kw_define (kw_module | kw_mod) identifier << partial_if_not_exists? partial_module_block partial_on_database? >>
    /// ```
    pub fn parse_define_module_stmt(&mut self) -> (r: ParserResult<Option<Ast<'a>>>)
        requires
            old(self).wf(),
        ensures
            rule_step(*old(self), *final(self), r, define_module_rule(old(self).bytes(), old(self).state())),
            r matches Ok(Some(a)) ==> define_module_kind(old(self).bytes(), old(self).state(), a.kind),
    {
        let cs_a = vec![Clause::ModuleBlock, Clause::On(OnKind::Database)];
        let cs_b = vec![Clause::Flag(FlagKind::IfNotExists), Clause::ModuleBlock, Clause::On(OnKind::Database)];
        proof {
            assert(cs_a@ =~= module_clauses_a());
            assert(cs_b@ =~= module_clauses_b());
        }
        match self.read_named_stmt("define", "module", "mod", FlagKind::IfNotExists, &cs_a, &cs_b)? {
            None => Ok(None),
            Some(p) => {
                let NamedParts { span, name, flag, form_b, mut values } = p;
                let ghost vals = values@;
                let db_v = values.pop();
                let block_v = values.pop();
                let database = match db_v {
                    Some(Some(ClauseValue::Tree(a))) => Some(Box::new(a)),
                    _ => None,
                };
                match block_v {
                    Some(Some(ClauseValue::Block(block, _))) => Ok(
                        Some(
                            Ast {
                                span,
                                kind: AstKind::DefineModule {
                                    name: Box::new(name),
                                    if_not_exists: flag,
                                    database,
                                    block: Box::new(block),
                                },
                            },
                        ),
                    ),
                    _ => {
                        proof {
                            let off: int = if form_b { 1 } else { 0 };
                            assert(vals[off] is Some);
                        }
                        Ok(None)
                    },
                }
            },
        }
    }
}

} // verus!

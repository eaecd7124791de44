//! The statements that name an object of a database: a leading keyword, the object's keyword,
//! an optional flag, the object's name and an optional owner, in one of two forms.

use vstd::prelude::*;
use vstd::string::*;

use crate::ast::{Ast, AstKind};
use crate::lexer::{LexView, TokenTag};

use super::parse_keywords::keyword_rule;
use super::parse_literals::next_text;
use super::parse_statements::{
    database_kw_rule, identifier_rule, identifier_span, if_not_exists_rule, max_int,
    namespace_kw_rule, on_database_rule, on_namespace_rule, on_table_rule,
};
use super::parser::{alt_rule, rule_step, then_rule, token_either, token_rule, Parser, RuleOutcome};
use super::{ParserError, ParserResult, StateCapture};

verus! {

/// Which flag a statement takes.
#[derive(Clone, Copy)]
pub enum FlagKind {
    /// `IF NOT EXISTS`.
    IfNotExists,
    /// `IF EXISTS`.
    IfExists,
}

/// Which owner a statement takes.
#[derive(Clone, Copy)]
pub enum OnKind {
    /// `ON NAMESPACE` and an identifier.
    Namespace,
    /// `ON DATABASE` and an identifier.
    Database,
    /// `ON TABLE` and an identifier.
    Table,
}

/// The shape of a statement that names an object: its leading keyword, the two spellings of the
/// object's keyword, its flag, its owner, and whether the name is a variable rather than an
/// identifier.
#[derive(Clone, Copy)]
pub struct ObjectForm {
    pub lead: &'static str,
    pub kw1: &'static str,
    pub kw2: &'static str,
    pub flag: FlagKind,
    pub on: OnKind,
    pub variable: bool,
}

/// The parts of a statement that names an object.
pub struct ObjectParts<'a> {
    /// The span of the statement.
    pub span: crate::Span,
    /// The name of the object.
    pub subject: Ast<'a>,
    /// Whether the flag was there.
    pub flag: bool,
    /// The owner's name, where it was there.
    pub on: Option<Box<Ast<'a>>>,
}

/// The keywords `if exists` (or `if exist`).
pub open spec fn if_exists_rule(b: Seq<u8>, st: LexView) -> RuleOutcome {
    then_rule(
        keyword_rule(b, st, "if"@),
        |s: LexView| alt_rule(keyword_rule(b, s, "exists"@), keyword_rule(b, s, "exist"@)),
    )
}

/// The flag of a statement.
pub open spec fn flag_rule(b: Seq<u8>, st: LexView, f: FlagKind) -> RuleOutcome {
    match f {
        FlagKind::IfNotExists => if_not_exists_rule(b, st),
        FlagKind::IfExists => if_exists_rule(b, st),
    }
}

/// The owner of a statement.
pub open spec fn on_rule(b: Seq<u8>, st: LexView, o: OnKind) -> RuleOutcome {
    match o {
        OnKind::Namespace => on_namespace_rule(b, st),
        OnKind::Database => on_database_rule(b, st),
        OnKind::Table => on_table_rule(b, st),
    }
}

/// The state from which the owner reads its identifier.
pub open spec fn on_from(b: Seq<u8>, st: LexView, o: OnKind) -> LexView {
    let s = keyword_rule(b, st, "on"@)->next;
    match o {
        OnKind::Namespace => namespace_kw_rule(b, s)->next,
        OnKind::Database => database_kw_rule(b, s)->next,
        OnKind::Table => keyword_rule(b, s, "table"@)->next,
    }
}

/// The name of the object: a variable or an identifier.
pub open spec fn subject_rule(b: Seq<u8>, st: LexView, variable: bool) -> RuleOutcome {
    if variable {
        token_rule(b, st, token_either(TokenTag::Variable, TokenTag::Variable))
    } else {
        identifier_rule(b, st)
    }
}

/// The tree of the name read from `st` has the kind `kind`.
pub open spec fn subject_kind<'a>(b: Seq<u8>, st: LexView, variable: bool, kind: AstKind<'a>) -> bool {
    if variable {
        kind matches AstKind::Variable(s) && s.spec_bytes() == next_text(b, st)
    } else {
        kind matches AstKind::Identifier(s) && s.spec_bytes() == next_text(b, st)
    }
}

/// What the flag and the owner, both optional and in either order, give.
pub enum OptPairOutcome {
    /// The span of the flag where it was there; the state from which the owner was read where
    /// it was there; and the state after both.
    Done { flag: Option<(int, int)>, on_from: Option<LexView>, next: LexView },
    /// An error.
    Failed(ParserError),
}

/// The flag and the owner, both optional, in either order: each round tries the rules not yet
/// read, the flag first, and takes the first that matches; a round in which none matches ends
/// the permutation.
pub open spec fn flag_and_owner_rule(b: Seq<u8>, st: LexView, form: ObjectForm) -> OptPairOutcome {
    match flag_rule(b, st, form.flag) {
        RuleOutcome::Matched { start: xs, end: xe, next: s1 } => match on_rule(b, s1, form.on) {
            RuleOutcome::Matched { next: s2, .. } => OptPairOutcome::Done {
                flag: Some((xs, xe)),
                on_from: Some(s1),
                next: s2,
            },
            RuleOutcome::Failed(e) => OptPairOutcome::Failed(e),
            _ => OptPairOutcome::Done { flag: Some((xs, xe)), on_from: None, next: s1 },
        },
        RuleOutcome::Failed(e) => OptPairOutcome::Failed(e),
        _ => match on_rule(b, st, form.on) {
            RuleOutcome::Matched { next: s1, .. } => match flag_rule(b, s1, form.flag) {
                RuleOutcome::Matched { start: xs, end: xe, next: s2 } => OptPairOutcome::Done {
                    flag: Some((xs, xe)),
                    on_from: Some(st),
                    next: s2,
                },
                RuleOutcome::Failed(e) => OptPairOutcome::Failed(e),
                _ => OptPairOutcome::Done { flag: None, on_from: Some(st), next: s1 },
            },
            RuleOutcome::Failed(e) => OptPairOutcome::Failed(e),
            _ => OptPairOutcome::Done { flag: None, on_from: None, next: st },
        },
    }
}

/// What a statement that names an object reads after its first two keywords.
pub enum ObjectTail {
    /// The statement's end, the flag, the state from which the name was read, the state from
    /// which the owner was read where it was there, and the state after the statement.
    Done { end: int, flag: bool, name_from: LexView, on_from: Option<LexView>, next: LexView },
    /// No match.
    NoMatch,
    /// An error.
    Failed(ParserError),
}

/// The end of the statement: the end of the name, replaced by the end of the flag where it was
/// there, and then at least the end of the owner's name.
pub open spec fn object_end(
    b: Seq<u8>,
    name_end: int,
    flag: Option<(int, int)>,
    on_from: Option<LexView>,
    o: OnKind,
) -> int {
    let e = match flag {
        Some(f) => f.1,
        None => name_end,
    };
    match on_from {
        Some(s) => max_int(e, on_rule(b, s, o)->end),
        None => e,
    }
}

/// The first form after the first two keywords: `flag name owner?`.
pub open spec fn object_tail_a(b: Seq<u8>, st: LexView, form: ObjectForm) -> ObjectTail {
    match flag_rule(b, st, form.flag) {
        RuleOutcome::Matched { start: xs, end: xe, next: s1 } => match subject_rule(
            b,
            s1,
            form.variable,
        ) {
            RuleOutcome::Matched { end: ye, next: s2, .. } => match on_rule(b, s2, form.on) {
                RuleOutcome::Matched { next: s3, .. } => ObjectTail::Done {
                    end: object_end(b, ye, Some((xs, xe)), Some(s2), form.on),
                    flag: true,
                    name_from: s1,
                    on_from: Some(s2),
                    next: s3,
                },
                RuleOutcome::Failed(e) => ObjectTail::Failed(e),
                _ => ObjectTail::Done {
                    end: object_end(b, ye, Some((xs, xe)), None, form.on),
                    flag: true,
                    name_from: s1,
                    on_from: None,
                    next: s2,
                },
            },
            RuleOutcome::Failed(e) => ObjectTail::Failed(e),
            _ => ObjectTail::NoMatch,
        },
        RuleOutcome::Failed(e) => ObjectTail::Failed(e),
        _ => ObjectTail::NoMatch,
    }
}

/// The second form after the first two keywords: `name << flag? owner? >>`.
pub open spec fn object_tail_b(b: Seq<u8>, st: LexView, form: ObjectForm) -> ObjectTail {
    match subject_rule(b, st, form.variable) {
        RuleOutcome::Matched { end: ye, next: s1, .. } => match flag_and_owner_rule(b, s1, form) {
            OptPairOutcome::Done { flag, on_from, next } => ObjectTail::Done {
                end: object_end(b, ye, flag, on_from, form.on),
                flag: flag is Some,
                name_from: st,
                on_from,
                next,
            },
            OptPairOutcome::Failed(e) => ObjectTail::Failed(e),
        },
        RuleOutcome::Failed(e) => ObjectTail::Failed(e),
        _ => ObjectTail::NoMatch,
    }
}

/// The first two keywords of the statement.
pub open spec fn object_head(b: Seq<u8>, st: LexView, form: ObjectForm) -> RuleOutcome {
    then_rule(
        keyword_rule(b, st, form.lead@),
        |s: LexView| alt_rule(keyword_rule(b, s, form.kw1@), keyword_rule(b, s, form.kw2@)),
    )
}

/// What the statement gives after its first two keywords, read from `s`: the first form, or
/// else the second.
pub open spec fn object_tail(b: Seq<u8>, s: LexView, form: ObjectForm) -> ObjectTail {
    match object_tail_a(b, s, form) {
        ObjectTail::NoMatch => object_tail_b(b, s, form),
        t => t,
    }
}

/// A statement of the shape `form`, from the state `st` of the input `b`.
pub open spec fn object_rule(b: Seq<u8>, st: LexView, form: ObjectForm) -> RuleOutcome {
    match object_head(b, st, form) {
        RuleOutcome::Matched { start, next: s, .. } => match object_tail(b, s, form) {
            ObjectTail::Done { end, next, .. } => RuleOutcome::Matched { start, end, next },
            ObjectTail::NoMatch => RuleOutcome::NoMatch,
            ObjectTail::Failed(e) => RuleOutcome::Failed(e),
        },
        o => o,
    }
}

/// The name, the flag and the owner hold what the tail `t` read.
pub open spec fn parts_agree<'a>(
    b: Seq<u8>,
    t: ObjectTail,
    form: ObjectForm,
    subject: Ast<'a>,
    flag: bool,
    on: Option<Box<Ast<'a>>>,
) -> bool {
    &&& flag == t->flag
    &&& subject.span.start == subject_rule(b, t->name_from, form.variable)->start
    &&& subject.span.end == subject_rule(b, t->name_from, form.variable)->end
    &&& subject_kind(b, t->name_from, form.variable, subject.kind)
    &&& on is Some <==> t->on_from is Some
    &&& on matches Some(n) ==> {
        let from = on_from(b, t->on_from.unwrap(), form.on);
        &&& n.span == identifier_span(b, from)
        &&& n.kind matches AstKind::Identifier(s) && s.spec_bytes() == next_text(b, from)
    }
}

/// The name, the flag and the owner hold what a statement of the shape `form` read from `st`.
pub open spec fn object_parts_agree<'a>(
    b: Seq<u8>,
    st: LexView,
    form: ObjectForm,
    subject: Ast<'a>,
    flag: bool,
    on: Option<Box<Ast<'a>>>,
) -> bool {
    parts_agree(b, object_tail(b, object_head(b, st, form)->next, form), form, subject, flag, on)
}

/// The parser went from `before` to `after`, giving `r`, as the tail `t` of a statement that
/// starts at `start` says.
pub open spec fn tail_step<'a>(
    before: Parser<'a>,
    after: Parser<'a>,
    r: ParserResult<Option<ObjectParts<'a>>>,
    start: int,
    t: ObjectTail,
    form: ObjectForm,
) -> bool {
    &&& after.wf()
    &&& after.lexer.string == before.lexer.string
    &&& match t {
        ObjectTail::Done { end, next, .. } => {
            &&& r matches Ok(Some(p))
            &&& p.span.start == start
            &&& p.span.end == end
            &&& after.state() == next
            &&& parts_agree(before.bytes(), t, form, p.subject, p.flag, p.on)
        },
        ObjectTail::NoMatch => r matches Ok(None) && after.state() == before.state(),
        ObjectTail::Failed(e) => r matches Err(x) && x == e,
    }
}

/// The parser went from `before` to `after`, giving `r`, as a statement of the shape `form`
/// says.
pub open spec fn object_step<'a>(
    before: Parser<'a>,
    after: Parser<'a>,
    r: ParserResult<Option<ObjectParts<'a>>>,
    form: ObjectForm,
) -> bool {
    let b = before.bytes();
    let st = before.state();
    &&& after.wf()
    &&& after.lexer.string == before.lexer.string
    &&& match object_rule(b, st, form) {
        RuleOutcome::Matched { start, end, next } => {
            &&& r matches Ok(Some(p))
            &&& p.span.start == start
            &&& p.span.end == end
            &&& after.state() == next
            &&& object_parts_agree(b, st, form, p.subject, p.flag, p.on)
        },
        RuleOutcome::NoMatch => r matches Ok(None) && after.state() == st,
        RuleOutcome::Failed(e) => r matches Err(x) && x == e,
        RuleOutcome::FailedInt(_) => false,
    }
}

/// The shape of the statement that `parse_define_database_stmt` reads.
pub open spec fn define_database_form() -> ObjectForm {
    ObjectForm { lead: "define", kw1: "database", kw2: "db", flag: FlagKind::IfNotExists, on: OnKind::Namespace, variable: false }
}

/// The shape of the statement that `parse_remove_database_exp` reads.
pub open spec fn remove_database_form() -> ObjectForm {
    ObjectForm { lead: "remove", kw1: "database", kw2: "db", flag: FlagKind::IfExists, on: OnKind::Namespace, variable: false }
}

/// The shape of the statement that `parse_remove_table_exp` reads.
pub open spec fn remove_table_form() -> ObjectForm {
    ObjectForm { lead: "remove", kw1: "table", kw2: "table", flag: FlagKind::IfExists, on: OnKind::Database, variable: false }
}

/// The shape of the statement that `parse_remove_edge_exp` reads.
pub open spec fn remove_edge_form() -> ObjectForm {
    ObjectForm { lead: "remove", kw1: "edge", kw2: "edge", flag: FlagKind::IfExists, on: OnKind::Database, variable: false }
}

/// The shape of the statement that `parse_remove_type_exp` reads.
pub open spec fn remove_type_form() -> ObjectForm {
    ObjectForm { lead: "remove", kw1: "type", kw2: "type", flag: FlagKind::IfExists, on: OnKind::Database, variable: false }
}

/// The shape of the statement that `parse_remove_enum_exp` reads.
pub open spec fn remove_enum_form() -> ObjectForm {
    ObjectForm { lead: "remove", kw1: "enum", kw2: "enum", flag: FlagKind::IfExists, on: OnKind::Database, variable: false }
}

/// The shape of the statement that `parse_remove_module_exp` reads.
pub open spec fn remove_module_form() -> ObjectForm {
    ObjectForm { lead: "remove", kw1: "module", kw2: "module", flag: FlagKind::IfExists, on: OnKind::Database, variable: false }
}

/// The shape of the statement that `parse_remove_param_exp` reads.
pub open spec fn remove_param_form() -> ObjectForm {
    ObjectForm { lead: "remove", kw1: "param", kw2: "param", flag: FlagKind::IfExists, on: OnKind::Database, variable: true }
}

/// The shape of the statement that `parse_describe_database_exp` reads.
pub open spec fn describe_database_form() -> ObjectForm {
    ObjectForm { lead: "describe", kw1: "database", kw2: "db", flag: FlagKind::IfExists, on: OnKind::Namespace, variable: false }
}

/// The shape of the statement that `parse_describe_table_exp` reads.
pub open spec fn describe_table_form() -> ObjectForm {
    ObjectForm { lead: "describe", kw1: "table", kw2: "table", flag: FlagKind::IfExists, on: OnKind::Database, variable: false }
}

/// The shape of the statement that `parse_describe_edge_exp` reads.
pub open spec fn describe_edge_form() -> ObjectForm {
    ObjectForm { lead: "describe", kw1: "edge", kw2: "edge", flag: FlagKind::IfExists, on: OnKind::Database, variable: false }
}

/// The shape of the statement that `parse_describe_type_exp` reads.
pub open spec fn describe_type_form() -> ObjectForm {
    ObjectForm { lead: "describe", kw1: "type", kw2: "type", flag: FlagKind::IfExists, on: OnKind::Database, variable: false }
}

/// The shape of the statement that `parse_describe_enum_exp` reads.
pub open spec fn describe_enum_form() -> ObjectForm {
    ObjectForm { lead: "describe", kw1: "enum", kw2: "enum", flag: FlagKind::IfExists, on: OnKind::Database, variable: false }
}

/// The shape of the statement that `parse_describe_module_exp` reads.
pub open spec fn describe_module_form() -> ObjectForm {
    ObjectForm { lead: "describe", kw1: "module", kw2: "module", flag: FlagKind::IfExists, on: OnKind::Database, variable: false }
}

/// The shape of the statement that `parse_describe_param_exp` reads.
pub open spec fn describe_param_form() -> ObjectForm {
    ObjectForm { lead: "describe", kw1: "param", kw2: "param", flag: FlagKind::IfExists, on: OnKind::Database, variable: true }
}

impl<'a> Parser<'a> {
    /// Parses partial `partial_if_exists` syntax.
    ///
    /// ```txt
    /// partial_if_exists =
    ///     | kw_if (kw_exists | kw_exist)
    /// ```
    pub fn parse_partial_if_exists(&mut self) -> (r: ParserResult<Option<Ast<'a>>>)
        requires
            old(self).wf(),
        ensures
            rule_step(*old(self), *final(self), r, if_exists_rule(old(self).bytes(), old(self).state())),
            r matches Ok(Some(a)) ==> a.kind == AstKind::Temp(None),
    {
        let saved = self.get_state();
        if let Some(a) = self.parse_kw_if()? {
            let last = match self.parse_kw_exists()? {
                Some(e) => Some(e),
                None => self.parse_kw("exist")?,
            };
            if let Some(e) = last {
                return Ok(Some(Ast { span: a.span.start..e.span.end, kind: AstKind::Temp(None) }));
            }
        }
        self.set_state(saved);
        Ok(None)
    }

    /// Reads the flag of a statement.
    pub(crate) fn read_flag(&mut self, f: FlagKind) -> (r: ParserResult<Option<Ast<'a>>>)
        requires
            old(self).wf(),
        ensures
            rule_step(*old(self), *final(self), r, flag_rule(old(self).bytes(), old(self).state(), f)),
    {
        match f {
            FlagKind::IfNotExists => self.parse_partial_if_not_exists(),
            FlagKind::IfExists => self.parse_partial_if_exists(),
        }
    }

    /// Reads the name of the object.
    pub(crate) fn read_subject(&mut self, variable: bool) -> (r: ParserResult<Option<Ast<'a>>>)
        requires
            old(self).wf(),
        ensures
            rule_step(
                *old(self),
                *final(self),
                r,
                subject_rule(old(self).bytes(), old(self).state(), variable),
            ),
            r matches Ok(Some(a)) ==> subject_kind(old(self).bytes(), old(self).state(), variable, a.kind),
    {
        if variable {
            self.parse_variable()
        } else {
            self.parse_identifier()
        }
    }

    /// Reads the owner of a statement, and gives its identifier.
    pub(crate) fn read_on(&mut self, o: OnKind) -> (r: ParserResult<Option<Ast<'a>>>)
        requires
            old(self).wf(),
        ensures
            final(self).wf(),
            final(self).lexer.string == old(self).lexer.string,
            match on_rule(old(self).bytes(), old(self).state(), o) {
                RuleOutcome::Matched { end, next, .. } => {
                    let from = on_from(old(self).bytes(), old(self).state(), o);
                    &&& final(self).state() == next
                    &&& r matches Ok(Some(n))
                    &&& n.span.end == end
                    &&& n.span == identifier_span(old(self).bytes(), from)
                    &&& n.kind matches AstKind::Identifier(s) && s.spec_bytes() == next_text(
                        old(self).bytes(),
                        from,
                    )
                },
                RuleOutcome::NoMatch => r matches Ok(None) && final(self).state() == old(self).state(),
                RuleOutcome::Failed(e) => r matches Err(x) && x == e,
                RuleOutcome::FailedInt(_) => false,
            },
    {
        let saved = self.get_state();
        if let Some(_) = self.parse_kw_on()? {
            let kw = match o {
                OnKind::Namespace => match self.parse_kw_namespace()? {
                    Some(k) => Some(k),
                    None => self.parse_kw_ns()?,
                },
                OnKind::Database => match self.parse_kw_database()? {
                    Some(k) => Some(k),
                    None => self.parse_kw_db()?,
                },
                OnKind::Table => self.parse_kw_table()?,
            };
            if kw.is_some() {
                if let Some(ident) = self.parse_identifier()? {
                    return Ok(Some(ident));
                }
            }
        }
        self.set_state(saved);
        Ok(None)
    }
    /// Reads the first form of a statement of the shape `form` after its first two keywords.
    fn read_form_a(&mut self, start: usize, form: ObjectForm) -> (r: ParserResult<
        Option<ObjectParts<'a>>,
    >)
        requires
            old(self).wf(),
        ensures
            tail_step(*old(self), *final(self), r, start as int, object_tail_a(old(self).bytes(), old(self).state(), form), form),
    {
        let saved = self.get_state();
        if let Some(x) = self.read_flag(form.flag)? {
            if let Some(subject) = self.read_subject(form.variable)? {
                let owner = self.read_on(form.on)?;
                let mut end = x.span.end;
                let on = match owner {
                    Some(n) => {
                        if n.span.end > end {
                            end = n.span.end;
                        }
                        Some(Box::new(n))
                    },
                    None => None,
                };
                return Ok(Some(ObjectParts { span: start..end, subject, flag: true, on }));
            }
        }
        self.set_state(saved);
        Ok(None)
    }

    /// Reads the second form of a statement of the shape `form` after its first two keywords.
    fn read_form_b(&mut self, start: usize, form: ObjectForm) -> (r: ParserResult<
        Option<ObjectParts<'a>>,
    >)
        requires
            old(self).wf(),
        ensures
            tail_step(*old(self), *final(self), r, start as int, object_tail_b(old(self).bytes(), old(self).state(), form), form),
    {
        let subject = match self.read_subject(form.variable)? {
            Some(n) => n,
            None => return Ok(None),
        };
        let flag: Option<Ast<'a>>;
        let owner: Option<Ast<'a>>;
        match self.read_flag(form.flag)? {
            Some(x) => {
                flag = Some(x);
                owner = self.read_on(form.on)?;
            },
            None => {
                owner = self.read_on(form.on)?;
                if owner.is_some() {
                    flag = self.read_flag(form.flag)?;
                } else {
                    flag = None;
                }
            },
        }
        let mut end = subject.span.end;
        if let Some(f) = &flag {
            end = f.span.end;
        }
        let on = match owner {
            Some(n) => {
                if n.span.end > end {
                    end = n.span.end;
                }
                Some(Box::new(n))
            },
            None => None,
        };
        let flag = flag.is_some();
        Ok(Some(ObjectParts { span: start..end, subject, flag, on }))
    }

    /// Reads a statement of the shape `form`: its first two keywords, then its first form, or
    /// else its second.
    pub fn parse_object_stmt(&mut self, form: ObjectForm) -> (r: ParserResult<Option<ObjectParts<'a>>>)
        requires
            old(self).wf(),
        ensures
            object_step(*old(self), *final(self), r, form),
    {
        let ghost b = self.bytes();
        let ghost st0 = self.state();
        let saved = self.get_state();
        let d = match self.parse_kw(form.lead)? {
            Some(d) => d,
            None => return Ok(None),
        };
        let k = match self.parse_kw(form.kw1)? {
            Some(k) => Some(k),
            None => self.parse_kw(form.kw2)?,
        };
        if k.is_none() {
            self.set_state(saved);
            return Ok(None);
        }
        let ghost s = self.state();
        proof {
            let s1 = keyword_rule(b, st0, form.lead@)->next;
            assert(alt_rule(keyword_rule(b, s1, form.kw1@), keyword_rule(b, s1, form.kw2@)) is Matched);
            assert(object_head(b, st0, form) is Matched);
            assert(object_head(b, st0, form)->next == s);
            assert(object_head(b, st0, form)->start == d.span.start);
        }
        let start = d.span.start;
        if let Some(p) = self.read_form_a(start, form)? {
            return Ok(Some(p));
        }
        if let Some(p) = self.read_form_b(start, form)? {
            return Ok(Some(p));
        }
        self.set_state(saved);
        Ok(None)
    }

    /// Parses a `DEFINE DATABASE` statement
    ///
    /// ```txt
    /// define_database_stmt =
    ///     | kw_define (kw_database | kw_db) partial_if_not_exists identifier partial_on_namespace?
    ///     | kw_define (kw_database | kw_db) identifier << partial_if_not_exists? partial_on_namespace? >>
    /// ```
    pub fn parse_define_database_stmt(&mut self) -> (r: ParserResult<Option<Ast<'a>>>)
        requires
            old(self).wf(),
        ensures
            rule_step(*old(self), *final(self), r, object_rule(old(self).bytes(), old(self).state(), define_database_form())),
            r matches Ok(Some(a)) ==> match a.kind {
                AstKind::DefineDatabase { name, if_not_exists, namespace } => object_parts_agree(
                    old(self).bytes(),
                    old(self).state(),
                    define_database_form(),
                    *name,
                    if_not_exists,
                    namespace,
                ),
                _ => false,
            },
    {
        let form = ObjectForm { lead: "define", kw1: "database", kw2: "db", flag: FlagKind::IfNotExists, on: OnKind::Namespace, variable: false };
        match self.parse_object_stmt(form)? {
            Some(p) => Ok(
                Some(
                    Ast {
                        span: p.span,
                        kind: AstKind::DefineDatabase { name: Box::new(p.subject), if_not_exists: p.flag, namespace: p.on },
                    },
                ),
            ),
            None => Ok(None),
        }
    }

    /// Parses `REMOVE DATABASE` expression.
    ///
    /// ```txt
    /// remove_database_exp =
    ///     | kw_remove (kw_database | kw_db) partial_if_exists identifier partial_on_namespace?
    ///     | kw_remove (kw_database | kw_db) identifier << partial_if_exists? partial_on_namespace? >>
    /// ```
    pub fn parse_remove_database_exp(&mut self) -> (r: ParserResult<Option<Ast<'a>>>)
        requires
            old(self).wf(),
        ensures
            rule_step(*old(self), *final(self), r, object_rule(old(self).bytes(), old(self).state(), remove_database_form())),
            r matches Ok(Some(a)) ==> match a.kind {
                AstKind::RemoveDatabase { subject, if_exists, namespace } => object_parts_agree(
                    old(self).bytes(),
                    old(self).state(),
                    remove_database_form(),
                    *subject,
                    if_exists,
                    namespace,
                ),
                _ => false,
            },
    {
        let form = ObjectForm { lead: "remove", kw1: "database", kw2: "db", flag: FlagKind::IfExists, on: OnKind::Namespace, variable: false };
        match self.parse_object_stmt(form)? {
            Some(p) => Ok(
                Some(
                    Ast {
                        span: p.span,
                        kind: AstKind::RemoveDatabase { subject: Box::new(p.subject), if_exists: p.flag, namespace: p.on },
                    },
                ),
            ),
            None => Ok(None),
        }
    }

    /// Parses `REMOVE TABLE` expression.
    ///
    /// ```txt
    /// remove_table_exp =
    ///     | kw_remove kw_table partial_if_exists identifier partial_on_database?
    ///     | kw_remove kw_table identifier << partial_if_exists? partial_on_database? >>
    /// ```
    pub fn parse_remove_table_exp(&mut self) -> (r: ParserResult<Option<Ast<'a>>>)
        requires
            old(self).wf(),
        ensures
            rule_step(*old(self), *final(self), r, object_rule(old(self).bytes(), old(self).state(), remove_table_form())),
            r matches Ok(Some(a)) ==> match a.kind {
                AstKind::RemoveTable { subject, if_exists, database } => object_parts_agree(
                    old(self).bytes(),
                    old(self).state(),
                    remove_table_form(),
                    *subject,
                    if_exists,
                    database,
                ),
                _ => false,
            },
    {
        let form = ObjectForm { lead: "remove", kw1: "table", kw2: "table", flag: FlagKind::IfExists, on: OnKind::Database, variable: false };
        match self.parse_object_stmt(form)? {
            Some(p) => Ok(
                Some(
                    Ast {
                        span: p.span,
                        kind: AstKind::RemoveTable { subject: Box::new(p.subject), if_exists: p.flag, database: p.on },
                    },
                ),
            ),
            None => Ok(None),
        }
    }

    /// Parses `REMOVE EDGE` expression.
    ///
    /// ```txt
    /// remove_edge_exp =
    ///     | kw_remove kw_edge partial_if_exists identifier partial_on_database?
    ///     | kw_remove kw_edge identifier << partial_if_exists? partial_on_database? >>
    /// ```
    pub fn parse_remove_edge_exp(&mut self) -> (r: ParserResult<Option<Ast<'a>>>)
        requires
            old(self).wf(),
        ensures
            rule_step(*old(self), *final(self), r, object_rule(old(self).bytes(), old(self).state(), remove_edge_form())),
            r matches Ok(Some(a)) ==> match a.kind {
                AstKind::RemoveEdge { subject, if_exists, database } => object_parts_agree(
                    old(self).bytes(),
                    old(self).state(),
                    remove_edge_form(),
                    *subject,
                    if_exists,
                    database,
                ),
                _ => false,
            },
    {
        let form = ObjectForm { lead: "remove", kw1: "edge", kw2: "edge", flag: FlagKind::IfExists, on: OnKind::Database, variable: false };
        match self.parse_object_stmt(form)? {
            Some(p) => Ok(
                Some(
                    Ast {
                        span: p.span,
                        kind: AstKind::RemoveEdge { subject: Box::new(p.subject), if_exists: p.flag, database: p.on },
                    },
                ),
            ),
            None => Ok(None),
        }
    }

    /// Parses `REMOVE TYPE` expression.
    ///
    /// ```txt
    /// remove_type_exp =
    ///     | kw_remove kw_type partial_if_exists identifier partial_on_database?
    ///     | kw_remove kw_type identifier << partial_if_exists? partial_on_database? >>
    /// ```
    pub fn parse_remove_type_exp(&mut self) -> (r: ParserResult<Option<Ast<'a>>>)
        requires
            old(self).wf(),
        ensures
            rule_step(*old(self), *final(self), r, object_rule(old(self).bytes(), old(self).state(), remove_type_form())),
            r matches Ok(Some(a)) ==> match a.kind {
                AstKind::RemoveType { subject, if_exists, database } => object_parts_agree(
                    old(self).bytes(),
                    old(self).state(),
                    remove_type_form(),
                    *subject,
                    if_exists,
                    database,
                ),
                _ => false,
            },
    {
        let form = ObjectForm { lead: "remove", kw1: "type", kw2: "type", flag: FlagKind::IfExists, on: OnKind::Database, variable: false };
        match self.parse_object_stmt(form)? {
            Some(p) => Ok(
                Some(
                    Ast {
                        span: p.span,
                        kind: AstKind::RemoveType { subject: Box::new(p.subject), if_exists: p.flag, database: p.on },
                    },
                ),
            ),
            None => Ok(None),
        }
    }

    /// Parses `REMOVE ENUM` expression.
    ///
    /// ```txt
    /// remove_enum_exp =
    ///     | kw_remove kw_enum partial_if_exists identifier partial_on_database?
    ///     | kw_remove kw_enum identifier << partial_if_exists? partial_on_database? >>
    /// ```
    pub fn parse_remove_enum_exp(&mut self) -> (r: ParserResult<Option<Ast<'a>>>)
        requires
            old(self).wf(),
        ensures
            rule_step(*old(self), *final(self), r, object_rule(old(self).bytes(), old(self).state(), remove_enum_form())),
            r matches Ok(Some(a)) ==> match a.kind {
                AstKind::RemoveEnum { subject, if_exists, database } => object_parts_agree(
                    old(self).bytes(),
                    old(self).state(),
                    remove_enum_form(),
                    *subject,
                    if_exists,
                    database,
                ),
                _ => false,
            },
    {
        let form = ObjectForm { lead: "remove", kw1: "enum", kw2: "enum", flag: FlagKind::IfExists, on: OnKind::Database, variable: false };
        match self.parse_object_stmt(form)? {
            Some(p) => Ok(
                Some(
                    Ast {
                        span: p.span,
                        kind: AstKind::RemoveEnum { subject: Box::new(p.subject), if_exists: p.flag, database: p.on },
                    },
                ),
            ),
            None => Ok(None),
        }
    }

    /// Parses `REMOVE MODULE` expression.
    ///
    /// ```txt
    /// remove_module_exp =
    ///     | kw_remove kw_module partial_if_exists identifier partial_on_database?
    ///     | kw_remove kw_module identifier << partial_if_exists? partial_on_database? >>
    /// ```
    pub fn parse_remove_module_exp(&mut self) -> (r: ParserResult<Option<Ast<'a>>>)
        requires
            old(self).wf(),
        ensures
            rule_step(*old(self), *final(self), r, object_rule(old(self).bytes(), old(self).state(), remove_module_form())),
            r matches Ok(Some(a)) ==> match a.kind {
                AstKind::RemoveModule { subject, if_exists, database } => object_parts_agree(
                    old(self).bytes(),
                    old(self).state(),
                    remove_module_form(),
                    *subject,
                    if_exists,
                    database,
                ),
                _ => false,
            },
    {
        let form = ObjectForm { lead: "remove", kw1: "module", kw2: "module", flag: FlagKind::IfExists, on: OnKind::Database, variable: false };
        match self.parse_object_stmt(form)? {
            Some(p) => Ok(
                Some(
                    Ast {
                        span: p.span,
                        kind: AstKind::RemoveModule { subject: Box::new(p.subject), if_exists: p.flag, database: p.on },
                    },
                ),
            ),
            None => Ok(None),
        }
    }

    /// Parses `REMOVE PARAM` expression.
    ///
    /// ```txt
    /// remove_param_exp =
    ///     | kw_remove kw_param partial_if_exists variable partial_on_database?
    ///     | kw_remove kw_param variable << partial_if_exists? partial_on_database? >>
    /// ```
    pub fn parse_remove_param_exp(&mut self) -> (r: ParserResult<Option<Ast<'a>>>)
        requires
            old(self).wf(),
        ensures
            rule_step(*old(self), *final(self), r, object_rule(old(self).bytes(), old(self).state(), remove_param_form())),
            r matches Ok(Some(a)) ==> match a.kind {
                AstKind::RemoveParam { subject, if_exists, database } => object_parts_agree(
                    old(self).bytes(),
                    old(self).state(),
                    remove_param_form(),
                    *subject,
                    if_exists,
                    database,
                ),
                _ => false,
            },
    {
        let form = ObjectForm { lead: "remove", kw1: "param", kw2: "param", flag: FlagKind::IfExists, on: OnKind::Database, variable: true };
        match self.parse_object_stmt(form)? {
            Some(p) => Ok(
                Some(
                    Ast {
                        span: p.span,
                        kind: AstKind::RemoveParam { subject: Box::new(p.subject), if_exists: p.flag, database: p.on },
                    },
                ),
            ),
            None => Ok(None),
        }
    }

    /// Parses `DESCRIBE DATABASE` expression.
    ///
    /// ```txt
    /// describe_database_exp =
    ///     | kw_describe (kw_database | kw_db) partial_if_exists identifier partial_on_namespace?
    ///     | kw_describe (kw_database | kw_db) identifier << partial_if_exists? partial_on_namespace? >>
    /// ```
    pub fn parse_describe_database_exp(&mut self) -> (r: ParserResult<Option<Ast<'a>>>)
        requires
            old(self).wf(),
        ensures
            rule_step(*old(self), *final(self), r, object_rule(old(self).bytes(), old(self).state(), describe_database_form())),
            r matches Ok(Some(a)) ==> match a.kind {
                AstKind::DescribeDatabase { subject, if_exists, namespace } => object_parts_agree(
                    old(self).bytes(),
                    old(self).state(),
                    describe_database_form(),
                    *subject,
                    if_exists,
                    namespace,
                ),
                _ => false,
            },
    {
        let form = ObjectForm { lead: "describe", kw1: "database", kw2: "db", flag: FlagKind::IfExists, on: OnKind::Namespace, variable: false };
        match self.parse_object_stmt(form)? {
            Some(p) => Ok(
                Some(
                    Ast {
                        span: p.span,
                        kind: AstKind::DescribeDatabase { subject: Box::new(p.subject), if_exists: p.flag, namespace: p.on },
                    },
                ),
            ),
            None => Ok(None),
        }
    }

    /// Parses `DESCRIBE TABLE` expression.
    ///
    /// ```txt
    /// describe_table_exp =
    ///     | kw_describe kw_table partial_if_exists identifier partial_on_database?
    ///     | kw_describe kw_table identifier << partial_if_exists? partial_on_database? >>
    /// ```
    pub fn parse_describe_table_exp(&mut self) -> (r: ParserResult<Option<Ast<'a>>>)
        requires
            old(self).wf(),
        ensures
            rule_step(*old(self), *final(self), r, object_rule(old(self).bytes(), old(self).state(), describe_table_form())),
            r matches Ok(Some(a)) ==> match a.kind {
                AstKind::DescribeTable { subject, if_exists, database } => object_parts_agree(
                    old(self).bytes(),
                    old(self).state(),
                    describe_table_form(),
                    *subject,
                    if_exists,
                    database,
                ),
                _ => false,
            },
    {
        let form = ObjectForm { lead: "describe", kw1: "table", kw2: "table", flag: FlagKind::IfExists, on: OnKind::Database, variable: false };
        match self.parse_object_stmt(form)? {
            Some(p) => Ok(
                Some(
                    Ast {
                        span: p.span,
                        kind: AstKind::DescribeTable { subject: Box::new(p.subject), if_exists: p.flag, database: p.on },
                    },
                ),
            ),
            None => Ok(None),
        }
    }

    /// Parses `DESCRIBE EDGE` expression.
    ///
    /// ```txt
    /// describe_edge_exp =
    ///     | kw_describe kw_edge partial_if_exists identifier partial_on_database?
    ///     | kw_describe kw_edge identifier << partial_if_exists? partial_on_database? >>
    /// ```
    pub fn parse_describe_edge_exp(&mut self) -> (r: ParserResult<Option<Ast<'a>>>)
        requires
            old(self).wf(),
        ensures
            rule_step(*old(self), *final(self), r, object_rule(old(self).bytes(), old(self).state(), describe_edge_form())),
            r matches Ok(Some(a)) ==> match a.kind {
                AstKind::DescribeEdge { subject, if_exists, database } => object_parts_agree(
                    old(self).bytes(),
                    old(self).state(),
                    describe_edge_form(),
                    *subject,
                    if_exists,
                    database,
                ),
                _ => false,
            },
    {
        let form = ObjectForm { lead: "describe", kw1: "edge", kw2: "edge", flag: FlagKind::IfExists, on: OnKind::Database, variable: false };
        match self.parse_object_stmt(form)? {
            Some(p) => Ok(
                Some(
                    Ast {
                        span: p.span,
                        kind: AstKind::DescribeEdge { subject: Box::new(p.subject), if_exists: p.flag, database: p.on },
                    },
                ),
            ),
            None => Ok(None),
        }
    }

    /// Parses `DESCRIBE TYPE` expression.
    ///
    /// ```txt
    /// describe_type_exp =
    ///     | kw_describe kw_type partial_if_exists identifier partial_on_database?
    ///     | kw_describe kw_type identifier << partial_if_exists? partial_on_database? >>
    /// ```
    pub fn parse_describe_type_exp(&mut self) -> (r: ParserResult<Option<Ast<'a>>>)
        requires
            old(self).wf(),
        ensures
            rule_step(*old(self), *final(self), r, object_rule(old(self).bytes(), old(self).state(), describe_type_form())),
            r matches Ok(Some(a)) ==> match a.kind {
                AstKind::DescribeType { subject, if_exists, database } => object_parts_agree(
                    old(self).bytes(),
                    old(self).state(),
                    describe_type_form(),
                    *subject,
                    if_exists,
                    database,
                ),
                _ => false,
            },
    {
        let form = ObjectForm { lead: "describe", kw1: "type", kw2: "type", flag: FlagKind::IfExists, on: OnKind::Database, variable: false };
        match self.parse_object_stmt(form)? {
            Some(p) => Ok(
                Some(
                    Ast {
                        span: p.span,
                        kind: AstKind::DescribeType { subject: Box::new(p.subject), if_exists: p.flag, database: p.on },
                    },
                ),
            ),
            None => Ok(None),
        }
    }

    /// Parses `DESCRIBE ENUM` expression.
    ///
    /// ```txt
    /// describe_enum_exp =
    ///     | kw_describe kw_enum partial_if_exists identifier partial_on_database?
    ///     | kw_describe kw_enum identifier << partial_if_exists? partial_on_database? >>
    /// ```
    pub fn parse_describe_enum_exp(&mut self) -> (r: ParserResult<Option<Ast<'a>>>)
        requires
            old(self).wf(),
        ensures
            rule_step(*old(self), *final(self), r, object_rule(old(self).bytes(), old(self).state(), describe_enum_form())),
            r matches Ok(Some(a)) ==> match a.kind {
                AstKind::DescribeEnum { subject, if_exists, database } => object_parts_agree(
                    old(self).bytes(),
                    old(self).state(),
                    describe_enum_form(),
                    *subject,
                    if_exists,
                    database,
                ),
                _ => false,
            },
    {
        let form = ObjectForm { lead: "describe", kw1: "enum", kw2: "enum", flag: FlagKind::IfExists, on: OnKind::Database, variable: false };
        match self.parse_object_stmt(form)? {
            Some(p) => Ok(
                Some(
                    Ast {
                        span: p.span,
                        kind: AstKind::DescribeEnum { subject: Box::new(p.subject), if_exists: p.flag, database: p.on },
                    },
                ),
            ),
            None => Ok(None),
        }
    }

    /// Parses `DESCRIBE MODULE` expression.
    ///
    /// ```txt
    /// describe_module_exp =
    ///     | kw_describe kw_module partial_if_exists identifier partial_on_database?
    ///     | kw_describe kw_module identifier << partial_if_exists? partial_on_database? >>
    /// ```
    pub fn parse_describe_module_exp(&mut self) -> (r: ParserResult<Option<Ast<'a>>>)
        requires
            old(self).wf(),
        ensures
            rule_step(*old(self), *final(self), r, object_rule(old(self).bytes(), old(self).state(), describe_module_form())),
            r matches Ok(Some(a)) ==> match a.kind {
                AstKind::DescribeModule { subject, if_exists, database } => object_parts_agree(
                    old(self).bytes(),
                    old(self).state(),
                    describe_module_form(),
                    *subject,
                    if_exists,
                    database,
                ),
                _ => false,
            },
    {
        let form = ObjectForm { lead: "describe", kw1: "module", kw2: "module", flag: FlagKind::IfExists, on: OnKind::Database, variable: false };
        match self.parse_object_stmt(form)? {
            Some(p) => Ok(
                Some(
                    Ast {
                        span: p.span,
                        kind: AstKind::DescribeModule { subject: Box::new(p.subject), if_exists: p.flag, database: p.on },
                    },
                ),
            ),
            None => Ok(None),
        }
    }

    /// Parses `DESCRIBE PARAM` expression.
    ///
    /// ```txt
    /// describe_param_exp =
    ///     | kw_describe kw_param partial_if_exists variable partial_on_database?
    ///     | kw_describe kw_param variable << partial_if_exists? partial_on_database? >>
    /// ```
    pub fn parse_describe_param_exp(&mut self) -> (r: ParserResult<Option<Ast<'a>>>)
        requires
            old(self).wf(),
        ensures
            rule_step(*old(self), *final(self), r, object_rule(old(self).bytes(), old(self).state(), describe_param_form())),
            r matches Ok(Some(a)) ==> match a.kind {
                AstKind::DescribeParam { subject, if_exists, database } => object_parts_agree(
                    old(self).bytes(),
                    old(self).state(),
                    describe_param_form(),
                    *subject,
                    if_exists,
                    database,
                ),
                _ => false,
            },
    {
        let form = ObjectForm { lead: "describe", kw1: "param", kw2: "param", flag: FlagKind::IfExists, on: OnKind::Database, variable: true };
        match self.parse_object_stmt(form)? {
            Some(p) => Ok(
                Some(
                    Ast {
                        span: p.span,
                        kind: AstKind::DescribeParam { subject: Box::new(p.subject), if_exists: p.flag, database: p.on },
                    },
                ),
            ),
            None => Ok(None),
        }
    }
}

} // verus!

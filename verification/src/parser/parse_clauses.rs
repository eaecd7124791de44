//! Clauses of a statement that come in any order: a permutation over a list of clauses, each
//! read at most once.

use vstd::prelude::*;
use vstd::string::*;

use crate::ast::{Ast, AstKind, TypeSig};
use crate::lexer::{LexView, TokenKind, TokenTag};

use super::parse_index::owner_ident;
use super::parse_keywords::keyword_rule;
use super::parse_objects::{flag_rule, on_rule, FlagKind, OnKind};
use super::parse_operations::{idents_at, sep_list};
use super::parse_statements::identifier_rule;
use super::parse_types::{fields_agree, type_fields_from, type_fields_rule};
use super::parse_literals::next_text;
use super::parser::{next_token_of, rule_step, then_rule, token_either, token_rule, Parser, RuleOutcome};
use super::{ParserError, ParserResult, StateCapture};

verus! {

/// A clause of a statement.
#[derive(Clone, Copy)]
pub enum Clause {
    /// `IF NOT EXISTS` or `IF EXISTS`.
    Flag(FlagKind),
    /// An owner: `ON` with a keyword and an identifier.
    On(OnKind),
    /// `VARIANTS` and identifiers separated by commas.
    Variants,
    /// `FIELDS` and fields of a type separated by commas.
    TypeFields,
    /// `WITH`, a module block and `END`.
    ModuleBlock,
}

/// What a clause gives: a tree, or a list of identifiers with the clause's end.
pub enum ClauseValue<'a> {
    /// A tree: the span of a flag, or the identifier of an owner.
    Tree(Ast<'a>),
    /// The identifiers of a list, and the end of the clause.
    List(Vec<Ast<'a>>, usize),
    /// The fields of a type, and the end of the clause.
    Fields(Vec<(Ast<'a>, TypeSig<'a>)>, usize),
    /// A module block, and the end of the clause.
    Block(Ast<'a>, usize),
}

/// `WITH`, a module block and `END`.
pub open spec fn module_block_rule(b: Seq<u8>, st: LexView) -> RuleOutcome {
    then_rule(
        then_rule(
            keyword_rule(b, st, "with"@),
            |s: LexView| token_rule(b, s, token_either(TokenTag::ModuleBlock, TokenTag::ModuleBlock)),
        ),
        |s: LexView| keyword_rule(b, s, "end"@),
    )
}

/// The state from which the block of `WITH block END`, read from `st`, is read.
pub open spec fn module_block_from(b: Seq<u8>, st: LexView) -> LexView {
    keyword_rule(b, st, "with"@)->next
}

/// The tree `a` is the module block read from `from`.
pub open spec fn block_at<'a>(b: Seq<u8>, from: LexView, a: Ast<'a>) -> bool {
    let o = token_rule(b, from, token_either(TokenTag::ModuleBlock, TokenTag::ModuleBlock));
    &&& a.span.start == o->start
    &&& a.span.end == o->end
    &&& match a.kind {
        AstKind::ModuleBlock(s) => s.spec_bytes() == next_text(b, from),
        _ => false,
    }
}

/// `VARIANTS` and identifiers separated by commas.
pub open spec fn variants_rule(b: Seq<u8>, st: LexView) -> RuleOutcome {
    match keyword_rule(b, st, "variants"@) {
        RuleOutcome::Matched { start, next: s1, .. } => match identifier_rule(b, s1) {
            RuleOutcome::Matched { end: e1, next: s2, .. } => match sep_list(b, s2, TokenTag::OpComma) {
                Ok((froms, last)) => RuleOutcome::Matched {
                    start,
                    end: if froms.len() == 0 {
                        e1
                    } else {
                        identifier_rule(b, froms.last())->end
                    },
                    next: last,
                },
                Err(e) => RuleOutcome::Failed(e),
            },
            o => o,
        },
        o => o,
    }
}

/// The states from which the identifiers of `VARIANTS`, read from `st`, are read.
pub open spec fn variants_from(b: Seq<u8>, st: LexView) -> Seq<LexView> {
    let s1 = keyword_rule(b, st, "variants"@)->next;
    seq![s1] + sep_list(b, identifier_rule(b, s1)->next, TokenTag::OpComma)->Ok_0.0
}

/// The rule of a clause.
pub open spec fn clause_rule(b: Seq<u8>, st: LexView, c: Clause) -> RuleOutcome {
    match c {
        Clause::Flag(f) => flag_rule(b, st, f),
        Clause::On(o) => on_rule(b, st, o),
        Clause::Variants => variants_rule(b, st),
        Clause::TypeFields => type_fields_rule(b, st),
        Clause::ModuleBlock => module_block_rule(b, st),
    }
}

/// The error `x` is the one that the failed outcome `o` says.
pub open spec fn err_agrees(x: ParserError, o: RuleOutcome) -> bool {
    match o {
        RuleOutcome::Failed(e) => x == e,
        RuleOutcome::FailedInt(t) => match x {
            ParserError::InvalidIntegerLiteral(_, c) => c@ == t,
            _ => false,
        },
        _ => false,
    }
}

/// The value `v` holds what the clause `c` read from `from`.
pub open spec fn value_agrees<'a>(b: Seq<u8>, c: Clause, from: LexView, v: ClauseValue<'a>) -> bool {
    match c {
        Clause::Flag(f) => match v {
            ClauseValue::Tree(a) => a.span.end == flag_rule(b, from, f)->end,
            _ => false,
        },
        Clause::On(o) => match v {
            ClauseValue::Tree(a) => owner_ident(b, from, o, a),
            _ => false,
        },
        Clause::Variants => match v {
            ClauseValue::List(items, end) => end == variants_rule(b, from)->end && idents_at(
                b,
                variants_from(b, from),
                items@,
            ),
            _ => false,
        },
        Clause::TypeFields => match v {
            ClauseValue::Fields(fs, end) => end == type_fields_rule(b, from)->end && fields_agree(
                b,
                type_fields_from(b, from),
                fs@,
            ),
            _ => false,
        },
        Clause::ModuleBlock => match v {
            ClauseValue::Block(a, end) => end == module_block_rule(b, from)->end && block_at(
                b,
                module_block_from(b, from),
                a,
            ),
            _ => false,
        },
    }
}

/// The end of what a clause value spans.
pub open spec fn value_end<'a>(v: ClauseValue<'a>) -> int {
    match v {
        ClauseValue::Tree(a) => a.span.end as int,
        ClauseValue::List(_, end) => end as int,
        ClauseValue::Fields(_, end) => end as int,
        ClauseValue::Block(_, end) => end as int,
    }
}

/// What a permutation of clauses has read: for each clause, the state it was read from where it
/// was read; and the state after them.
pub struct ClausePerm {
    pub read: Seq<Option<LexView>>,
    pub next: LexView,
}

/// What a round of a permutation of clauses gives.
pub enum ClauseRound {
    /// A clause was read.
    Took(ClausePerm),
    /// No clause not yet read matches.
    Stopped,
    /// A clause failed, as the outcome says.
    Failed(RuleOutcome),
}

/// A round of the permutation of the clauses `cs`, from the clause `i` on: the clauses not yet
/// read are tried in order, and the first that matches is taken.
pub open spec fn clause_round_from(b: Seq<u8>, cs: Seq<Clause>, acc: ClausePerm, i: nat) -> ClauseRound
    decreases cs.len() - i,
{
    if i >= cs.len() {
        ClauseRound::Stopped
    } else if acc.read[i as int] is Some {
        clause_round_from(b, cs, acc, i + 1)
    } else {
        match clause_rule(b, acc.next, cs[i as int]) {
            RuleOutcome::Matched { next, .. } => ClauseRound::Took(
                ClausePerm { read: acc.read.update(i as int, Some(acc.next)), next },
            ),
            RuleOutcome::NoMatch => clause_round_from(b, cs, acc, i + 1),
            o => ClauseRound::Failed(o),
        }
    }
}

/// At most `rounds` rounds of the permutation of the clauses `cs` from `acc`; a round that
/// takes nothing ends it.
pub open spec fn clause_perm(b: Seq<u8>, cs: Seq<Clause>, acc: ClausePerm, rounds: nat) -> Result<
    ClausePerm,
    RuleOutcome,
>
    decreases rounds,
{
    if rounds == 0 {
        Ok(acc)
    } else {
        match clause_round_from(b, cs, acc, 0) {
            ClauseRound::Took(a) => clause_perm(b, cs, a, (rounds - 1) as nat),
            ClauseRound::Stopped => Ok(acc),
            ClauseRound::Failed(e) => Err(e),
        }
    }
}

/// Nothing of `n` clauses read yet, from the state `st`.
pub open spec fn clause_start(n: nat, st: LexView) -> ClausePerm {
    ClausePerm { read: Seq::new(n, |i: int| None), next: st }
}

/// The values `acc` hold what the permutation `g` of the clauses `cs` read.
pub open spec fn values_agree<'a>(
    b: Seq<u8>,
    cs: Seq<Clause>,
    acc: Seq<Option<ClauseValue<'a>>>,
    g: ClausePerm,
) -> bool {
    &&& acc.len() == cs.len()
    &&& g.read.len() == cs.len()
    &&& forall|i: int|
        0 <= i < cs.len() ==> (#[trigger] acc[i] is Some <==> g.read[i] is Some)
    &&& forall|i: int|
        0 <= i < cs.len() && #[trigger] acc[i] is Some ==> value_agrees(
            b,
            cs[i],
            g.read[i].unwrap(),
            acc[i].unwrap(),
        )
}

impl<'a> Parser<'a> {
    /// Reads `VARIANTS` and identifiers separated by commas.
    fn read_variants(&mut self) -> (r: ParserResult<Option<ClauseValue<'a>>>)
        requires
            old(self).wf(),
        ensures
            final(self).wf(),
            final(self).lexer.string == old(self).lexer.string,
            match variants_rule(old(self).bytes(), old(self).state()) {
                RuleOutcome::Matched { next, .. } => {
                    &&& r matches Ok(Some(v))
                    &&& final(self).state() == next
                    &&& value_agrees(old(self).bytes(), Clause::Variants, old(self).state(), v)
                },
                RuleOutcome::NoMatch => r matches Ok(None) && final(self).state() == old(self).state(),
                RuleOutcome::Failed(e) => r matches Err(x) && x == e,
                RuleOutcome::FailedInt(_) => false,
            },
    {
        let ghost b = self.bytes();
        let ghost st0 = self.state();
        let saved = self.get_state();
        if self.parse_kw_variants()?.is_none() {
            return Ok(None);
        }
        let ghost s1 = self.state();
        let first = match self.parse_identifier()? {
            Some(i) => i,
            None => {
                self.set_state(saved);
                return Ok(None);
            },
        };
        let mut rest = self.read_sep_idents(TokenTag::OpComma)?;
        let end = if rest.len() == 0 {
            first.span.end
        } else {
            rest[rest.len() - 1].span.end
        };
        let ghost froms = sep_list(b, identifier_rule(b, s1)->next, TokenTag::OpComma)->Ok_0.0;
        let ghost old_rest = rest@;
        let mut all: Vec<Ast<'a>> = Vec::new();
        all.push(first);
        all.append(&mut rest);
        proof {
            assert(all@ =~= seq![all@[0]] + old_rest);
            assert(variants_from(b, st0) == seq![s1] + froms);
            assert forall|i: int| 0 <= i < froms.len() + 1 implies super::parse_operations::ident_at(
                b,
                (seq![s1] + froms)[i],
                #[trigger] all@[i],
            ) by {
                if i > 0 {
                    assert(all@[i] == old_rest[i - 1]);
                    assert((seq![s1] + froms)[i] == froms[i - 1]);
                }
            }
        }
        Ok(Some(ClauseValue::List(all, end)))
    }

    /// Reads a module block token.
    fn read_block_token(&mut self) -> (r: ParserResult<Option<Ast<'a>>>)
        requires
            old(self).wf(),
        ensures
            rule_step(
                *old(self),
                *final(self),
                r,
                token_rule(old(self).bytes(), old(self).state(), token_either(TokenTag::ModuleBlock, TokenTag::ModuleBlock)),
            ),
            r matches Ok(Some(a)) ==> block_at(old(self).bytes(), old(self).state(), a),
    {
        proof {
            reveal(next_token_of);
        }
        let saved = self.get_state();
        if let Some(t) = self.eat_token()? {
            if let TokenKind::ModuleBlock(text) = t.kind {
                return Ok(Some(Ast { span: t.span, kind: AstKind::ModuleBlock(text) }));
            }
        }
        self.set_state(saved);
        Ok(None)
    }

    /// Reads `WITH`, a module block and `END`.
    fn read_module_block(&mut self) -> (r: ParserResult<Option<ClauseValue<'a>>>)
        requires
            old(self).wf(),
        ensures
            final(self).wf(),
            final(self).lexer.string == old(self).lexer.string,
            match module_block_rule(old(self).bytes(), old(self).state()) {
                RuleOutcome::Matched { next, .. } => {
                    &&& r matches Ok(Some(v))
                    &&& final(self).state() == next
                    &&& value_agrees(old(self).bytes(), Clause::ModuleBlock, old(self).state(), v)
                },
                RuleOutcome::NoMatch => r matches Ok(None) && final(self).state() == old(self).state(),
                RuleOutcome::Failed(e) => r matches Err(x) && x == e,
                RuleOutcome::FailedInt(_) => false,
            },
    {
        let saved = self.get_state();
        if self.parse_kw_with()?.is_none() {
            return Ok(None);
        }
        let block = match self.read_block_token()? {
            Some(a) => a,
            None => {
                self.set_state(saved);
                return Ok(None);
            },
        };
        match self.parse_kw_end()? {
            Some(e) => Ok(Some(ClauseValue::Block(block, e.span.end))),
            None => {
                self.set_state(saved);
                Ok(None)
            },
        }
    }

    /// Reads the clause `c`.
    fn read_clause(&mut self, c: Clause) -> (r: ParserResult<Option<ClauseValue<'a>>>)
        requires
            old(self).wf(),
        ensures
            final(self).wf(),
            final(self).lexer.string == old(self).lexer.string,
            match clause_rule(old(self).bytes(), old(self).state(), c) {
                RuleOutcome::Matched { next, .. } => {
                    &&& r matches Ok(Some(v))
                    &&& final(self).state() == next
                    &&& value_agrees(old(self).bytes(), c, old(self).state(), v)
                },
                RuleOutcome::NoMatch => r matches Ok(None) && final(self).state() == old(self).state(),
                RuleOutcome::Failed(e) => r matches Err(x) && x == e,
                RuleOutcome::FailedInt(t) => match r {
                Err(ParserError::InvalidIntegerLiteral(_, c)) => c@ == t,
                _ => false,
            },
            },
    {
        match c {
            Clause::Flag(f) => match self.read_flag(f)? {
                Some(a) => Ok(Some(ClauseValue::Tree(a))),
                None => Ok(None),
            },
            Clause::On(o) => match self.read_on(o)? {
                Some(a) => Ok(Some(ClauseValue::Tree(a))),
                None => Ok(None),
            },
            Clause::Variants => self.read_variants(),
            Clause::TypeFields => match self.read_type_fields()? {
                Some((fs, _, end)) => Ok(Some(ClauseValue::Fields(fs, end))),
                None => Ok(None),
            },
            Clause::ModuleBlock => self.read_module_block(),
        }
    }

    /// One round of the permutation of the clauses `cs`; `true` where a clause was read.
    fn clause_round_exec(
        &mut self,
        cs: &Vec<Clause>,
        acc: &mut Vec<Option<ClauseValue<'a>>>,
        Ghost(g): Ghost<ClausePerm>,
    ) -> (r: ParserResult<bool>)
        requires
            old(self).wf(),
            old(self).state() == g.next,
            values_agree(old(self).bytes(), cs@, old(acc)@, g),
        ensures
            final(self).wf(),
            final(self).lexer.string == old(self).lexer.string,
            match clause_round_from(old(self).bytes(), cs@, g, 0) {
                ClauseRound::Took(g2) => {
                    &&& r == Ok::<bool, ParserError>(true)
                    &&& final(self).state() == g2.next
                    &&& values_agree(old(self).bytes(), cs@, final(acc)@, g2)
                },
                ClauseRound::Stopped => {
                    &&& r == Ok::<bool, ParserError>(false)
                    &&& final(self).state() == g.next
                    &&& values_agree(old(self).bytes(), cs@, final(acc)@, g)
                },
                ClauseRound::Failed(o) => r matches Err(x) && err_agrees(x, o),
            },
    {
        let ghost b = self.bytes();
        let mut i: usize = 0;
        while i < cs.len()
            invariant
                self.wf(),
                self.lexer.string == old(self).lexer.string,
                self.bytes() == b,
                b == old(self).bytes(),
                self.state() == g.next,
                acc@ == old(acc)@,
                values_agree(b, cs@, acc@, g),
                0 <= i <= cs.len(),
                clause_round_from(b, cs@, g, 0) == clause_round_from(b, cs@, g, i as nat),
            decreases cs.len() - i,
        {
            if acc[i].is_none() {
                match self.read_clause(cs[i]) {
                    Err(e) => return Err(e),
                    Ok(Some(v)) => {
                        let ghost g2 = ClausePerm {
                            read: g.read.update(i as int, Some(g.next)),
                            next: self.state(),
                        };
                        acc.set(i, Some(v));
                        proof {
                            assert forall|n: int|
                                0 <= n < cs@.len() && #[trigger] acc@[n] is Some implies value_agrees(
                                b,
                                cs@[n],
                                g2.read[n].unwrap(),
                                acc@[n].unwrap(),
                            ) by {
                                if n != i {
                                    assert(acc@[n] == old(acc)@[n]);
                                }
                            }
                        }
                        return Ok(true);
                    },
                    Ok(None) => {},
                }
            }
            i = i + 1;
        }
        Ok(false)
    }

    /// At most `rounds` rounds of the permutation of the clauses `cs`.
    pub(crate) fn clause_perm_exec(&mut self, cs: &Vec<Clause>, rounds: usize) -> (r: ParserResult<
        Vec<Option<ClauseValue<'a>>>,
    >)
        requires
            old(self).wf(),
        ensures
            final(self).wf(),
            final(self).lexer.string == old(self).lexer.string,
            match clause_perm(old(self).bytes(), cs@, clause_start(cs@.len(), old(self).state()), rounds as nat) {
                Ok(g) => {
                    &&& r matches Ok(acc)
                    &&& final(self).state() == g.next
                    &&& values_agree(old(self).bytes(), cs@, acc@, g)
                },
                Err(o) => r matches Err(x) && err_agrees(x, o),
            },
    {
        let ghost b = self.bytes();
        let ghost g0 = clause_start(cs@.len(), self.state());
        let ghost mut g = g0;
        let mut acc: Vec<Option<ClauseValue<'a>>> = Vec::new();
        let mut n: usize = 0;
        while n < cs.len()
            invariant
                0 <= n <= cs.len(),
                acc@.len() == n,
                forall|k: int| 0 <= k < n ==> #[trigger] acc@[k] is None,
            decreases cs.len() - n,
        {
            acc.push(None);
            n = n + 1;
        }
        proof {
            assert forall|k: int| 0 <= k < cs@.len() implies (#[trigger] acc@[k] is Some <==> g.read[k] is Some) by {}
        }
        let mut i: usize = 0;
        while i < rounds
            invariant
                self.wf(),
                self.lexer.string == old(self).lexer.string,
                self.bytes() == b,
                b == old(self).bytes(),
                g0 == clause_start(cs@.len(), old(self).state()),
                0 <= i <= rounds,
                self.state() == g.next,
                values_agree(b, cs@, acc@, g),
                clause_perm(b, cs@, g0, rounds as nat) == clause_perm(b, cs@, g, (rounds - i) as nat),
            decreases rounds - i,
        {
            let ghost before = g;
            let ghost k: nat = (rounds - i) as nat;
            proof {
                assert(clause_perm(b, cs@, g, k) == match clause_round_from(b, cs@, g, 0) {
                    ClauseRound::Took(a) => clause_perm(b, cs@, a, (k - 1) as nat),
                    ClauseRound::Stopped => Ok(g),
                    ClauseRound::Failed(e) => Err(e),
                });
            }
            let took = match self.clause_round_exec(cs, &mut acc, Ghost(g)) {
                Ok(t) => t,
                Err(e) => return Err(e),
            };
            if !took {
                return Ok(acc);
            }
            proof {
                g = clause_round_from(b, cs@, before, 0)->Took_0;
            }
            i = i + 1;
        }
        Ok(acc)
    }
    /// Parses a partial `enum_variants` syntax.
    ///
    /// ```txt
    /// partial_enum_variants =
    ///     | kw_variants identifier ("," identifier)*
    /// ```
    pub fn parse_partial_enum_variants(&mut self) -> (r: ParserResult<Option<Ast<'a>>>)
        requires
            old(self).wf(),
        ensures
            rule_step(*old(self), *final(self), r, variants_rule(old(self).bytes(), old(self).state())),
            r matches Ok(Some(a)) ==> a.kind == AstKind::Temp(None),
    {
        let saved = self.get_state();
        let kw = match self.parse_kw_variants()? {
            Some(k) => k,
            None => return Ok(None),
        };
        self.set_state(saved);
        match self.read_variants()? {
            Some(ClauseValue::List(_, end)) => Ok(Some(Ast { span: kw.span.start..end, kind: AstKind::Temp(None) })),
            _ => Ok(None),
        }
    }
}

} // verus!

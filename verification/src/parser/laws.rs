//! What the rules of the grammar give on every input: clauses in any order, keywords in either
//! spelling, and signatures that take every trailing `?`.

use vstd::prelude::*;
use vstd::utf8::encode_utf8;

use crate::lexer::{lemma_step_progress, state_fits, LexView, TokenTag};

use super::parse_clauses::{clause_perm, clause_round_from, clause_rule, clause_start, Clause, ClausePerm, ClauseRound};
use super::parse_define::{named_tail_a, named_tail_b};
use super::parse_keywords::keyword_rule;
use super::parse_objects::{
    flag_and_owner_rule, flag_rule, object_tail_a, object_tail_b, FlagKind, on_rule, subject_rule, ObjectForm,
    ObjectTail, OptPairOutcome,
};
use super::parse_statements::{database_kw_rule, identifier_rule, use_name_from, use_rule};
use super::parse_operations::{identifier_scope_rule, sep_run, sep_step_rule};
use super::parse_types::{
    integer_lit_rule, opts_run, sig_alt_a, sig_alt_b, sig_alt_c, sig_alt_d, sig_alt_e, sig_list,
    sig_rule, sig_seq, tok, with_opts, wrap_opts, SigList, SigOutcome, SigView,
};
use super::parser::{lemma_token_rule_forward, next_token_of, token_either, token_is, RuleOutcome};

verus! {

/// `USE`, then the keyword `database` or the keyword `db`, then an identifier, is one `USE`
/// statement: it spans from `USE` to the end of the identifier, the parser stops after the
/// identifier, and the database is the identifier read after the second keyword.
pub proof fn lemma_use_either_keyword(b: Seq<u8>, st: LexView, w: Seq<char>)
    requires
        w == "database"@ || w == "db"@,
        keyword_rule(b, st, "use"@) is Matched,
        keyword_rule(b, keyword_rule(b, st, "use"@)->next, w) is Matched,
        identifier_rule(b, keyword_rule(b, keyword_rule(b, st, "use"@)->next, w)->next) is Matched,
    ensures
        ({
            let s1 = keyword_rule(b, st, "use"@)->next;
            let s2 = keyword_rule(b, s1, w)->next;
            &&& use_rule(b, st) == (RuleOutcome::Matched {
                start: keyword_rule(b, st, "use"@)->start,
                end: identifier_rule(b, s2)->end,
                next: identifier_rule(b, s2)->next,
            })
            &&& use_name_from(b, st) == s2
        }),
{
    let s1 = keyword_rule(b, st, "use"@)->next;
    assert(database_kw_rule(b, s1) is Matched);
    assert(database_kw_rule(b, s1)->next == keyword_rule(b, s1, w)->next);
}

/// In the second form of a statement that names an object, the flag followed by the owner are
/// both read: the flag where it stands, and the owner after it.
pub proof fn lemma_flag_then_owner(b: Seq<u8>, st: LexView, form: ObjectForm)
    requires
        flag_rule(b, st, form.flag) is Matched,
        on_rule(b, flag_rule(b, st, form.flag)->next, form.on) is Matched,
    ensures
        ({
            let f = flag_rule(b, st, form.flag);
            flag_and_owner_rule(b, st, form) == (OptPairOutcome::Done {
                flag: Some((f->start, f->end)),
                on_from: Some(f->next),
                next: on_rule(b, f->next, form.on)->next,
            })
        }),
{
}

/// In the second form of a statement that names an object, the owner followed by the flag are
/// both read as well: the owner where it stands, and the flag after it.
pub proof fn lemma_owner_then_flag(b: Seq<u8>, st: LexView, form: ObjectForm)
    requires
        flag_rule(b, st, form.flag) is NoMatch,
        on_rule(b, st, form.on) is Matched,
        flag_rule(b, on_rule(b, st, form.on)->next, form.flag) is Matched,
    ensures
        ({
            let o = on_rule(b, st, form.on);
            let f = flag_rule(b, o->next, form.flag);
            flag_and_owner_rule(b, st, form) == (OptPairOutcome::Done {
                flag: Some((f->start, f->end)),
                on_from: Some(st),
                next: f->next,
            })
        }),
{
}

/// A statement that names an object, in its second form with the name followed by the flag and
/// the owner in either order, reads the name, sets the flag, reads the owner, and stops after
/// the last of them.
pub proof fn lemma_object_second_form(b: Seq<u8>, st: LexView, form: ObjectForm, flag_first: bool)
    requires
        subject_rule(b, st, form.variable) is Matched,
        ({
            let s1 = subject_rule(b, st, form.variable)->next;
            if flag_first {
                &&& flag_rule(b, s1, form.flag) is Matched
                &&& on_rule(b, flag_rule(b, s1, form.flag)->next, form.on) is Matched
            } else {
                &&& flag_rule(b, s1, form.flag) is NoMatch
                &&& on_rule(b, s1, form.on) is Matched
                &&& flag_rule(b, on_rule(b, s1, form.on)->next, form.flag) is Matched
            }
        }),
    ensures
        ({
            let s1 = subject_rule(b, st, form.variable)->next;
            let last = if flag_first {
                on_rule(b, flag_rule(b, s1, form.flag)->next, form.on)->next
            } else {
                flag_rule(b, on_rule(b, s1, form.on)->next, form.flag)->next
            };
            let on_from = if flag_first {
                flag_rule(b, s1, form.flag)->next
            } else {
                s1
            };
            &&& object_tail_b(b, st, form) is Done
            &&& object_tail_b(b, st, form)->flag
            &&& object_tail_b(b, st, form)->on_from == Some(on_from)
            &&& object_tail_b(b, st, form)->next == last
        }),
{
    let s1 = subject_rule(b, st, form.variable)->next;
    if flag_first {
        lemma_flag_then_owner(b, s1, form);
    } else {
        lemma_owner_then_flag(b, s1, form);
    }
}

/// The state of a permutation of `n` clauses after the first `j` of them were read in order, the
/// clause `k` from the state `ss[k]`.
pub open spec fn perm_in_order(n: nat, ss: Seq<LexView>, j: nat) -> ClausePerm {
    ClausePerm {
        read: Seq::new(n, |i: int| if i < j { Some(ss[i]) } else { None }),
        next: ss[j as int],
    }
}

/// A round skips the clauses already read.
proof fn lemma_round_skips(b: Seq<u8>, cs: Seq<Clause>, acc: ClausePerm, i: nat, j: nat)
    requires
        i <= j <= cs.len(),
        acc.read.len() == cs.len(),
        forall|k: int| i <= k < j ==> acc.read[k] is Some,
    ensures
        clause_round_from(b, cs, acc, i) == clause_round_from(b, cs, acc, j),
    decreases j - i,
{
    if i < j {
        lemma_round_skips(b, cs, acc, i + 1, j);
    }
}

/// From `j` clauses read in order, the remaining rounds read the others in order.
proof fn lemma_perm_from(b: Seq<u8>, cs: Seq<Clause>, ss: Seq<LexView>, j: nat)
    requires
        ss.len() == cs.len() + 1,
        j <= cs.len(),
        forall|k: int|
            0 <= k < cs.len() ==> #[trigger] clause_rule(b, ss[k], cs[k]) is Matched && clause_rule(
                b,
                ss[k],
                cs[k],
            )->next == ss[k + 1],
    ensures
        clause_perm(b, cs, perm_in_order(cs.len(), ss, j), (cs.len() - j) as nat) == Ok::<
            ClausePerm,
            RuleOutcome,
        >(perm_in_order(cs.len(), ss, cs.len())),
    decreases cs.len() - j,
{
    let n = cs.len();
    if j < n {
        let acc = perm_in_order(n, ss, j);
        lemma_round_skips(b, cs, acc, 0, j);
        assert(clause_rule(b, ss[j as int], cs[j as int]) is Matched);
        let next_acc = perm_in_order(n, ss, j + 1);
        assert(acc.read.update(j as int, Some(acc.next)) =~= next_acc.read);
        assert(clause_round_from(b, cs, acc, j) == ClauseRound::Took(next_acc));
        lemma_perm_from(b, cs, ss, j + 1);
    }
}

/// Clauses that stand one after another in the order of the list are all read, each from where
/// the one before it stopped, and the permutation stops after the last of them.
pub proof fn lemma_clauses_in_order(b: Seq<u8>, cs: Seq<Clause>, ss: Seq<LexView>)
    requires
        ss.len() == cs.len() + 1,
        forall|k: int|
            0 <= k < cs.len() ==> #[trigger] clause_rule(b, ss[k], cs[k]) is Matched && clause_rule(
                b,
                ss[k],
                cs[k],
            )->next == ss[k + 1],
    ensures
        clause_perm(b, cs, clause_start(cs.len(), ss[0]), cs.len()) == Ok::<ClausePerm, RuleOutcome>(
            ClausePerm { read: Seq::new(cs.len(), |i: int| Some(ss[i])), next: ss[cs.len() as int] },
        ),
{
    let n = cs.len();
    assert(clause_start(n, ss[0]).read =~= perm_in_order(n, ss, 0).read);
    lemma_perm_from(b, cs, ss, 0);
    assert(perm_in_order(n, ss, n).read =~= Seq::new(n, |i: int| Some(ss[i])));
}

/// In the first form of a definition (the flag, the name, then its clauses in any order), when
/// all the clauses of the form follow the name one after another, all of them are read, and the
/// definition stops after the last of them.
pub proof fn lemma_first_form_reads_all_clauses(
    b: Seq<u8>,
    st: LexView,
    f: FlagKind,
    cs_a: Seq<Clause>,
    ss: Seq<LexView>,
)
    requires
        flag_rule(b, st, f) is Matched,
        identifier_rule(b, flag_rule(b, st, f)->next) is Matched,
        ss.len() == cs_a.len() + 1,
        ss[0] == identifier_rule(b, flag_rule(b, st, f)->next)->next,
        forall|k: int|
            0 <= k < cs_a.len() ==> #[trigger] clause_rule(b, ss[k], cs_a[k]) is Matched && clause_rule(
                b,
                ss[k],
                cs_a[k],
            )->next == ss[k + 1],
    ensures
        named_tail_a(b, st, f, cs_a) is Done,
        named_tail_a(b, st, f, cs_a)->flag,
        named_tail_a(b, st, f, cs_a)->name_from == flag_rule(b, st, f)->next,
        named_tail_a(b, st, f, cs_a)->perm.next == ss[cs_a.len() as int],
        forall|k: int| 0 <= k < cs_a.len() ==> named_tail_a(b, st, f, cs_a)->perm.read[k] == Some(ss[k]),
{
    lemma_clauses_in_order(b, cs_a, ss);
}

/// In the second form of a definition (the name, then its clauses, the flag first, in any
/// order), when all the clauses of the form follow the name one after another, all of them are
/// read, and the definition stops after the last of them.
pub proof fn lemma_second_form_reads_all_clauses(
    b: Seq<u8>,
    st: LexView,
    cs_b: Seq<Clause>,
    ss: Seq<LexView>,
)
    requires
        identifier_rule(b, st) is Matched,
        cs_b.len() > 0,
        ss.len() == cs_b.len() + 1,
        ss[0] == identifier_rule(b, st)->next,
        forall|k: int|
            0 <= k < cs_b.len() ==> #[trigger] clause_rule(b, ss[k], cs_b[k]) is Matched && clause_rule(
                b,
                ss[k],
                cs_b[k],
            )->next == ss[k + 1],
    ensures
        named_tail_b(b, st, cs_b) is Done,
        named_tail_b(b, st, cs_b)->flag,
        named_tail_b(b, st, cs_b)->name_from == st,
        named_tail_b(b, st, cs_b)->perm.next == ss[cs_b.len() as int],
        forall|k: int| 0 <= k < cs_b.len() ==> named_tail_b(b, st, cs_b)->perm.read[k] == Some(ss[k]),
{
    lemma_clauses_in_order(b, cs_b, ss);
}

/// A token rule that matches from a state that fits the input stops at a state that fits it,
/// no earlier than where it started.
proof fn lemma_tok_fits(b: Seq<u8>, chars: Seq<char>, st: LexView, k: TokenTag)
    requires
        b == encode_utf8(chars),
        state_fits(b, st),
    ensures
        tok(b, st, k) matches RuleOutcome::Matched { next, .. } ==> state_fits(b, next) && next.cursor
            > st.cursor,
{
    lemma_token_rule_forward(b, chars, st, token_is(k, Seq::empty(), 0));
}

/// An identifier read from a state that fits the input stops at a state that fits it.
proof fn lemma_identifier_fits(b: Seq<u8>, chars: Seq<char>, st: LexView)
    requires
        b == encode_utf8(chars),
        state_fits(b, st),
    ensures
        identifier_rule(b, st) matches RuleOutcome::Matched { next, .. } ==> state_fits(b, next),
{
    lemma_token_rule_forward(
        b,
        chars,
        st,
        token_either(TokenTag::PlainIdentifier, TokenTag::EscapedIdentifier),
    );
}

/// An integer literal read from a state that fits the input stops at a state that fits it.
proof fn lemma_integer_lit_fits(b: Seq<u8>, chars: Seq<char>, st: LexView)
    requires
        b == encode_utf8(chars),
        state_fits(b, st),
    ensures
        integer_lit_rule(b, st) matches RuleOutcome::Matched { next, .. } ==> state_fits(b, next),
{
    reveal(next_token_of);
    lemma_step_progress(b, chars, st);
}

/// Identifiers joined by a separator, read from a state that fits the input, stop at a state
/// that fits it.
proof fn lemma_sep_run_fits(b: Seq<u8>, chars: Seq<char>, st: LexView, sep: TokenTag, fuel: nat)
    requires
        b == encode_utf8(chars),
        state_fits(b, st),
    ensures
        sep_run(b, st, sep, fuel) matches Ok((_, last)) ==> state_fits(b, last),
    decreases fuel,
{
    if fuel > 0 {
        lemma_tok_fits(b, chars, st, sep);
        if let RuleOutcome::Matched { next: s1, .. } = tok(b, st, sep) {
            lemma_identifier_fits(b, chars, s1);
            if let RuleOutcome::Matched { next: s2, .. } = identifier_rule(b, s1) {
                assert(sep_step_rule(b, st, sep) == (RuleOutcome::Matched {
                    start: tok(b, st, sep)->start,
                    end: identifier_rule(b, s1)->end,
                    next: s2,
                }));
                lemma_sep_run_fits(b, chars, s2, sep, (fuel - 1) as nat);
            }
        }
    }
}

/// A name with its scopes, read from a state that fits the input, stops at a state that fits it.
proof fn lemma_scope_fits(b: Seq<u8>, chars: Seq<char>, st: LexView)
    requires
        b == encode_utf8(chars),
        state_fits(b, st),
    ensures
        identifier_scope_rule(b, st) matches RuleOutcome::Matched { next, .. } ==> state_fits(b, next),
{
    lemma_identifier_fits(b, chars, st);
    if let RuleOutcome::Matched { next, .. } = identifier_rule(b, st) {
        lemma_sep_run_fits(b, chars, next, TokenTag::OpScope, (b.len() + 1) as nat);
    }
}

/// `?` read as long as they come, from a state that fits the input, with more rounds than bytes
/// left: the run stops at a state that fits the input, before which no `?` stands.
proof fn lemma_opts_saturated(b: Seq<u8>, chars: Seq<char>, st: LexView, k: nat)
    requires
        b == encode_utf8(chars),
        state_fits(b, st),
        k >= b.len() - st.cursor,
    ensures
        opts_run(b, st, k) matches Ok((_, _, s)) ==> state_fits(b, s) && !(tok(
            b,
            s,
            TokenTag::OpOptional,
        ) is Matched),
    decreases k,
{
    lemma_tok_fits(b, chars, st, TokenTag::OpOptional);
    if k == 0 {
        reveal(next_token_of);
        assert(!(tok(b, st, TokenTag::OpOptional) is Matched));
    } else {
        if let RuleOutcome::Matched { next, .. } = tok(b, st, TokenTag::OpOptional) {
            lemma_opts_saturated(b, chars, next, (k - 1) as nat);
        }
    }
}

/// A signature followed by its trailing `?`, from a state that fits the input, stops at a state
/// that fits it, before which no `?` stands.
proof fn lemma_with_opts_saturated(b: Seq<u8>, chars: Seq<char>, start: int, end: int, v: SigView, s: LexView)
    requires
        b == encode_utf8(chars),
        state_fits(b, s),
    ensures
        with_opts(b, start, end, v, s) matches SigOutcome::Matched { next, .. } ==> state_fits(b, next)
            && !(tok(b, next, TokenTag::OpOptional) is Matched),
{
    lemma_opts_saturated(b, chars, s, b.len() as nat);
}

/// Every form of type signature, read from a state that fits the input, stops at a state that
/// fits it, and takes every `?` that follows it: no `?` stands right after a signature.
pub proof fn lemma_sig_takes_every_opt(b: Seq<u8>, chars: Seq<char>, st: LexView, fuel: nat)
    requires
        b == encode_utf8(chars),
        state_fits(b, st),
    ensures
        sig_rule(b, st, fuel) matches SigOutcome::Matched { next, .. } ==> state_fits(b, next) && !(tok(
            b,
            next,
            TokenTag::OpOptional,
        ) is Matched),
    decreases fuel, 3nat,
{
    lemma_alt_a_saturated(b, chars, st, fuel);
    lemma_alt_b_saturated(b, chars, st, fuel);
    lemma_alt_c_saturated(b, chars, st, fuel);
    lemma_alt_d_saturated(b, chars, st, fuel);
    lemma_alt_e_saturated(b, chars, st);
}

proof fn lemma_alt_a_saturated(b: Seq<u8>, chars: Seq<char>, st: LexView, fuel: nat)
    requires
        b == encode_utf8(chars),
        state_fits(b, st),
    ensures
        sig_alt_a(b, st, fuel) matches SigOutcome::Matched { next, .. } ==> state_fits(b, next) && !(tok(
            b,
            next,
            TokenTag::OpOptional,
        ) is Matched),
    decreases fuel, 1nat,
{
    if fuel > 0 {
        lemma_tok_fits(b, chars, st, TokenTag::OpOpenSquareBracket);
        if let RuleOutcome::Matched { next: s1, .. } = tok(b, st, TokenTag::OpOpenSquareBracket) {
            lemma_sig_takes_every_opt(b, chars, s1, (fuel - 1) as nat);
            if let SigOutcome::Matched { next: s2, .. } = sig_rule(b, s1, (fuel - 1) as nat) {
                lemma_integer_lit_fits(b, chars, s2);
                if let RuleOutcome::Matched { next: s3, .. } = integer_lit_rule(b, s2) {
                    lemma_tok_fits(b, chars, s3, TokenTag::OpCloseSquareBracket);
                    if let RuleOutcome::Matched { start: _, end, next: s4 } = tok(b, s3, TokenTag::OpCloseSquareBracket) {
                        lemma_opts_saturated(b, chars, s4, b.len() as nat);
                    }
                }
            }
        }
    }
}

proof fn lemma_alt_b_saturated(b: Seq<u8>, chars: Seq<char>, st: LexView, fuel: nat)
    requires
        b == encode_utf8(chars),
        state_fits(b, st),
    ensures
        sig_alt_b(b, st, fuel) matches SigOutcome::Matched { next, .. } ==> state_fits(b, next) && !(tok(
            b,
            next,
            TokenTag::OpOptional,
        ) is Matched),
    decreases fuel, 1nat,
{
    if fuel > 0 {
        lemma_tok_fits(b, chars, st, TokenTag::OpOpenSquareBracket);
        if let RuleOutcome::Matched { next: s1, .. } = tok(b, st, TokenTag::OpOpenSquareBracket) {
            lemma_sig_takes_every_opt(b, chars, s1, (fuel - 1) as nat);
            if let SigOutcome::Matched { next: s2, .. } = sig_rule(b, s1, (fuel - 1) as nat) {
                lemma_tok_fits(b, chars, s2, TokenTag::OpCloseSquareBracket);
                if let RuleOutcome::Matched { next: s3, .. } = tok(b, s2, TokenTag::OpCloseSquareBracket) {
                    lemma_opts_saturated(b, chars, s3, b.len() as nat);
                }
            }
        }
    }
}

/// Signatures joined by commas, read from a state that fits the input, stop at a state that
/// fits it.
proof fn lemma_sig_list_fits(b: Seq<u8>, chars: Seq<char>, st: LexView, fuel: nat, k: nat)
    requires
        b == encode_utf8(chars),
        state_fits(b, st),
    ensures
        sig_list(b, st, fuel, k) matches SigList::Done(_, last) ==> state_fits(b, last),
    decreases fuel, 3 + k,
{
    if k > 0 {
        lemma_tok_fits(b, chars, st, TokenTag::OpComma);
        if let RuleOutcome::Matched { next: s1, .. } = tok(b, st, TokenTag::OpComma) {
            lemma_sig_takes_every_opt(b, chars, s1, fuel);
            if let SigOutcome::Matched { next: s2, .. } = sig_rule(b, s1, fuel) {
                lemma_sig_list_fits(b, chars, s2, fuel, (k - 1) as nat);
            }
        }
    }
}

/// A bracketed run of signatures, read from a state that fits the input, stops at a state that
/// fits it.
proof fn lemma_sig_seq_fits(b: Seq<u8>, chars: Seq<char>, st: LexView, fuel: nat, close: TokenTag)
    requires
        b == encode_utf8(chars),
        state_fits(b, st),
    ensures
        sig_seq(b, st, fuel, close) matches SigOutcome::Matched { next, .. } ==> state_fits(b, next),
    decreases fuel, 1nat,
{
    if fuel > 0 {
        lemma_sig_takes_every_opt(b, chars, st, (fuel - 1) as nat);
        if let SigOutcome::Matched { next: s1, .. } = sig_rule(b, st, (fuel - 1) as nat) {
            lemma_sig_list_fits(b, chars, s1, (fuel - 1) as nat, b.len() as nat);
            if let SigList::Done(_, s2) = sig_list(b, s1, (fuel - 1) as nat, b.len() as nat) {
                lemma_tok_fits(b, chars, s2, TokenTag::OpComma);
                let s3 = match tok(b, s2, TokenTag::OpComma) {
                    RuleOutcome::Matched { next, .. } => next,
                    _ => s2,
                };
                lemma_tok_fits(b, chars, s3, close);
            }
        }
    }
}

proof fn lemma_alt_c_saturated(b: Seq<u8>, chars: Seq<char>, st: LexView, fuel: nat)
    requires
        b == encode_utf8(chars),
        state_fits(b, st),
    ensures
        sig_alt_c(b, st, fuel) matches SigOutcome::Matched { next, .. } ==> state_fits(b, next) && !(tok(
            b,
            next,
            TokenTag::OpOptional,
        ) is Matched),
    decreases fuel, 2nat,
{
    lemma_tok_fits(b, chars, st, TokenTag::OpOpenParen);
    if let RuleOutcome::Matched { next: s1, .. } = tok(b, st, TokenTag::OpOpenParen) {
        lemma_sig_seq_fits(b, chars, s1, fuel, TokenTag::OpCloseParen);
        if let SigOutcome::Matched { next: s2, .. } = sig_seq(b, s1, fuel, TokenTag::OpCloseParen) {
            lemma_opts_saturated(b, chars, s2, b.len() as nat);
        }
    }
}

proof fn lemma_alt_d_saturated(b: Seq<u8>, chars: Seq<char>, st: LexView, fuel: nat)
    requires
        b == encode_utf8(chars),
        state_fits(b, st),
    ensures
        sig_alt_d(b, st, fuel) matches SigOutcome::Matched { next, .. } ==> state_fits(b, next) && !(tok(
            b,
            next,
            TokenTag::OpOptional,
        ) is Matched),
    decreases fuel, 2nat,
{
    lemma_scope_fits(b, chars, st);
    if let RuleOutcome::Matched { next: s1, .. } = identifier_scope_rule(b, st) {
        lemma_tok_fits(b, chars, s1, TokenTag::OpOpenSquareBracket);
        if let RuleOutcome::Matched { next: s2, .. } = tok(b, s1, TokenTag::OpOpenSquareBracket) {
            lemma_sig_seq_fits(b, chars, s2, fuel, TokenTag::OpCloseSquareBracket);
            if let SigOutcome::Matched { next: s3, .. } = sig_seq(b, s2, fuel, TokenTag::OpCloseSquareBracket) {
                lemma_opts_saturated(b, chars, s3, b.len() as nat);
            }
        }
    }
}

proof fn lemma_alt_e_saturated(b: Seq<u8>, chars: Seq<char>, st: LexView)
    requires
        b == encode_utf8(chars),
        state_fits(b, st),
    ensures
        sig_alt_e(b, st) matches SigOutcome::Matched { next, .. } ==> state_fits(b, next) && !(tok(
            b,
            next,
            TokenTag::OpOptional,
        ) is Matched),
{
    lemma_scope_fits(b, chars, st);
    if let RuleOutcome::Matched { next: s1, .. } = identifier_scope_rule(b, st) {
        lemma_opts_saturated(b, chars, s1, b.len() as nat);
    }
}

/// In the first form of a statement that names an object, the flag, the name and the owner are
/// all read: the name where the flag stopped and the owner where the name stopped.
pub proof fn lemma_object_first_form(b: Seq<u8>, st: LexView, form: ObjectForm)
    requires
        flag_rule(b, st, form.flag) is Matched,
        subject_rule(b, flag_rule(b, st, form.flag)->next, form.variable) is Matched,
        on_rule(
            b,
            subject_rule(b, flag_rule(b, st, form.flag)->next, form.variable)->next,
            form.on,
        ) is Matched,
    ensures
        ({
            let s1 = flag_rule(b, st, form.flag)->next;
            let s2 = subject_rule(b, s1, form.variable)->next;
            &&& object_tail_a(b, st, form) is Done
            &&& object_tail_a(b, st, form)->flag
            &&& object_tail_a(b, st, form)->name_from == s1
            &&& object_tail_a(b, st, form)->on_from == Some(s2)
            &&& object_tail_a(b, st, form)->next == on_rule(b, s2, form.on)->next
        }),
{
}

/// `?` read with enough rounds give the same run however many more rounds there are.
proof fn lemma_opts_fuel(b: Seq<u8>, chars: Seq<char>, st: LexView, k1: nat, k2: nat)
    requires
        b == encode_utf8(chars),
        state_fits(b, st),
        k1 >= b.len() - st.cursor,
        k2 >= b.len() - st.cursor,
    ensures
        opts_run(b, st, k1) == opts_run(b, st, k2),
    decreases k1,
{
    lemma_tok_fits(b, chars, st, TokenTag::OpOptional);
    if k1 == 0 || k2 == 0 {
        reveal(next_token_of);
        assert(!(tok(b, st, TokenTag::OpOptional) is Matched));
    } else if let RuleOutcome::Matched { next, .. } = tok(b, st, TokenTag::OpOptional) {
        lemma_opts_fuel(b, chars, next, (k1 - 1) as nat, (k2 - 1) as nat);
    }
}

/// One more `?` outside is one more `?` inside.
proof fn lemma_wrap_opts_inner(v: SigView, n: nat)
    ensures
        wrap_opts(v, n + 1) == wrap_opts(SigView::Opt(Box::new(v)), n),
    decreases n,
{
    assert(wrap_opts(v, n + 1) == SigView::Opt(Box::new(wrap_opts(v, n))));
    if n > 0 {
        lemma_wrap_opts_inner(v, (n - 1) as nat);
        assert(wrap_opts(v, n) == SigView::Opt(Box::new(wrap_opts(v, (n - 1) as nat))));
        assert(wrap_opts(SigView::Opt(Box::new(v)), n) == SigView::Opt(
            Box::new(wrap_opts(SigView::Opt(Box::new(v)), (n - 1) as nat)),
        ));
    } else {
        assert(wrap_opts(v, 0) == v);
        assert(wrap_opts(SigView::Opt(Box::new(v)), 0) == SigView::Opt(Box::new(v)));
    }
}

/// Each `?` after a signature wraps it in one more option: a signature with the shape `v`
/// ending at `end`, where a `?` follows, gives what the signature with the shape `Opt(v)`
/// ending at that `?` gives after it.
pub proof fn lemma_opt_wraps_signature(
    b: Seq<u8>,
    chars: Seq<char>,
    start: int,
    end: int,
    v: SigView,
    s: LexView,
)
    requires
        b == encode_utf8(chars),
        state_fits(b, s),
        tok(b, s, TokenTag::OpOptional) is Matched,
    ensures
        ({
            let q = tok(b, s, TokenTag::OpOptional);
            with_opts(b, start, end, v, s) == with_opts(b, start, q->end, SigView::Opt(Box::new(v)), q->next)
        }),
{
    lemma_tok_fits(b, chars, s, TokenTag::OpOptional);
    let q = tok(b, s, TokenTag::OpOptional);
    let k = b.len() as nat;
    assert(k > 0);
    lemma_opts_fuel(b, chars, q->next, (k - 1) as nat, k);
    match opts_run(b, q->next, k) {
        Ok((m, _, _)) => {
            lemma_wrap_opts_inner(v, m);
        },
        Err(_) => {},
    }
}

} // verus!

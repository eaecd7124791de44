//! Type signatures.

use vstd::prelude::*;
use vstd::string::*;
use vstd::utf8::{encode_utf8, encode_utf8_decode_utf8};

use crate::ast::{Ast, AstKind, TypeSig};
use crate::lexer::{state_fits, LexView, Lexed, TokenKind, TokenTag};

use super::literals::{convert_string_to_int, int_literal_value};
use super::parse_literals::{int_digits, next_text, radix_of};
use super::parse_keywords::keyword_rule;
use super::parse_operations::{ident_at, identifier_scope_kind, identifier_scope_rule, sep_list};
use super::parse_statements::identifier_rule;
use super::parser::{next_token_of, rule_step, token_is, token_rule, Parser, RuleOutcome};
use super::{ParserError, ParserResult, StateCapture};

verus! {

/// The shape of a type signature, with the states from which its names and lengths were read.
pub enum SigView {
    /// `[sig length]`, with the state the length was read from.
    Array(Box<SigView>, LexView),
    /// `[sig]`.
    List(Box<SigView>),
    /// `(sig, ...)`.
    Tuple(Seq<SigView>),
    /// `sig?`.
    Opt(Box<SigView>),
    /// `name[sig, ...]`, with the state the name was read from.
    Generic(LexView, Seq<SigView>),
    /// `name`, with the state the name was read from.
    Basic(LexView),
}

/// What a type signature gives from a state.
pub enum SigOutcome {
    /// A signature spanning `start..end`, its shape, and the state after it.
    Matched { start: int, end: int, view: SigView, next: LexView },
    /// No match.
    NoMatch,
    /// An error.
    Failed(ParserError),
    /// An integer literal that is not a number in its base, with its text without underscores.
    FailedInt(Seq<char>),
}

/// What a run of `, sig` gives.
pub enum SigList {
    /// The shapes read and the state after them.
    Done(Seq<SigView>, LexView),
    /// An error.
    Failed(ParserError),
    /// An integer literal that is not a number in its base.
    FailedInt(Seq<char>),
}

/// The token of the rule `k`, which carries no text.
pub open spec fn tok(b: Seq<u8>, st: LexView, k: TokenTag) -> RuleOutcome {
    token_rule(b, st, token_is(k, Seq::empty(), 0))
}

/// An integer literal.
pub open spec fn integer_lit_rule(b: Seq<u8>, st: LexView) -> RuleOutcome {
    let (next, l) = next_token_of(b, st);
    match l {
        Lexed::Failed(e) => RuleOutcome::Failed(ParserError::LexerError(e)),
        Lexed::Token { start, end, tag, text, .. } => if radix_of(tag) is Some {
            if int_literal_value(int_digits(text), radix_of(tag).unwrap()) is None {
                RuleOutcome::FailedInt(int_digits(text))
            } else {
                RuleOutcome::Matched { start, end, next }
            }
        } else {
            RuleOutcome::NoMatch
        },
        Lexed::End => RuleOutcome::NoMatch,
    }
}

/// The tree `a` is the integer literal read from `st`.
pub open spec fn integer_lit_at<'a>(b: Seq<u8>, st: LexView, a: Ast<'a>) -> bool {
    &&& a.span.start == integer_lit_rule(b, st)->start
    &&& a.span.end == integer_lit_rule(b, st)->end
    &&& match next_token_of(b, st).1 {
        Lexed::Token { tag, .. } => int_literal_value(int_digits(next_text(b, st)), radix_of(tag).unwrap())
            == Some(a.kind->IntegerLiteral_0) && a.kind is IntegerLiteral,
        _ => false,
    }
}

/// `?` repeated, at most `k` times: how many, the end of the last, and the state after them.
pub open spec fn opts_run(b: Seq<u8>, st: LexView, k: nat) -> Result<(nat, int, LexView), ParserError>
    decreases k,
{
    if k == 0 {
        Ok((0, 0, st))
    } else {
        match tok(b, st, TokenTag::OpOptional) {
            RuleOutcome::Matched { end, next, .. } => match opts_run(b, next, (k - 1) as nat) {
                Ok((n, e, s)) => Ok((n + 1, if n == 0 { end } else { e }, s)),
                Err(x) => Err(x),
            },
            RuleOutcome::Failed(x) => Err(x),
            _ => Ok((0, 0, st)),
        }
    }
}

/// The shape `v` made optional `n` times.
pub open spec fn wrap_opts(v: SigView, n: nat) -> SigView
    decreases n,
{
    if n == 0 {
        v
    } else {
        SigView::Opt(Box::new(wrap_opts(v, (n - 1) as nat)))
    }
}

/// A signature from `start` to `end` with the shape `v`, followed at `st` by any number of `?`.
pub open spec fn with_opts(b: Seq<u8>, start: int, end: int, v: SigView, st: LexView) -> SigOutcome {
    match opts_run(b, st, b.len() as nat) {
        Ok((n, e, s)) => SigOutcome::Matched {
            start,
            end: if n == 0 { end } else { e },
            view: wrap_opts(v, n),
            next: s,
        },
        Err(x) => SigOutcome::Failed(x),
    }
}

/// The failure that a rule's outcome gives, as a signature's outcome; no match otherwise.
pub open spec fn sig_stop(o: RuleOutcome) -> SigOutcome {
    match o {
        RuleOutcome::Failed(e) => SigOutcome::Failed(e),
        RuleOutcome::FailedInt(t) => SigOutcome::FailedInt(t),
        _ => SigOutcome::NoMatch,
    }
}

/// `[ sig integer_lit ] ?*`.
pub open spec fn sig_alt_a(b: Seq<u8>, st: LexView, fuel: nat) -> SigOutcome
    decreases fuel, 1nat,
{
    if fuel == 0 {
        SigOutcome::NoMatch
    } else {
        match tok(b, st, TokenTag::OpOpenSquareBracket) {
            RuleOutcome::Matched { start, next: s1, .. } => match sig_rule(b, s1, (fuel - 1) as nat) {
                SigOutcome::Matched { view, next: s2, .. } => match integer_lit_rule(b, s2) {
                    RuleOutcome::Matched { next: s3, .. } => match tok(b, s3, TokenTag::OpCloseSquareBracket) {
                        RuleOutcome::Matched { end, next: s4, .. } => with_opts(
                            b,
                            start,
                            end,
                            SigView::Array(Box::new(view), s2),
                            s4,
                        ),
                        o => sig_stop(o),
                    },
                    o => sig_stop(o),
                },
                o => o,
            },
            o => sig_stop(o),
        }
    }
}

/// `[ sig ] ?*`.
pub open spec fn sig_alt_b(b: Seq<u8>, st: LexView, fuel: nat) -> SigOutcome
    decreases fuel, 1nat,
{
    if fuel == 0 {
        SigOutcome::NoMatch
    } else {
        match tok(b, st, TokenTag::OpOpenSquareBracket) {
            RuleOutcome::Matched { start, next: s1, .. } => match sig_rule(b, s1, (fuel - 1) as nat) {
                SigOutcome::Matched { view, next: s2, .. } => match tok(b, s2, TokenTag::OpCloseSquareBracket) {
                    RuleOutcome::Matched { end, next: s3, .. } => with_opts(
                        b,
                        start,
                        end,
                        SigView::List(Box::new(view)),
                        s3,
                    ),
                    o => sig_stop(o),
                },
                o => o,
            },
            o => sig_stop(o),
        }
    }
}

/// A signature, then `, sig` repeated, then an optional `,` and the closing token `close`:
/// the shapes, the end of the closing token and the state after it.
pub open spec fn sig_seq(b: Seq<u8>, st: LexView, fuel: nat, close: TokenTag) -> SigOutcome
    decreases fuel, 1nat,
{
    if fuel == 0 {
        SigOutcome::NoMatch
    } else {
        match sig_rule(b, st, (fuel - 1) as nat) {
            SigOutcome::Matched { start, view, next: s1, .. } => match sig_list(
                b,
                s1,
                (fuel - 1) as nat,
                b.len() as nat,
            ) {
                SigList::Done(vs, s2) => {
                    let s3 = match tok(b, s2, TokenTag::OpComma) {
                        RuleOutcome::Matched { next, .. } => Ok(next),
                        RuleOutcome::Failed(e) => Err(e),
                        _ => Ok(s2),
                    };
                    match s3 {
                        Ok(s3) => match tok(b, s3, close) {
                            RuleOutcome::Matched { end, next: s4, .. } => SigOutcome::Matched {
                                start,
                                end,
                                view: SigView::Tuple(seq![view] + vs),
                                next: s4,
                            },
                            o => sig_stop(o),
                        },
                        Err(e) => SigOutcome::Failed(e),
                    }
                },
                SigList::Failed(e) => SigOutcome::Failed(e),
                SigList::FailedInt(t) => SigOutcome::FailedInt(t),
            },
            o => o,
        }
    }
}

/// `, sig` repeated, at most `k` times.
pub open spec fn sig_list(b: Seq<u8>, st: LexView, fuel: nat, k: nat) -> SigList
    decreases fuel, 3 + k,
{
    if k == 0 {
        SigList::Done(Seq::empty(), st)
    } else {
        match tok(b, st, TokenTag::OpComma) {
            RuleOutcome::Matched { next: s1, .. } => match sig_rule(b, s1, fuel) {
                SigOutcome::Matched { view, next: s2, .. } => match sig_list(b, s2, fuel, (k - 1) as nat) {
                    SigList::Done(vs, s3) => SigList::Done(seq![view] + vs, s3),
                    other => other,
                },
                SigOutcome::Failed(e) => SigList::Failed(e),
                SigOutcome::FailedInt(t) => SigList::FailedInt(t),
                SigOutcome::NoMatch => SigList::Done(Seq::empty(), st),
            },
            RuleOutcome::Failed(e) => SigList::Failed(e),
            _ => SigList::Done(Seq::empty(), st),
        }
    }
}

/// `( sig (, sig)* ,? ) ?*`.
pub open spec fn sig_alt_c(b: Seq<u8>, st: LexView, fuel: nat) -> SigOutcome
    decreases fuel, 2nat,
{
    match tok(b, st, TokenTag::OpOpenParen) {
        RuleOutcome::Matched { start, next: s1, .. } => match sig_seq(b, s1, fuel, TokenTag::OpCloseParen) {
            SigOutcome::Matched { end, view, next: s2, .. } => with_opts(b, start, end, view, s2),
            o => o,
        },
        o => sig_stop(o),
    }
}

/// `name [ sig (, sig)* ,? ] ?*`.
pub open spec fn sig_alt_d(b: Seq<u8>, st: LexView, fuel: nat) -> SigOutcome
    decreases fuel, 2nat,
{
    match identifier_scope_rule(b, st) {
        RuleOutcome::Matched { start, next: s1, .. } => match tok(b, s1, TokenTag::OpOpenSquareBracket) {
            RuleOutcome::Matched { next: s2, .. } => match sig_seq(b, s2, fuel, TokenTag::OpCloseSquareBracket) {
                SigOutcome::Matched { end, view, next: s3, .. } => with_opts(
                    b,
                    start,
                    end,
                    SigView::Generic(st, view->Tuple_0),
                    s3,
                ),
                o => o,
            },
            o => sig_stop(o),
        },
        o => sig_stop(o),
    }
}

/// `name ?*`.
pub open spec fn sig_alt_e(b: Seq<u8>, st: LexView) -> SigOutcome {
    match identifier_scope_rule(b, st) {
        RuleOutcome::Matched { start, end, next } => with_opts(b, start, end, SigView::Basic(st), next),
        o => sig_stop(o),
    }
}

/// A type signature, from the state `st` of the input `b`, nested at most `fuel` deep: the first
/// of its forms that matches.
pub open spec fn sig_rule(b: Seq<u8>, st: LexView, fuel: nat) -> SigOutcome
    decreases fuel, 3nat,
{
    match sig_alt_a(b, st, fuel) {
        SigOutcome::NoMatch => match sig_alt_b(b, st, fuel) {
            SigOutcome::NoMatch => match sig_alt_c(b, st, fuel) {
                SigOutcome::NoMatch => match sig_alt_d(b, st, fuel) {
                    SigOutcome::NoMatch => sig_alt_e(b, st),
                    o => o,
                },
                o => o,
            },
            o => o,
        },
        o => o,
    }
}

/// The tree `a` is the name, an identifier with its scopes, read from `from`.
pub open spec fn name_at<'a>(b: Seq<u8>, from: LexView, a: Ast<'a>) -> bool {
    &&& a.span.start == identifier_scope_rule(b, from)->start
    &&& a.span.end == identifier_scope_rule(b, from)->end
    &&& identifier_scope_kind(b, from, a.kind)
}

/// The signature `s` has the shape `v`.
pub open spec fn sig_agrees<'a>(b: Seq<u8>, v: SigView, s: TypeSig<'a>) -> bool
    decreases v,
{
    match v {
        SigView::Array(inner, from) => match s {
            TypeSig::Array { type_sig, length } => sig_agrees(b, *inner, *type_sig) && integer_lit_at(
                b,
                from,
                *length,
            ),
            _ => false,
        },
        SigView::List(inner) => match s {
            TypeSig::List(t) => sig_agrees(b, *inner, *t),
            _ => false,
        },
        SigView::Tuple(vs) => match s {
            TypeSig::Tuple(ts) => ts@.len() == vs.len() && forall|i: int|
                0 <= i < vs.len() ==> sig_agrees(b, vs[i], #[trigger] ts@[i]),
            _ => false,
        },
        SigView::Opt(inner) => match s {
            TypeSig::Option(t) => sig_agrees(b, *inner, *t),
            _ => false,
        },
        SigView::Generic(from, vs) => match s {
            TypeSig::Generic { name, parameters } => name_at(b, from, *name) && parameters@.len()
                == vs.len() && forall|i: int|
                0 <= i < vs.len() ==> sig_agrees(b, vs[i], #[trigger] parameters@[i]),
            _ => false,
        },
        SigView::Basic(from) => match s {
            TypeSig::Basic(n) => name_at(b, from, *n),
            _ => false,
        },
    }
}

/// The result `r` of reading a signature, and the states before and after, agree with `o`.
pub open spec fn sig_result<'a>(
    b: Seq<u8>,
    r: ParserResult<Option<(TypeSig<'a>, usize, usize)>>,
    before: LexView,
    after: LexView,
    o: SigOutcome,
) -> bool {
    match o {
        SigOutcome::Matched { start, end, view, next } => match r {
            Ok(Some((s, a, e))) => a == start && e == end && after == next && sig_agrees(b, view, s),
            _ => false,
        },
        SigOutcome::NoMatch => r matches Ok(None) && after == before,
        SigOutcome::Failed(x) => r matches Err(y) && y == x,
        SigOutcome::FailedInt(t) => match r {
            Err(ParserError::InvalidIntegerLiteral(_, c)) => c@ == t,
            _ => false,
        },
    }
}

/// `?` read so far: `n` of them, the last ending at `e`, then what `rest` read.
pub open spec fn opts_after(
    n: nat,
    e: int,
    rest: Result<(nat, int, LexView), ParserError>,
) -> Result<(nat, int, LexView), ParserError> {
    match rest {
        Ok((m, e2, s)) => Ok((n + m, if m == 0 { e } else { e2 }, s)),
        Err(x) => Err(x),
    }
}

/// Shapes read so far, then what `rest` read.
pub open spec fn list_after(vs: Seq<SigView>, rest: SigList) -> SigList {
    match rest {
        SigList::Done(ws, s) => SigList::Done(vs + ws, s),
        other => other,
    }
}

/// The signatures `ts` have the shapes `vs`.
pub open spec fn sigs_agree<'a>(b: Seq<u8>, vs: Seq<SigView>, ts: Seq<TypeSig<'a>>) -> bool {
    &&& ts.len() == vs.len()
    &&& forall|i: int| 0 <= i < vs.len() ==> sig_agrees(b, vs[i], #[trigger] ts[i])
}

/// A type signature from the state `st` of the input `b`: nested at most as deep as the input
/// has bytes, which no input can exceed, as each level of nesting reads a bracket.
pub open spec fn type_sig_rule(b: Seq<u8>, st: LexView) -> SigOutcome {
    sig_rule(b, st, b.len() as nat)
}

/// A signature's outcome as a rule's outcome.
pub open spec fn sig_as_rule(o: SigOutcome) -> RuleOutcome {
    match o {
        SigOutcome::Matched { start, end, next, .. } => RuleOutcome::Matched { start, end, next },
        SigOutcome::NoMatch => RuleOutcome::NoMatch,
        SigOutcome::Failed(e) => RuleOutcome::Failed(e),
        SigOutcome::FailedInt(t) => RuleOutcome::FailedInt(t),
    }
}

/// A field of a type: a name, `TYPE` and a signature; the outcome spans from the name to the end
/// of the signature, and has the signature's shape.
pub open spec fn type_field_rule(b: Seq<u8>, st: LexView) -> SigOutcome {
    match identifier_rule(b, st) {
        RuleOutcome::Matched { start, next: s1, .. } => match keyword_rule(b, s1, "type"@) {
            RuleOutcome::Matched { next: s2, .. } => match type_sig_rule(b, s2) {
                SigOutcome::Matched { end, view, next, .. } => SigOutcome::Matched { start, end, view, next },
                o => o,
            },
            o => sig_stop(o),
        },
        o => sig_stop(o),
    }
}

/// What a run of `, field` gives.
pub enum FieldList {
    /// The states each field was read from, their shapes, and the state after them.
    Done(Seq<LexView>, Seq<SigView>, LexView),
    /// An error.
    Failed(ParserError),
    /// An integer literal that is not a number in its base.
    FailedInt(Seq<char>),
}

/// `, field` repeated, at most `k` times.
pub open spec fn field_list(b: Seq<u8>, st: LexView, k: nat) -> FieldList
    decreases k,
{
    if k == 0 {
        FieldList::Done(Seq::empty(), Seq::empty(), st)
    } else {
        match tok(b, st, TokenTag::OpComma) {
            RuleOutcome::Matched { next: s1, .. } => match type_field_rule(b, s1) {
                SigOutcome::Matched { view, next: s2, .. } => match field_list(b, s2, (k - 1) as nat) {
                    FieldList::Done(fs, vs, s3) => FieldList::Done(seq![s1] + fs, seq![view] + vs, s3),
                    other => other,
                },
                SigOutcome::Failed(e) => FieldList::Failed(e),
                SigOutcome::FailedInt(t) => FieldList::FailedInt(t),
                SigOutcome::NoMatch => FieldList::Done(Seq::empty(), Seq::empty(), st),
            },
            RuleOutcome::Failed(e) => FieldList::Failed(e),
            _ => FieldList::Done(Seq::empty(), Seq::empty(), st),
        }
    }
}

/// `FIELDS` and fields separated by commas; the outcome spans to the end of the last field.
pub open spec fn type_fields_rule(b: Seq<u8>, st: LexView) -> RuleOutcome {
    match keyword_rule(b, st, "fields"@) {
        RuleOutcome::Matched { start, next: s1, .. } => match type_field_rule(b, s1) {
            SigOutcome::Matched { end: e1, next: s2, .. } => match field_list(b, s2, b.len() as nat) {
                FieldList::Done(fs, vs, s3) => RuleOutcome::Matched {
                    start,
                    end: if fs.len() == 0 {
                        e1
                    } else {
                        type_field_rule(b, fs.last())->end
                    },
                    next: s3,
                },
                FieldList::Failed(e) => RuleOutcome::Failed(e),
                FieldList::FailedInt(t) => RuleOutcome::FailedInt(t),
            },
            o => sig_as_rule(o),
        },
        o => o,
    }
}

/// The states from which the fields of `FIELDS`, read from `st`, are read.
pub open spec fn type_fields_from(b: Seq<u8>, st: LexView) -> Seq<LexView> {
    let s1 = keyword_rule(b, st, "fields"@)->next;
    seq![s1] + field_list(b, type_field_rule(b, s1)->next, b.len() as nat)->Done_0
}

/// The fields `fs` are the fields read from the states `froms`: each name is the identifier
/// read there, and each signature has the shape of the field read there.
pub open spec fn fields_agree<'a>(b: Seq<u8>, froms: Seq<LexView>, fs: Seq<(Ast<'a>, TypeSig<'a>)>) -> bool {
    &&& fs.len() == froms.len()
    &&& forall|i: int|
        0 <= i < froms.len() ==> ident_at(b, froms[i], (#[trigger] fs[i]).0) && sig_agrees(
            b,
            type_field_rule(b, froms[i])->view,
            fs[i].1,
        )
}

/// Fields read so far, then what `rest` read.
pub open spec fn fields_after(froms: Seq<LexView>, vs: Seq<SigView>, rest: FieldList) -> FieldList {
    match rest {
        FieldList::Done(fs, ws, s) => FieldList::Done(froms + fs, vs + ws, s),
        other => other,
    }
}

/// `TYPE` and a type signature; the outcome spans from `TYPE` to the end of the signature.
pub open spec fn field_type_rule(b: Seq<u8>, st: LexView) -> RuleOutcome {
    match keyword_rule(b, st, "type"@) {
        RuleOutcome::Matched { start, next: s1, .. } => match type_sig_rule(b, s1) {
            SigOutcome::Matched { end, next, .. } => RuleOutcome::Matched { start, end, next },
            o => sig_as_rule(o),
        },
        o => o,
    }
}

/// `FIELDS` and identifiers separated by commas.
pub open spec fn index_fields_rule(b: Seq<u8>, st: LexView) -> RuleOutcome {
    match keyword_rule(b, st, "fields"@) {
        RuleOutcome::Matched { start, next: s1, .. } => match identifier_rule(b, s1) {
            RuleOutcome::Matched { end: e1, next: s2, .. } => match sep_list(b, s2, TokenTag::OpComma) {
                Ok((froms, last)) => RuleOutcome::Matched {
                    start,
                    end: if froms.len() == 0 {
                        e1
                    } else {
                        identifier_rule(b, froms.last())->end
                    },
                    next: last,
                },
                Err(e) => RuleOutcome::Failed(e),
            },
            o => o,
        },
        o => o,
    }
}

impl<'a> Parser<'a> {
    /// Reads an integer literal.
    #[verifier::rlimit(40)]
    fn read_integer_lit(&mut self) -> (r: ParserResult<Option<Ast<'a>>>)
        requires
            old(self).wf(),
        ensures
            final(self).wf(),
            final(self).lexer.string == old(self).lexer.string,
            match integer_lit_rule(old(self).bytes(), old(self).state()) {
                RuleOutcome::Matched { next, .. } => match r {
                    Ok(Some(a)) => final(self).state() == next && integer_lit_at(old(self).bytes(), old(self).state(), a),
                    _ => false,
                },
                RuleOutcome::NoMatch => r matches Ok(None) && final(self).state() == old(self).state(),
                RuleOutcome::Failed(e) => r matches Err(x) && x == e,
                RuleOutcome::FailedInt(t) => match r {
                    Err(ParserError::InvalidIntegerLiteral(_, c)) => c@ == t,
                    _ => false,
                },
            },
    {
        proof {
            reveal(next_token_of);
        }
        let saved = self.get_state();
        if let Some(t) = self.eat_token()? {
            let span = t.span;
            let (lit, radix): (&str, u32) = match t.kind {
                TokenKind::DecIntegerLiteral(lit) => (lit, 10),
                TokenKind::HexIntegerLiteral(lit) => (lit, 16),
                TokenKind::BinIntegerLiteral(lit) => (lit, 2),
                TokenKind::OctIntegerLiteral(lit) => (lit, 8),
                _ => {
                    self.set_state(saved);
                    return Ok(None);
                },
            };
            proof {
                encode_utf8_decode_utf8(lit@);
            }
            return match convert_string_to_int(lit, radix) {
                Ok(v) => Ok(Some(Ast { span, kind: AstKind::IntegerLiteral(v) })),
                Err(e) => Err(e),
            };
        }
        self.set_state(saved);
        Ok(None)
    }

    /// Reads any number of `?` after the signature `sig` of shape `v`, which ends at `end`.
    fn read_opts(&mut self, sig: TypeSig<'a>, end: usize, Ghost(v): Ghost<SigView>) -> (r: ParserResult<(TypeSig<'a>, usize)>)
        requires
            old(self).wf(),
            sig_agrees(old(self).bytes(), v, sig),
        ensures
            final(self).wf(),
            final(self).lexer.string == old(self).lexer.string,
            match opts_run(old(self).bytes(), old(self).state(), old(self).bytes().len() as nat) {
                Ok((n, e, s)) => match r {
                    Ok((s2, e2)) => final(self).state() == s && e2 == (if n == 0 { end as int } else { e })
                        && sig_agrees(old(self).bytes(), wrap_opts(v, n), s2),
                    _ => false,
                },
                Err(x) => r matches Err(y) && y == x,
            },
    {
        let ghost b = self.bytes();
        let ghost s0 = self.state();
        let k = self.lexer.string.as_bytes().len();
        let ghost kk: nat = k as nat;
        let mut i: usize = 0;
        let mut cur = sig;
        let mut last_end = end;
        let ghost mut e_g: int = 0;
        proof {
            match opts_run(b, s0, kk) {
                Ok((m, e2, st)) => {
                    assert(m == 0 ==> e2 == 0);
                },
                Err(_) => {},
            }
        }
        loop
            invariant_except_break
                opts_run(b, s0, kk) == opts_after(i as nat, e_g, opts_run(b, self.state(), (kk - i) as nat)),
            invariant
                self.wf(),
                self.lexer.string == old(self).lexer.string,
                self.bytes() == b,
                b == old(self).bytes(),
                s0 == old(self).state(),
                kk == b.len(),
                k == kk,
                0 <= i <= k,
                i == 0 ==> e_g == 0,
                last_end == (if i == 0 { end as int } else { e_g }),
                sig_agrees(b, wrap_opts(v, i as nat), cur),
            ensures
                opts_run(b, s0, kk) == Ok::<(nat, int, LexView), ParserError>((i as nat, e_g, self.state())),
            decreases k - i,
        {
            let ghost st = self.state();
            if i == k {
                proof {
                    assert(opts_run(b, st, 0) == Ok::<(nat, int, LexView), ParserError>((0, 0, st)));
                }
                break;
            }
            match self.parse_tok(TokenKind::OpOptional)? {
                None => {
                    proof {
                        assert(opts_run(b, st, (kk - i) as nat) == Ok::<(nat, int, LexView), ParserError>((0, 0, st)));
                    }
                    break;
                },
                Some(t) => {
                    proof {
                        e_g = t.span.end as int;
                    }
                    cur = TypeSig::Option(Box::new(cur));
                    last_end = t.span.end;
                    i = i + 1;
                },
            }
        }
        Ok((cur, last_end))
    }
    /// Reads a signature, then `, sig` repeated, then an optional `,` and the closing token
    /// `close`: the signatures, the start of the first and the end of the closing token.
    fn read_sig_seq(&mut self, fuel: usize, close: TokenTag) -> (r: ParserResult<Option<(Vec<TypeSig<'a>>, usize, usize)>>)
        requires
            old(self).wf(),
            !crate::lexer::tag_has_text(close),
        ensures
            final(self).wf(),
            final(self).lexer.string == old(self).lexer.string,
            match sig_seq(old(self).bytes(), old(self).state(), fuel as nat, close) {
                SigOutcome::Matched { start, end, view, next } => match r {
                    Ok(Some((ts, a, e))) => a == start && e == end && final(self).state() == next
                        && view is Tuple && sigs_agree(old(self).bytes(), view->Tuple_0, ts@),
                    _ => false,
                },
                SigOutcome::NoMatch => r matches Ok(None) && final(self).state() == old(self).state(),
                SigOutcome::Failed(x) => r matches Err(y) && y == x,
                SigOutcome::FailedInt(t) => match r {
                    Err(ParserError::InvalidIntegerLiteral(_, c)) => c@ == t,
                    _ => false,
                },
            },
        decreases fuel, 1nat,
    {
        if fuel == 0 {
            return Ok(None);
        }
        let ghost b = self.bytes();
        let ghost s0 = self.state();
        let saved = self.get_state();
        let (first, start, _) = match self.read_sig(fuel - 1)? {
            Some(x) => x,
            None => return Ok(None),
        };
        let ghost s1 = self.state();
        let ghost v0 = sig_rule(b, s0, (fuel - 1) as nat)->view;
        let k = self.lexer.string.as_bytes().len();
        let ghost kk: nat = k as nat;
        let mut sigs: Vec<TypeSig<'a>> = Vec::new();
        sigs.push(first);
        let ghost mut vs: Seq<SigView> = Seq::empty();
        let mut i: usize = 0;
        proof {
            match sig_list(b, s1, (fuel - 1) as nat, kk) {
                SigList::Done(ws, st) => {
                    assert(vs + ws =~= ws);
                },
                _ => {},
            }
        }
        loop
            invariant_except_break
                sig_list(b, s1, (fuel - 1) as nat, kk) == list_after(vs, sig_list(b, self.state(), (fuel - 1) as nat, (kk - i) as nat)),
            invariant
                self.wf(),
                self.lexer.string == old(self).lexer.string,
                self.bytes() == b,
                b == old(self).bytes(),
                s0 == old(self).state(),
                kk == b.len(),
                k == kk,
                0 < fuel,
                sig_rule(b, s0, (fuel - 1) as nat) is Matched,
                sig_rule(b, s0, (fuel - 1) as nat)->next == s1,
                sig_rule(b, s0, (fuel - 1) as nat)->view == v0,
                sig_rule(b, s0, (fuel - 1) as nat)->start == start,
                0 <= i <= k,
                vs.len() == i,
                sigs_agree(b, seq![v0] + vs, sigs@),
                !crate::lexer::tag_has_text(close),
            ensures
                sig_list(b, s1, (fuel - 1) as nat, kk) == SigList::Done(vs, self.state()),
            decreases k - i,
        {
            let ghost st = self.state();
            if i == k {
                proof {
                    assert(vs + Seq::<SigView>::empty() =~= vs);
                }
                break;
            }
            let before = self.get_state();
            if self.parse_tok(TokenKind::OpComma)?.is_none() {
                proof {
                    assert(vs + Seq::<SigView>::empty() =~= vs);
                }
                break;
            }
            let ghost s2 = self.state();
            match self.read_sig(fuel - 1)? {
                Some((t, _, _)) => {
                    proof {
                        let w = sig_rule(b, s2, (fuel - 1) as nat)->view;
                        let old_vs = vs;
                        let old_sigs = sigs@;
                        vs = vs.push(w);
                        match sig_list(b, self.state(), (fuel - 1) as nat, (kk - i - 1) as nat) {
                            SigList::Done(ws, x) => {
                                assert(old_vs + (seq![w] + ws) =~= vs + ws);
                            },
                            _ => {},
                        }
                    }
                    let ghost old_sigs = sigs@;
                    sigs.push(t);
                    proof {
                        assert forall|j: int| 0 <= j < (seq![v0] + vs).len() implies sig_agrees(b, (seq![v0] + vs)[j], #[trigger] sigs@[j]) by {
                            if j < old_sigs.len() {
                                assert(sigs@[j] == old_sigs[j]);
                                assert((seq![v0] + vs)[j] == (seq![v0] + vs.drop_last())[j]);
                            }
                        }
                    }
                    i = i + 1;
                },
                None => {
                    self.set_state(before);
                    proof {
                        assert(vs + Seq::<SigView>::empty() =~= vs);
                    }
                    break;
                },
            }
        }
        let ghost s3 = self.state();
        let _comma = self.parse_tok(TokenKind::OpComma)?;
        let close_kind = TokenKind::from_parts(close, "", crate::lexer::RegexFlags::empty());
        match self.parse_tok(close_kind)? {
            Some(c) => {
                proof {
                    assert(seq![v0] + vs == (seq![v0] + vs));
                }
                Ok(Some((sigs, start, c.span.end)))
            },
            None => {
                self.set_state(saved);
                Ok(None)
            },
        }
    }

    /// Reads `[ sig integer_lit ] ?*`.
    fn read_sig_alt_a(&mut self, fuel: usize) -> (r: ParserResult<Option<(TypeSig<'a>, usize, usize)>>)
        requires
            old(self).wf(),
        ensures
            final(self).wf(),
            final(self).lexer.string == old(self).lexer.string,
            sig_result(old(self).bytes(), r, old(self).state(), final(self).state(), sig_alt_a(old(self).bytes(), old(self).state(), fuel as nat)),
        decreases fuel, 1nat,
    {
        if fuel == 0 {
            return Ok(None);
        }
        let ghost b = self.bytes();
        let saved = self.get_state();
        let open = match self.parse_tok(TokenKind::OpOpenSquareBracket)? {
            Some(t) => t,
            None => return Ok(None),
        };
        let ghost s1 = self.state();
        let (inner, _, _) = match self.read_sig(fuel - 1)? {
            Some(x) => x,
            None => {
                self.set_state(saved);
                return Ok(None);
            },
        };
        let ghost s2 = self.state();
        let len = match self.read_integer_lit()? {
            Some(l) => l,
            None => {
                self.set_state(saved);
                return Ok(None);
            },
        };
        let close = match self.parse_tok(TokenKind::OpCloseSquareBracket)? {
            Some(c) => c,
            None => {
                self.set_state(saved);
                return Ok(None);
            },
        };
        let ghost view = SigView::Array(Box::new(sig_rule(b, s1, (fuel - 1) as nat)->view), s2);
        let sig = TypeSig::Array { type_sig: Box::new(inner), length: Box::new(len) };
        let (sig, end) = self.read_opts(sig, close.span.end, Ghost(view))?;
        Ok(Some((sig, open.span.start, end)))
    }

    /// Reads `[ sig ] ?*`.
    fn read_sig_alt_b(&mut self, fuel: usize) -> (r: ParserResult<Option<(TypeSig<'a>, usize, usize)>>)
        requires
            old(self).wf(),
        ensures
            final(self).wf(),
            final(self).lexer.string == old(self).lexer.string,
            sig_result(old(self).bytes(), r, old(self).state(), final(self).state(), sig_alt_b(old(self).bytes(), old(self).state(), fuel as nat)),
        decreases fuel, 1nat,
    {
        if fuel == 0 {
            return Ok(None);
        }
        let ghost b = self.bytes();
        let saved = self.get_state();
        let open = match self.parse_tok(TokenKind::OpOpenSquareBracket)? {
            Some(t) => t,
            None => return Ok(None),
        };
        let ghost s1 = self.state();
        let (inner, _, _) = match self.read_sig(fuel - 1)? {
            Some(x) => x,
            None => {
                self.set_state(saved);
                return Ok(None);
            },
        };
        let close = match self.parse_tok(TokenKind::OpCloseSquareBracket)? {
            Some(c) => c,
            None => {
                self.set_state(saved);
                return Ok(None);
            },
        };
        let ghost view = SigView::List(Box::new(sig_rule(b, s1, (fuel - 1) as nat)->view));
        let sig = TypeSig::List(Box::new(inner));
        let (sig, end) = self.read_opts(sig, close.span.end, Ghost(view))?;
        Ok(Some((sig, open.span.start, end)))
    }

    /// Reads `( sig (, sig)* ,? ) ?*`.
    fn read_sig_alt_c(&mut self, fuel: usize) -> (r: ParserResult<Option<(TypeSig<'a>, usize, usize)>>)
        requires
            old(self).wf(),
        ensures
            final(self).wf(),
            final(self).lexer.string == old(self).lexer.string,
            sig_result(old(self).bytes(), r, old(self).state(), final(self).state(), sig_alt_c(old(self).bytes(), old(self).state(), fuel as nat)),
        decreases fuel, 2nat,
    {
        let ghost b = self.bytes();
        let saved = self.get_state();
        let open = match self.parse_tok(TokenKind::OpOpenParen)? {
            Some(t) => t,
            None => return Ok(None),
        };
        let ghost s1 = self.state();
        match self.read_sig_seq(fuel, TokenTag::OpCloseParen)? {
            Some((sigs, _, end)) => {
                let ghost view = sig_seq(b, s1, fuel as nat, TokenTag::OpCloseParen)->view;
                let (sig, end2) = self.read_opts(TypeSig::Tuple(sigs), end, Ghost(view))?;
                Ok(Some((sig, open.span.start, end2)))
            },
            None => {
                self.set_state(saved);
                Ok(None)
            },
        }
    }

    /// Reads `name [ sig (, sig)* ,? ] ?*`.
    fn read_sig_alt_d(&mut self, fuel: usize) -> (r: ParserResult<Option<(TypeSig<'a>, usize, usize)>>)
        requires
            old(self).wf(),
        ensures
            final(self).wf(),
            final(self).lexer.string == old(self).lexer.string,
            sig_result(old(self).bytes(), r, old(self).state(), final(self).state(), sig_alt_d(old(self).bytes(), old(self).state(), fuel as nat)),
        decreases fuel, 2nat,
    {
        let ghost b = self.bytes();
        let ghost st0 = self.state();
        let saved = self.get_state();
        let name = match self.parse_identifier_scope_op()? {
            Some(n) => n,
            None => return Ok(None),
        };
        if self.parse_tok(TokenKind::OpOpenSquareBracket)?.is_none() {
            self.set_state(saved);
            return Ok(None);
        }
        let ghost s2 = self.state();
        match self.read_sig_seq(fuel, TokenTag::OpCloseSquareBracket)? {
            Some((sigs, _, end)) => {
                let ghost vs = sig_seq(b, s2, fuel as nat, TokenTag::OpCloseSquareBracket)->view->Tuple_0;
                let ghost view = SigView::Generic(st0, vs);
                let start = name.span.start;
                let sig = TypeSig::Generic { name: Box::new(name), parameters: sigs };
                let (sig, end2) = self.read_opts(sig, end, Ghost(view))?;
                Ok(Some((sig, start, end2)))
            },
            None => {
                self.set_state(saved);
                Ok(None)
            },
        }
    }

    /// Reads `name ?*`.
    fn read_sig_alt_e(&mut self) -> (r: ParserResult<Option<(TypeSig<'a>, usize, usize)>>)
        requires
            old(self).wf(),
        ensures
            final(self).wf(),
            final(self).lexer.string == old(self).lexer.string,
            sig_result(old(self).bytes(), r, old(self).state(), final(self).state(), sig_alt_e(old(self).bytes(), old(self).state())),
    {
        let ghost st0 = self.state();
        let name = match self.parse_identifier_scope_op()? {
            Some(n) => n,
            None => return Ok(None),
        };
        let start = name.span.start;
        let end = name.span.end;
        let (sig, end2) = self.read_opts(TypeSig::Basic(Box::new(name)), end, Ghost(SigView::Basic(st0)))?;
        Ok(Some((sig, start, end2)))
    }

    /// Reads a type signature nested at most `fuel` deep: the signature, its start and its end.
    fn read_sig(&mut self, fuel: usize) -> (r: ParserResult<Option<(TypeSig<'a>, usize, usize)>>)
        requires
            old(self).wf(),
        ensures
            final(self).wf(),
            final(self).lexer.string == old(self).lexer.string,
            sig_result(old(self).bytes(), r, old(self).state(), final(self).state(), sig_rule(old(self).bytes(), old(self).state(), fuel as nat)),
        decreases fuel, 3nat,
    {
        let r = self.read_sig_alt_a(fuel);
        if !(r matches Ok(None)) {
            return r;
        }
        let r = self.read_sig_alt_b(fuel);
        if !(r matches Ok(None)) {
            return r;
        }
        let r = self.read_sig_alt_c(fuel);
        if !(r matches Ok(None)) {
            return r;
        }
        let r = self.read_sig_alt_d(fuel);
        if !(r matches Ok(None)) {
            return r;
        }
        self.read_sig_alt_e()
    }
    /// Reads a field of a type: its name and its signature, with the span from the name to the
    /// end of the signature.
    fn read_type_field(&mut self) -> (r: ParserResult<Option<((Ast<'a>, TypeSig<'a>), usize, usize)>>)
        requires
            old(self).wf(),
        ensures
            final(self).wf(),
            final(self).lexer.string == old(self).lexer.string,
            match type_field_rule(old(self).bytes(), old(self).state()) {
                SigOutcome::Matched { start, end, view, next } => match r {
                    Ok(Some((f, a, e))) => a == start && e == end && final(self).state() == next
                        && ident_at(old(self).bytes(), old(self).state(), f.0) && sig_agrees(old(self).bytes(), view, f.1),
                    _ => false,
                },
                SigOutcome::NoMatch => r matches Ok(None) && final(self).state() == old(self).state(),
                SigOutcome::Failed(x) => r matches Err(y) && y == x,
                SigOutcome::FailedInt(t) => match r {
                    Err(ParserError::InvalidIntegerLiteral(_, c)) => c@ == t,
                    _ => false,
                },
            },
    {
        let saved = self.get_state();
        let name = match self.parse_identifier()? {
            Some(n) => n,
            None => return Ok(None),
        };
        if self.parse_kw_type()?.is_none() {
            self.set_state(saved);
            return Ok(None);
        }
        let fuel = self.lexer.string.as_bytes().len();
        match self.read_sig(fuel)? {
            Some((sig, _, end)) => {
                let start = name.span.start;
                Ok(Some(((name, sig), start, end)))
            },
            None => {
                self.set_state(saved);
                Ok(None)
            },
        }
    }

    /// Reads `FIELDS` and fields separated by commas: the fields, the start and the end.
    pub(crate) fn read_type_fields(&mut self) -> (r: ParserResult<Option<(Vec<(Ast<'a>, TypeSig<'a>)>, usize, usize)>>)
        requires
            old(self).wf(),
        ensures
            final(self).wf(),
            final(self).lexer.string == old(self).lexer.string,
            match type_fields_rule(old(self).bytes(), old(self).state()) {
                RuleOutcome::Matched { start, end, next } => match r {
                    Ok(Some((fs, a, e))) => a == start && e == end && final(self).state() == next
                        && fields_agree(old(self).bytes(), type_fields_from(old(self).bytes(), old(self).state()), fs@),
                    _ => false,
                },
                RuleOutcome::NoMatch => r matches Ok(None) && final(self).state() == old(self).state(),
                RuleOutcome::Failed(x) => r matches Err(y) && y == x,
                RuleOutcome::FailedInt(t) => match r {
                    Err(ParserError::InvalidIntegerLiteral(_, c)) => c@ == t,
                    _ => false,
                },
            },
    {
        let ghost b = self.bytes();
        let ghost s0 = self.state();
        let saved = self.get_state();
        let kw = match self.parse_kw_fields()? {
            Some(k) => k,
            None => return Ok(None),
        };
        let ghost s1 = self.state();
        let (first, _, first_end) = match self.read_type_field()? {
            Some(x) => x,
            None => {
                self.set_state(saved);
                return Ok(None);
            },
        };
        let ghost s2 = self.state();
        let k = self.lexer.string.as_bytes().len();
        let ghost kk: nat = k as nat;
        let mut fields: Vec<(Ast<'a>, TypeSig<'a>)> = Vec::new();
        fields.push(first);
        let mut end = first_end;
        let ghost mut froms: Seq<LexView> = Seq::empty();
        let ghost mut vs: Seq<SigView> = Seq::empty();
        let mut i: usize = 0;
        proof {
            match field_list(b, s2, kk) {
                FieldList::Done(fs, ws, st) => {
                    assert(froms + fs =~= fs);
                    assert(vs + ws =~= ws);
                },
                _ => {},
            }
        }
        loop
            invariant_except_break
                field_list(b, s2, kk) == fields_after(froms, vs, field_list(b, self.state(), (kk - i) as nat)),
            invariant
                self.wf(),
                self.lexer.string == old(self).lexer.string,
                self.bytes() == b,
                b == old(self).bytes(),
                s0 == old(self).state(),
                kk == b.len(),
                k == kk,
                keyword_rule(b, s0, "fields"@) is Matched,
                keyword_rule(b, s0, "fields"@)->next == s1,
                keyword_rule(b, s0, "fields"@)->start == kw.span.start,
                type_field_rule(b, s1) is Matched,
                type_field_rule(b, s1)->next == s2,
                type_field_rule(b, s1)->end == first_end,
                0 <= i <= k,
                froms.len() == i,
                vs.len() == i,
                fields_agree(b, seq![s1] + froms, fields@),
                i == 0 ==> end == first_end,
                i > 0 ==> end == type_field_rule(b, froms.last())->end,
            ensures
                field_list(b, s2, kk) == FieldList::Done(froms, vs, self.state()),
            decreases k - i,
        {
            if i == k {
                proof {
                    assert(froms + Seq::<LexView>::empty() =~= froms);
                    assert(vs + Seq::<SigView>::empty() =~= vs);
                }
                break;
            }
            let before = self.get_state();
            let ghost st = self.state();
            if self.parse_tok(TokenKind::OpComma)?.is_none() {
                proof {
                    assert(froms + Seq::<LexView>::empty() =~= froms);
                    assert(vs + Seq::<SigView>::empty() =~= vs);
                }
                break;
            }
            let ghost s3 = self.state();
            match self.read_type_field()? {
                Some((f, _, e)) => {
                    proof {
                        let w = type_field_rule(b, s3)->view;
                        let old_froms = froms;
                        let old_vs = vs;
                        froms = froms.push(s3);
                        vs = vs.push(w);
                        match field_list(b, self.state(), (kk - i - 1) as nat) {
                            FieldList::Done(fs, ws, x) => {
                                assert(old_froms + (seq![s3] + fs) =~= froms + fs);
                                assert(old_vs + (seq![w] + ws) =~= vs + ws);
                            },
                            _ => {},
                        }
                    }
                    let ghost old_fields = fields@;
                    fields.push(f);
                    end = e;
                    proof {
                        assert forall|j: int| 0 <= j < (seq![s1] + froms).len() implies ident_at(b, (seq![s1] + froms)[j], (#[trigger] fields@[j]).0) && sig_agrees(
                            b,
                            type_field_rule(b, (seq![s1] + froms)[j])->view,
                            fields@[j].1,
                        ) by {
                            if j < old_fields.len() {
                                assert(fields@[j] == old_fields[j]);
                                assert((seq![s1] + froms)[j] == (seq![s1] + froms.drop_last())[j]);
                            }
                        }
                    }
                    i = i + 1;
                },
                None => {
                    self.set_state(before);
                    proof {
                        assert(froms + Seq::<LexView>::empty() =~= froms);
                        assert(vs + Seq::<SigView>::empty() =~= vs);
                    }
                    break;
                },
            }
        }
        Ok(Some((fields, kw.span.start, end)))
    }

    /// Parses partial `type_sig` syntax.
    ///
    /// ```txt
    /// partial_type_sig =
    ///     | "[" partial_type_sig integer_lit "]" "?"*
    ///     | "[" partial_type_sig "]" "?"*
    ///     | "(" partial_type_sig ("," partial_type_sig)* ","? ")" "?"*
    ///     | identifier_scope_op "[" partial_type_sig ("," partial_type_sig)* ","? "]" "?"*
    ///     | identifier_scope_op "?"*
    /// ```
    pub fn parse_partial_type_sig(&mut self) -> (r: ParserResult<Option<Ast<'a>>>)
        requires
            old(self).wf(),
        ensures
            rule_step(*old(self), *final(self), r, sig_as_rule(type_sig_rule(old(self).bytes(), old(self).state()))),
            r matches Ok(Some(a)) ==> a.kind == AstKind::Temp(None),
    {
        let fuel = self.lexer.string.as_bytes().len();
        match self.read_sig(fuel)? {
            Some((_, start, end)) => Ok(Some(Ast { span: start..end, kind: AstKind::Temp(None) })),
            None => Ok(None),
        }
    }

    /// Parses a type signature: the signature, its start and its end.
    pub fn parse_type_sig(&mut self) -> (r: ParserResult<Option<(TypeSig<'a>, usize, usize)>>)
        requires
            old(self).wf(),
        ensures
            final(self).wf(),
            final(self).lexer.string == old(self).lexer.string,
            sig_result(old(self).bytes(), r, old(self).state(), final(self).state(), type_sig_rule(old(self).bytes(), old(self).state())),
    {
        let fuel = self.lexer.string.as_bytes().len();
        self.read_sig(fuel)
    }

    /// Parses a partial `type_fields` syntax.
    ///
    /// ```txt
    /// partial_type_fields =
    ///     | kw_fields partial_type_field ("," partial_type_field)*
    /// ```
    pub fn parse_partial_type_fields(&mut self) -> (r: ParserResult<Option<Ast<'a>>>)
        requires
            old(self).wf(),
        ensures
            rule_step(*old(self), *final(self), r, type_fields_rule(old(self).bytes(), old(self).state())),
            r matches Ok(Some(a)) ==> a.kind == AstKind::Temp(None),
    {
        match self.read_type_fields()? {
            Some((_, start, end)) => Ok(Some(Ast { span: start..end, kind: AstKind::Temp(None) })),
            None => Ok(None),
        }
    }
    /// Parses a partial `field_type` syntax.
    ///
    /// ```txt
    /// partial_field_type =
    ///     | kw_type partial_type_sig
    /// ```
    pub fn parse_partial_field_type(&mut self) -> (r: ParserResult<Option<Ast<'a>>>)
        requires
            old(self).wf(),
        ensures
            rule_step(*old(self), *final(self), r, field_type_rule(old(self).bytes(), old(self).state())),
            r matches Ok(Some(a)) ==> a.kind == AstKind::Temp(None),
    {
        let saved = self.get_state();
        let kw = match self.parse_kw_type()? {
            Some(k) => k,
            None => return Ok(None),
        };
        let fuel = self.lexer.string.as_bytes().len();
        match self.read_sig(fuel)? {
            Some((_, _, end)) => Ok(Some(Ast { span: kw.span.start..end, kind: AstKind::Temp(None) })),
            None => {
                self.set_state(saved);
                Ok(None)
            },
        }
    }

    /// Parses a partial `type_field` syntax.
    ///
    /// ```txt
    /// partial_type_field =
    ///     | identifier partial_field_type
    /// ```
    pub fn parse_partial_type_field(&mut self) -> (r: ParserResult<Option<Ast<'a>>>)
        requires
            old(self).wf(),
        ensures
            rule_step(*old(self), *final(self), r, sig_as_rule(type_field_rule(old(self).bytes(), old(self).state()))),
            r matches Ok(Some(a)) ==> a.kind == AstKind::Temp(None),
    {
        match self.read_type_field()? {
            Some((_, start, end)) => Ok(Some(Ast { span: start..end, kind: AstKind::Temp(None) })),
            None => Ok(None),
        }
    }

    /// Parses a partial `index_fields` syntax.
    ///
    /// ```txt
    /// partial_index_fields =
    ///     | kw_fields identifier ("," identifier)*
    /// ```
    pub fn parse_partial_index_fields(&mut self) -> (r: ParserResult<Option<Ast<'a>>>)
        requires
            old(self).wf(),
        ensures
            rule_step(*old(self), *final(self), r, index_fields_rule(old(self).bytes(), old(self).state())),
            r matches Ok(Some(a)) ==> a.kind == AstKind::Temp(None),
    {
        let saved = self.get_state();
        let kw = match self.parse_kw_fields()? {
            Some(k) => k,
            None => return Ok(None),
        };
        let first = match self.parse_identifier()? {
            Some(i) => i,
            None => {
                self.set_state(saved);
                return Ok(None);
            },
        };
        let rest = self.read_sep_idents(TokenTag::OpComma)?;
        let end = if rest.len() == 0 {
            first.span.end
        } else {
            rest[rest.len() - 1].span.end
        };
        Ok(Some(Ast { span: kw.span.start..end, kind: AstKind::Temp(None) }))
    }
}

} // verus!

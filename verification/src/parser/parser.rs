//! The parser of the zeroql language: a recursive descent parser over the tokens of the lexer,
//! with state backtracking.

use vstd::prelude::*;
use vstd::string::*;
use vstd::utf8::encode_utf8;

use crate::ast::{Ast, AstKind};
use crate::lexer::{
    lemma_step_progress, state_fits, lex_step, lexed_agrees, tag_has_text, Lexed, LexView, Lexer, LexerState, Token, TokenKind,
    TokenTag,
};

use super::{ParserError, ParserResult, StateCapture};

verus! {

/// A recursive descent parser for the `zeroql` language.
///
/// Each rule of the grammar is a method that either gives a syntax tree and leaves the parser
/// after what it read, gives `None` and leaves the parser where it was (state backtracking), or
/// fails with an error.
pub struct Parser<'a> {
    /// The lexer that produces tokens from the input stream.
    pub lexer: Lexer<'a>,
}

/// What a rule of the grammar gives from a state of the lexer.
pub enum RuleOutcome {
    /// A syntax tree spanning `start..end`, and the state after it.
    Matched { start: int, end: int, next: LexView },
    /// No match: the state stays as it was.
    NoMatch,
    /// An error.
    Failed(ParserError),
    /// The error of an integer literal that is not a number in its base, with the literal's
    /// text without underscores.
    FailedInt(Seq<char>),
}

/// The result of a rule, and the state before and after it, agree with an outcome.
pub open spec fn outcome_agrees<'a>(
    r: ParserResult<Option<Ast<'a>>>,
    before: LexView,
    after: LexView,
    o: RuleOutcome,
) -> bool {
    match o {
        RuleOutcome::Matched { start, end, next } => r matches Ok(Some(a)) && a.span.start
            == start && a.span.end == end && after == next,
        RuleOutcome::NoMatch => r matches Ok(None) && after == before,
        RuleOutcome::Failed(e) => r matches Err(x) && x == e,
        RuleOutcome::FailedInt(text) => r matches Err(ParserError::InvalidIntegerLiteral(_, t))
            && t@ == text,
    }
}

/// A predicate on a token: its rule, its text and its regular expression flags.
pub type TokenTest = spec_fn(TokenTag, Seq<u8>, u8) -> bool;

/// One step of the lexer on the input `b` from the state `st`: the state after it and what it
/// gives. The rules of the grammar read the input through it.
#[verifier::opaque]
pub open spec fn next_token_of(b: Seq<u8>, st: LexView) -> (LexView, Lexed) {
    lex_step(b, st)
}

/// The rule that reads one token and matches where `accepts` holds of it.
pub open spec fn token_rule(b: Seq<u8>, st: LexView, accepts: TokenTest) -> RuleOutcome {
    let (next, l) = next_token_of(b, st);
    match l {
        Lexed::Failed(e) => RuleOutcome::Failed(ParserError::LexerError(e)),
        Lexed::Token { start, end, tag, text, flags } => if accepts(tag, text, flags) {
            RuleOutcome::Matched { start, end, next }
        } else {
            RuleOutcome::NoMatch
        },
        Lexed::End => RuleOutcome::NoMatch,
    }
}

/// Tokens of the rule `k`, with the text `text` where the rule carries text, and with the
/// regular expression flags `flags`.
pub open spec fn token_is(k: TokenTag, text: Seq<u8>, flags: u8) -> TokenTest {
    |t: TokenTag, x: Seq<u8>, f: u8| t == k && (tag_has_text(k) ==> x == text) && f == flags
}

/// Tokens of the rule `k1` or of the rule `k2`, whatever their text.
pub open spec fn token_either(k1: TokenTag, k2: TokenTag) -> TokenTest {
    |t: TokenTag, x: Seq<u8>, f: u8| t == k1 || t == k2
}

/// The result of eating a token agrees with what the lexer's step gives.
pub open spec fn eaten_agrees<'a>(r: ParserResult<Option<Token<'a>>>, l: Lexed) -> bool {
    match r {
        Ok(t) => lexed_agrees(Ok(t), l),
        Err(ParserError::LexerError(e)) => lexed_agrees(Err(e), l),
        Err(_) => false,
    }
}

/// The first outcome, or the second where the first is no match: an ordered choice between two
/// rules read from the same state.
pub open spec fn alt_rule(o1: RuleOutcome, o2: RuleOutcome) -> RuleOutcome {
    if o1 is NoMatch {
        o2
    } else {
        o1
    }
}

/// A rule followed by another, read from where the first ended: a tree spanning both where
/// both match.
pub open spec fn then_rule(o1: RuleOutcome, second: spec_fn(LexView) -> RuleOutcome) -> RuleOutcome {
    match o1 {
        RuleOutcome::Matched { start, next, .. } => match second(next) {
            RuleOutcome::Matched { end, next, .. } => RuleOutcome::Matched { start, end, next },
            o2 => o2,
        },
        o1 => o1,
    }
}

/// The parser went from `before` to `after` on the same input, giving `r`, as the outcome `o`
/// says.
pub open spec fn rule_step<'a>(
    before: Parser<'a>,
    after: Parser<'a>,
    r: ParserResult<Option<Ast<'a>>>,
    o: RuleOutcome,
) -> bool {
    &&& after.wf()
    &&& after.lexer.string == before.lexer.string
    &&& outcome_agrees(r, before.state(), after.state(), o)
}

/// A match from `st` reads forward: its tree starts at or after the cursor and is not empty,
/// and the state after it is at or after the tree's end and fits the input.
pub open spec fn reads_forward(b: Seq<u8>, st: LexView, o: RuleOutcome) -> bool {
    o matches RuleOutcome::Matched { start, end, next } ==> {
        &&& st.cursor <= start < end <= next.cursor
        &&& state_fits(b, next)
    }
}

/// A rule that reads one token reads forward, and where it matches, the parser stops at the
/// token's end.
pub proof fn lemma_token_rule_forward(b: Seq<u8>, chars: Seq<char>, st: LexView, accepts: TokenTest)
    requires
        b == encode_utf8(chars),
        state_fits(b, st),
    ensures
        reads_forward(b, st, token_rule(b, st, accepts)),
        token_rule(b, st, accepts) matches RuleOutcome::Matched { end, next, .. } ==> next.cursor == end,
{
    reveal(next_token_of);
    lemma_step_progress(b, chars, st);
}

/// An ordered choice between two rules that read forward reads forward.
pub proof fn lemma_alt_rule_forward(b: Seq<u8>, st: LexView, o1: RuleOutcome, o2: RuleOutcome)
    requires
        reads_forward(b, st, o1),
        reads_forward(b, st, o2),
    ensures
        reads_forward(b, st, alt_rule(o1, o2)),
{
}

/// A rule followed by another reads forward where the first does and the second does from
/// every state that fits the input.
pub proof fn lemma_then_rule_forward(
    b: Seq<u8>,
    st: LexView,
    o1: RuleOutcome,
    second: spec_fn(LexView) -> RuleOutcome,
)
    requires
        reads_forward(b, st, o1),
        forall|s: LexView| state_fits(b, s) ==> reads_forward(b, s, #[trigger] second(s)),
    ensures
        reads_forward(b, st, then_rule(o1, second)),
{
    if let RuleOutcome::Matched { next, .. } = o1 {
        assert(reads_forward(b, next, second(next)));
    }
}

/// Byte sequences are equal.
pub fn bytes_eq(a: &[u8], b: &[u8]) -> (r: bool)
    ensures
        r == (a@ == b@),
{
    if a.len() != b.len() {
        return false;
    }
    let mut i: usize = 0;
    while i < a.len()
        invariant
            a@.len() == b@.len(),
            0 <= i <= a@.len(),
            forall|k: int| 0 <= k < i ==> a@[k] == b@[k],
        decreases a@.len() - i,
    {
        if a[i] != b[i] {
            return false;
        }
        i = i + 1;
    }
    assert(a@ =~= b@);
    true
}

impl<'a> Parser<'a> {
    /// The bytes of the input.
    pub open spec fn bytes(&self) -> Seq<u8> {
        self.lexer.bytes()
    }

    /// The state of the lexer, as mathematical values.
    pub open spec fn state(&self) -> LexView {
        self.lexer.state@
    }

    /// The lexer's cursor is within its input, at a character boundary, and its progress towards
    /// a module block is at most complete, as it is in every state that the lexer reaches from
    /// the start.
    pub open spec fn wf(&self) -> bool {
        &&& self.lexer.wf()
        &&& self.lexer.state.cursor <= self.lexer.bytes().len()
        &&& self.lexer.state.module_block_precedent <= 4
    }

    /// Creates a new parser for the given input.
    pub fn new(input: &'a str) -> (p: Self)
        ensures
            p.lexer.string == input,
            p.lexer.state@ == (LexView { cursor: 0, stack: Seq::empty(), cont: false, prec: 0 }),
            p.wf(),
    {
        let lexer = Lexer::from(input);
        Parser { lexer }
    }

    /// Eats a token from the lexer.
    pub fn eat_token(&mut self) -> (r: ParserResult<Option<Token<'a>>>)
        requires
            old(self).wf(),
        ensures
            final(self).wf(),
            final(self).lexer.string == old(self).lexer.string,
            final(self).state() == lex_step(old(self).bytes(), old(self).state()).0,
            eaten_agrees(r, lex_step(old(self).bytes(), old(self).state()).1),
    {
        proof {
            lemma_step_progress(self.bytes(), self.lexer.string@, self.state());
        }
        match self.lexer.next_token() {
            Ok(t) => Ok(t),
            Err(e) => Err(ParserError::LexerError(e)),
        }
    }

    /// Reads a token and gives a syntax tree over its span where the token is of the rule `k`,
    /// with the text `text` where the rule carries text and with the regular expression flags
    /// `flags`; else puts the parser back where it was.
    pub(crate) fn parse_token_where(&mut self, k: TokenTag, text: Option<&str>, flags: u8) -> (r: ParserResult<
        Option<Ast<'a>>,
    >)
        requires
            old(self).wf(),
            tag_has_text(k) ==> text is Some,
        ensures
            final(self).wf(),
            final(self).lexer.string == old(self).lexer.string,
            outcome_agrees(
                r,
                old(self).state(),
                final(self).state(),
                token_rule(old(self).bytes(), old(self).state(), token_is(k, text.unwrap().spec_bytes(), flags)),
            ),
            r matches Ok(Some(a)) ==> a.kind == AstKind::Temp(None),
    {
        proof {
            reveal(next_token_of);
        }
        let saved = self.get_state();
        let token = self.eat_token()?;
        if let Some(t) = token {
            if t.kind.tag_of() == k {
                let matched = match (text, t.kind.text_of()) {
                    (Some(x), Some(y)) => bytes_eq(x.as_bytes(), y.as_bytes()),
                    _ => true,
                };
                if matched && t.kind.flag_bits_of() == flags {
                    return Ok(Some(Ast { span: t.span, kind: AstKind::Temp(None) }));
                }
            }
        }
        self.set_state(saved);
        Ok(None)
    }
}

impl<'a> StateCapture for Parser<'a> {
    type State = LexerState;

    /// A copy of the state of the lexer.
    fn get_state(&self) -> (r: LexerState)
        ensures
            r@ == self.lexer.state@,
    {
        self.lexer.get_state()
    }

    /// Puts the lexer in the given state.
    fn set_state(&mut self, state: LexerState)
        ensures
            final(self).lexer.string == old(self).lexer.string,
            final(self).lexer.state == state,
    {
        self.lexer.set_state(state);
    }
}

} // verus!

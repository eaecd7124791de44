//! The keywords of the grammar.

use vstd::prelude::*;
use vstd::string::*;
use vstd::utf8::{encode_utf8, is_ascii_chars};

use crate::ast::{Ast, AstKind};
use crate::lexer::{LexView, Lexed, TokenTag};

use super::parser::{bytes_eq, next_token_of, rule_step, then_rule, token_rule, Parser, RuleOutcome, TokenTest};
use super::{ParserResult, StateCapture};

verus! {

/// What `str::to_uppercase` gives for a string of the characters `s`.
pub uninterp spec fn upper_case(s: Seq<char>) -> Seq<char>;

/// What `str::to_lowercase` gives for a string of the characters `s`.
pub uninterp spec fn lower_case(s: Seq<char>) -> Seq<char>;

/// The ASCII letters of `s` changed to case `upper`, other characters unchanged: `t` is `s`
/// with each letter `a`..`z` (for upper) or `A`..`Z` (for lower) moved by 32 code points.
pub open spec fn ascii_case_of(s: Seq<char>, t: Seq<char>, upper: bool) -> bool {
    &&& t.len() == s.len()
    &&& forall|i: int|
        0 <= i < s.len() ==> (#[trigger] t[i]) as int == if upper && 'a' <= s[i] <= 'z' {
            s[i] as int - 32
        } else if !upper && 'A' <= s[i] <= 'Z' {
            s[i] as int + 32
        } else {
            s[i] as int
        }
}

/// Calls `str::to_uppercase`; the result is named, as a function of the characters alone. On
/// ASCII text, the Unicode upper case of each character is its ASCII upper case.
#[verifier::external_body]
fn str_to_uppercase(s: &str) -> (r: String)
    ensures
        r@ == upper_case(s@),
        is_ascii_chars(s@) ==> ascii_case_of(s@, r@, true),
{
    s.to_uppercase()
}

/// Calls `str::to_lowercase`; the result is named, as a function of the characters alone. On
/// ASCII text, the Unicode lower case of each character is its ASCII lower case.
#[verifier::external_body]
fn str_to_lowercase(s: &str) -> (r: String)
    ensures
        r@ == lower_case(s@),
        is_ascii_chars(s@) ==> ascii_case_of(s@, r@, false),
{
    s.to_lowercase()
}

/// A plain identifier that is the word `w` in upper case or in lower case.
pub open spec fn keyword_test(w: Seq<char>) -> TokenTest {
    |t: TokenTag, x: Seq<u8>, f: u8| t == TokenTag::PlainIdentifier && (x == encode_utf8(upper_case(w))
        || x == encode_utf8(lower_case(w)))
}

/// A plain identifier that is the ASCII word `w` in ASCII upper case or in ASCII lower case.
pub open spec fn ascii_keyword_test(w: Seq<char>) -> TokenTest {
    |t: TokenTag, x: Seq<u8>, f: u8| t == TokenTag::PlainIdentifier && exists|u: Seq<char>|
        (ascii_case_of(w, u, true) || ascii_case_of(w, u, false)) && x == #[trigger] encode_utf8(u)
}

/// A word has one ASCII upper case and one ASCII lower case.
pub proof fn lemma_ascii_case_unique(w: Seq<char>, u: Seq<char>, v: Seq<char>, upper: bool)
    requires
        ascii_case_of(w, u, upper),
        ascii_case_of(w, v, upper),
    ensures
        u == v,
{
    assert forall|i: int| 0 <= i < u.len() implies u[i] == v[i] by {
        assert(u[i] as int == v[i] as int);
    }
    assert(u =~= v);
}

/// The keyword `w`, read from the state `st` of the input `b`.
pub open spec fn keyword_rule(b: Seq<u8>, st: LexView, w: Seq<char>) -> RuleOutcome {
    token_rule(b, st, keyword_test(w))
}

/// The keyword `w1` followed by the keyword `w2`.
pub open spec fn keywords2_rule(b: Seq<u8>, st: LexView, w1: Seq<char>, w2: Seq<char>) -> RuleOutcome {
    then_rule(keyword_rule(b, st, w1), |s: LexView| keyword_rule(b, s, w2))
}

impl<'a> Parser<'a> {
    /// Parses a keyword: a plain identifier that is `string` in upper case or in lower case.
    pub fn parse_kw(&mut self, string: &'a str) -> (r: ParserResult<Option<Ast<'a>>>)
        requires
            old(self).wf(),
        ensures
            rule_step(*old(self), *final(self), r, keyword_rule(old(self).bytes(), old(self).state(), string@)),
            r matches Ok(Some(a)) ==> a.kind == AstKind::Temp(None),
            is_ascii_chars(string@) ==> keyword_rule(old(self).bytes(), old(self).state(), string@)
                == token_rule(old(self).bytes(), old(self).state(), ascii_keyword_test(string@)),
    {
        let upper = str_to_uppercase(string);
        let lower = str_to_lowercase(string);
        proof {
            let w = string@;
            let b = self.bytes();
            let st = self.state();
            if is_ascii_chars(w) {
                let (next, l) = next_token_of(b, st);
                if let Lexed::Token { tag, text, flags, .. } = l {
                    if keyword_test(w)(tag, text, flags) {
                        if text == encode_utf8(upper_case(w)) {
                            assert(ascii_case_of(w, upper@, true));
                        } else {
                            assert(ascii_case_of(w, lower@, false));
                        }
                        assert(ascii_keyword_test(w)(tag, text, flags));
                    }
                    if ascii_keyword_test(w)(tag, text, flags) {
                        let u = choose|u: Seq<char>|
                            (ascii_case_of(w, u, true) || ascii_case_of(w, u, false)) && text == #[trigger] encode_utf8(u);
                        if ascii_case_of(w, u, true) {
                            lemma_ascii_case_unique(w, u, upper@, true);
                        } else {
                            lemma_ascii_case_unique(w, u, lower@, false);
                        }
                        assert(keyword_test(w)(tag, text, flags));
                    }
                }
            }
        }
        proof {
            reveal(next_token_of);
        }
        let saved = self.get_state();
        let token = self.eat_token()?;
        if let Some(t) = token {
            if t.kind.tag_of() == TokenTag::PlainIdentifier {
                if let Some(ident) = t.kind.text_of() {
                    if bytes_eq(ident.as_bytes(), upper.as_str().as_bytes()) || bytes_eq(
                        ident.as_bytes(),
                        lower.as_str().as_bytes(),
                    ) {
                        return Ok(Some(Ast { span: t.span, kind: AstKind::Temp(None) }));
                    }
                }
            }
        }
        self.set_state(saved);
        Ok(None)
    }

    /// Parses two keywords in a row.
    pub fn parse_kw2(&mut self, string_a: &'a str, string_b: &'a str) -> (r: ParserResult<
        Option<Ast<'a>>,
    >)
        requires
            old(self).wf(),
        ensures
            rule_step(
                *old(self),
                *final(self),
                r,
                keywords2_rule(old(self).bytes(), old(self).state(), string_a@, string_b@),
            ),
            r matches Ok(Some(a)) ==> a.kind == AstKind::Temp(None),
    {
        let saved = self.get_state();
        if let Some(a) = self.parse_kw(string_a)? {
            if let Some(b) = self.parse_kw(string_b)? {
                return Ok(Some(Ast { span: a.span.start..b.span.end, kind: AstKind::Temp(None) }));
            }
        }
        self.set_state(saved);
        Ok(None)
    }

    /// Parses the `kw_create` rule.
    ///
    /// ```txt
    /// kw_create =
    ///     | plain_identifier["create"]
    ///     | plain_identifier["CREATE"]
    /// ```
    pub fn parse_kw_create(&mut self) -> (r: ParserResult<Option<Ast<'a>>>)
        requires
            old(self).wf(),
        ensures
            rule_step(*old(self), *final(self), r, keyword_rule(old(self).bytes(), old(self).state(), "create"@)),
            r matches Ok(Some(a)) ==> a.kind == AstKind::Temp(None),
            keyword_rule(old(self).bytes(), old(self).state(), "create"@) == token_rule(
                old(self).bytes(),
                old(self).state(),
                ascii_keyword_test("create"@),
            ),
    {
        proof {
            reveal_strlit("create");
        }
        self.parse_kw("create")
    }

    /// Parses the `kw_relate` rule.
    ///
    /// ```txt
    /// kw_relate =
    ///     | plain_identifier["relate"]
    ///     | plain_identifier["RELATE"]
    /// ```
    pub fn parse_kw_relate(&mut self) -> (r: ParserResult<Option<Ast<'a>>>)
        requires
            old(self).wf(),
        ensures
            rule_step(*old(self), *final(self), r, keyword_rule(old(self).bytes(), old(self).state(), "relate"@)),
            r matches Ok(Some(a)) ==> a.kind == AstKind::Temp(None),
            keyword_rule(old(self).bytes(), old(self).state(), "relate"@) == token_rule(
                old(self).bytes(),
                old(self).state(),
                ascii_keyword_test("relate"@),
            ),
    {
        proof {
            reveal_strlit("relate");
        }
        self.parse_kw("relate")
    }

    /// Parses the `kw_delete` rule.
    ///
    /// ```txt
    /// kw_delete =
    ///     | plain_identifier["delete"]
    ///     | plain_identifier["DELETE"]
    /// ```
    pub fn parse_kw_delete(&mut self) -> (r: ParserResult<Option<Ast<'a>>>)
        requires
            old(self).wf(),
        ensures
            rule_step(*old(self), *final(self), r, keyword_rule(old(self).bytes(), old(self).state(), "delete"@)),
            r matches Ok(Some(a)) ==> a.kind == AstKind::Temp(None),
            keyword_rule(old(self).bytes(), old(self).state(), "delete"@) == token_rule(
                old(self).bytes(),
                old(self).state(),
                ascii_keyword_test("delete"@),
            ),
    {
        proof {
            reveal_strlit("delete");
        }
        self.parse_kw("delete")
    }

    /// Parses the `kw_update` rule.
    ///
    /// ```txt
    /// kw_update =
    ///     | plain_identifier["update"]
    ///     | plain_identifier["UPDATE"]
    /// ```
    pub fn parse_kw_update(&mut self) -> (r: ParserResult<Option<Ast<'a>>>)
        requires
            old(self).wf(),
        ensures
            rule_step(*old(self), *final(self), r, keyword_rule(old(self).bytes(), old(self).state(), "update"@)),
            r matches Ok(Some(a)) ==> a.kind == AstKind::Temp(None),
            keyword_rule(old(self).bytes(), old(self).state(), "update"@) == token_rule(
                old(self).bytes(),
                old(self).state(),
                ascii_keyword_test("update"@),
            ),
    {
        proof {
            reveal_strlit("update");
        }
        self.parse_kw("update")
    }

    /// Parses the `kw_select` rule.
    ///
    /// ```txt
    /// kw_select =
    ///     | plain_identifier["select"]
    ///     | plain_identifier["SELECT"]
    /// ```
    pub fn parse_kw_select(&mut self) -> (r: ParserResult<Option<Ast<'a>>>)
        requires
            old(self).wf(),
        ensures
            rule_step(*old(self), *final(self), r, keyword_rule(old(self).bytes(), old(self).state(), "select"@)),
            r matches Ok(Some(a)) ==> a.kind == AstKind::Temp(None),
            keyword_rule(old(self).bytes(), old(self).state(), "select"@) == token_rule(
                old(self).bytes(),
                old(self).state(),
                ascii_keyword_test("select"@),
            ),
    {
        proof {
            reveal_strlit("select");
        }
        self.parse_kw("select")
    }

    /// Parses the `kw_fold` rule.
    ///
    /// ```txt
    /// kw_fold =
    ///     | plain_identifier["fold"]
    ///     | plain_identifier["FOLD"]
    /// ```
    pub fn parse_kw_fold(&mut self) -> (r: ParserResult<Option<Ast<'a>>>)
        requires
            old(self).wf(),
        ensures
            rule_step(*old(self), *final(self), r, keyword_rule(old(self).bytes(), old(self).state(), "fold"@)),
            r matches Ok(Some(a)) ==> a.kind == AstKind::Temp(None),
            keyword_rule(old(self).bytes(), old(self).state(), "fold"@) == token_rule(
                old(self).bytes(),
                old(self).state(),
                ascii_keyword_test("fold"@),
            ),
    {
        proof {
            reveal_strlit("fold");
        }
        self.parse_kw("fold")
    }

    /// Parses the `kw_omit` rule.
    ///
    /// ```txt
    /// kw_omit =
    ///     | plain_identifier["omit"]
    ///     | plain_identifier["OMIT"]
    /// ```
    pub fn parse_kw_omit(&mut self) -> (r: ParserResult<Option<Ast<'a>>>)
        requires
            old(self).wf(),
        ensures
            rule_step(*old(self), *final(self), r, keyword_rule(old(self).bytes(), old(self).state(), "omit"@)),
            r matches Ok(Some(a)) ==> a.kind == AstKind::Temp(None),
            keyword_rule(old(self).bytes(), old(self).state(), "omit"@) == token_rule(
                old(self).bytes(),
                old(self).state(),
                ascii_keyword_test("omit"@),
            ),
    {
        proof {
            reveal_strlit("omit");
        }
        self.parse_kw("omit")
    }

    /// Parses the `kw_break` rule.
    ///
    /// ```txt
    /// kw_break =
    ///     | plain_identifier["break"]
    ///     | plain_identifier["BREAK"]
    /// ```
    pub fn parse_kw_break(&mut self) -> (r: ParserResult<Option<Ast<'a>>>)
        requires
            old(self).wf(),
        ensures
            rule_step(*old(self), *final(self), r, keyword_rule(old(self).bytes(), old(self).state(), "break"@)),
            r matches Ok(Some(a)) ==> a.kind == AstKind::Temp(None),
            keyword_rule(old(self).bytes(), old(self).state(), "break"@) == token_rule(
                old(self).bytes(),
                old(self).state(),
                ascii_keyword_test("break"@),
            ),
    {
        proof {
            reveal_strlit("break");
        }
        self.parse_kw("break")
    }

    /// Parses the `kw_continue` rule.
    ///
    /// ```txt
    /// kw_continue =
    ///     | plain_identifier["continue"]
    ///     | plain_identifier["CONTINUE"]
    /// ```
    pub fn parse_kw_continue(&mut self) -> (r: ParserResult<Option<Ast<'a>>>)
        requires
            old(self).wf(),
        ensures
            rule_step(*old(self), *final(self), r, keyword_rule(old(self).bytes(), old(self).state(), "continue"@)),
            r matches Ok(Some(a)) ==> a.kind == AstKind::Temp(None),
            keyword_rule(old(self).bytes(), old(self).state(), "continue"@) == token_rule(
                old(self).bytes(),
                old(self).state(),
                ascii_keyword_test("continue"@),
            ),
    {
        proof {
            reveal_strlit("continue");
        }
        self.parse_kw("continue")
    }

    /// Parses the `kw_set` rule.
    ///
    /// ```txt
    /// kw_set =
    ///     | plain_identifier["set"]
    ///     | plain_identifier["SET"]
    /// ```
    pub fn parse_kw_set(&mut self) -> (r: ParserResult<Option<Ast<'a>>>)
        requires
            old(self).wf(),
        ensures
            rule_step(*old(self), *final(self), r, keyword_rule(old(self).bytes(), old(self).state(), "set"@)),
            r matches Ok(Some(a)) ==> a.kind == AstKind::Temp(None),
            keyword_rule(old(self).bytes(), old(self).state(), "set"@) == token_rule(
                old(self).bytes(),
                old(self).state(),
                ascii_keyword_test("set"@),
            ),
    {
        proof {
            reveal_strlit("set");
        }
        self.parse_kw("set")
    }

    /// Parses the `kw_begin` rule.
    ///
    /// ```txt
    /// kw_begin =
    ///     | plain_identifier["begin"]
    ///     | plain_identifier["BEGIN"]
    /// ```
    pub fn parse_kw_begin(&mut self) -> (r: ParserResult<Option<Ast<'a>>>)
        requires
            old(self).wf(),
        ensures
            rule_step(*old(self), *final(self), r, keyword_rule(old(self).bytes(), old(self).state(), "begin"@)),
            r matches Ok(Some(a)) ==> a.kind == AstKind::Temp(None),
            keyword_rule(old(self).bytes(), old(self).state(), "begin"@) == token_rule(
                old(self).bytes(),
                old(self).state(),
                ascii_keyword_test("begin"@),
            ),
    {
        proof {
            reveal_strlit("begin");
        }
        self.parse_kw("begin")
    }

    /// Parses the `kw_transaction` rule.
    ///
    /// ```txt
    /// kw_transaction =
    ///     | plain_identifier["transaction"]
    ///     | plain_identifier["TRANSACTION"]
    /// ```
    pub fn parse_kw_transaction(&mut self) -> (r: ParserResult<Option<Ast<'a>>>)
        requires
            old(self).wf(),
        ensures
            rule_step(*old(self), *final(self), r, keyword_rule(old(self).bytes(), old(self).state(), "transaction"@)),
            r matches Ok(Some(a)) ==> a.kind == AstKind::Temp(None),
            keyword_rule(old(self).bytes(), old(self).state(), "transaction"@) == token_rule(
                old(self).bytes(),
                old(self).state(),
                ascii_keyword_test("transaction"@),
            ),
    {
        proof {
            reveal_strlit("transaction");
        }
        self.parse_kw("transaction")
    }

    /// Parses the `kw_commit` rule.
    ///
    /// ```txt
    /// kw_commit =
    ///     | plain_identifier["commit"]
    ///     | plain_identifier["COMMIT"]
    /// ```
    pub fn parse_kw_commit(&mut self) -> (r: ParserResult<Option<Ast<'a>>>)
        requires
            old(self).wf(),
        ensures
            rule_step(*old(self), *final(self), r, keyword_rule(old(self).bytes(), old(self).state(), "commit"@)),
            r matches Ok(Some(a)) ==> a.kind == AstKind::Temp(None),
            keyword_rule(old(self).bytes(), old(self).state(), "commit"@) == token_rule(
                old(self).bytes(),
                old(self).state(),
                ascii_keyword_test("commit"@),
            ),
    {
        proof {
            reveal_strlit("commit");
        }
        self.parse_kw("commit")
    }

    /// Parses the `kw_cancel` rule.
    ///
    /// ```txt
    /// kw_cancel =
    ///     | plain_identifier["cancel"]
    ///     | plain_identifier["CANCEL"]
    /// ```
    pub fn parse_kw_cancel(&mut self) -> (r: ParserResult<Option<Ast<'a>>>)
        requires
            old(self).wf(),
        ensures
            rule_step(*old(self), *final(self), r, keyword_rule(old(self).bytes(), old(self).state(), "cancel"@)),
            r matches Ok(Some(a)) ==> a.kind == AstKind::Temp(None),
            keyword_rule(old(self).bytes(), old(self).state(), "cancel"@) == token_rule(
                old(self).bytes(),
                old(self).state(),
                ascii_keyword_test("cancel"@),
            ),
    {
        proof {
            reveal_strlit("cancel");
        }
        self.parse_kw("cancel")
    }

    /// Parses the `kw_define` rule.
    ///
    /// ```txt
    /// kw_define =
    ///     | plain_identifier["define"]
    ///     | plain_identifier["DEFINE"]
    /// ```
    pub fn parse_kw_define(&mut self) -> (r: ParserResult<Option<Ast<'a>>>)
        requires
            old(self).wf(),
        ensures
            rule_step(*old(self), *final(self), r, keyword_rule(old(self).bytes(), old(self).state(), "define"@)),
            r matches Ok(Some(a)) ==> a.kind == AstKind::Temp(None),
            keyword_rule(old(self).bytes(), old(self).state(), "define"@) == token_rule(
                old(self).bytes(),
                old(self).state(),
                ascii_keyword_test("define"@),
            ),
    {
        proof {
            reveal_strlit("define");
        }
        self.parse_kw("define")
    }

    /// Parses the `kw_redefine` rule.
    ///
    /// ```txt
    /// kw_redefine =
    ///     | plain_identifier["redefine"]
    ///     | plain_identifier["REDEFINE"]
    /// ```
    pub fn parse_kw_redefine(&mut self) -> (r: ParserResult<Option<Ast<'a>>>)
        requires
            old(self).wf(),
        ensures
            rule_step(*old(self), *final(self), r, keyword_rule(old(self).bytes(), old(self).state(), "redefine"@)),
            r matches Ok(Some(a)) ==> a.kind == AstKind::Temp(None),
            keyword_rule(old(self).bytes(), old(self).state(), "redefine"@) == token_rule(
                old(self).bytes(),
                old(self).state(),
                ascii_keyword_test("redefine"@),
            ),
    {
        proof {
            reveal_strlit("redefine");
        }
        self.parse_kw("redefine")
    }

    /// Parses the `kw_remove` rule.
    ///
    /// ```txt
    /// kw_remove =
    ///     | plain_identifier["remove"]
    ///     | plain_identifier["REMOVE"]
    /// ```
    pub fn parse_kw_remove(&mut self) -> (r: ParserResult<Option<Ast<'a>>>)
        requires
            old(self).wf(),
        ensures
            rule_step(*old(self), *final(self), r, keyword_rule(old(self).bytes(), old(self).state(), "remove"@)),
            r matches Ok(Some(a)) ==> a.kind == AstKind::Temp(None),
            keyword_rule(old(self).bytes(), old(self).state(), "remove"@) == token_rule(
                old(self).bytes(),
                old(self).state(),
                ascii_keyword_test("remove"@),
            ),
    {
        proof {
            reveal_strlit("remove");
        }
        self.parse_kw("remove")
    }

    /// Parses the `kw_describe` rule.
    ///
    /// ```txt
    /// kw_describe =
    ///     | plain_identifier["describe"]
    ///     | plain_identifier["DESCRIBE"]
    /// ```
    pub fn parse_kw_describe(&mut self) -> (r: ParserResult<Option<Ast<'a>>>)
        requires
            old(self).wf(),
        ensures
            rule_step(*old(self), *final(self), r, keyword_rule(old(self).bytes(), old(self).state(), "describe"@)),
            r matches Ok(Some(a)) ==> a.kind == AstKind::Temp(None),
            keyword_rule(old(self).bytes(), old(self).state(), "describe"@) == token_rule(
                old(self).bytes(),
                old(self).state(),
                ascii_keyword_test("describe"@),
            ),
    {
        proof {
            reveal_strlit("describe");
        }
        self.parse_kw("describe")
    }

    /// Parses the `kw_namespace` rule.
    ///
    /// ```txt
    /// kw_namespace =
    ///     | plain_identifier["namespace"]
    ///     | plain_identifier["NAMESPACE"]
    /// ```
    pub fn parse_kw_namespace(&mut self) -> (r: ParserResult<Option<Ast<'a>>>)
        requires
            old(self).wf(),
        ensures
            rule_step(*old(self), *final(self), r, keyword_rule(old(self).bytes(), old(self).state(), "namespace"@)),
            r matches Ok(Some(a)) ==> a.kind == AstKind::Temp(None),
            keyword_rule(old(self).bytes(), old(self).state(), "namespace"@) == token_rule(
                old(self).bytes(),
                old(self).state(),
                ascii_keyword_test("namespace"@),
            ),
    {
        proof {
            reveal_strlit("namespace");
        }
        self.parse_kw("namespace")
    }

    /// Parses the `kw_ns` rule.
    ///
    /// ```txt
    /// kw_ns =
    ///     | plain_identifier["ns"]
    ///     | plain_identifier["NS"]
    /// ```
    pub fn parse_kw_ns(&mut self) -> (r: ParserResult<Option<Ast<'a>>>)
        requires
            old(self).wf(),
        ensures
            rule_step(*old(self), *final(self), r, keyword_rule(old(self).bytes(), old(self).state(), "ns"@)),
            r matches Ok(Some(a)) ==> a.kind == AstKind::Temp(None),
            keyword_rule(old(self).bytes(), old(self).state(), "ns"@) == token_rule(
                old(self).bytes(),
                old(self).state(),
                ascii_keyword_test("ns"@),
            ),
    {
        proof {
            reveal_strlit("ns");
        }
        self.parse_kw("ns")
    }

    /// Parses the `kw_database` rule.
    ///
    /// ```txt
    /// kw_database =
    ///     | plain_identifier["database"]
    ///     | plain_identifier["DATABASE"]
    /// ```
    pub fn parse_kw_database(&mut self) -> (r: ParserResult<Option<Ast<'a>>>)
        requires
            old(self).wf(),
        ensures
            rule_step(*old(self), *final(self), r, keyword_rule(old(self).bytes(), old(self).state(), "database"@)),
            r matches Ok(Some(a)) ==> a.kind == AstKind::Temp(None),
            keyword_rule(old(self).bytes(), old(self).state(), "database"@) == token_rule(
                old(self).bytes(),
                old(self).state(),
                ascii_keyword_test("database"@),
            ),
    {
        proof {
            reveal_strlit("database");
        }
        self.parse_kw("database")
    }

    /// Parses the `kw_db` rule.
    ///
    /// ```txt
    /// kw_db =
    ///     | plain_identifier["db"]
    ///     | plain_identifier["DB"]
    /// ```
    pub fn parse_kw_db(&mut self) -> (r: ParserResult<Option<Ast<'a>>>)
        requires
            old(self).wf(),
        ensures
            rule_step(*old(self), *final(self), r, keyword_rule(old(self).bytes(), old(self).state(), "db"@)),
            r matches Ok(Some(a)) ==> a.kind == AstKind::Temp(None),
            keyword_rule(old(self).bytes(), old(self).state(), "db"@) == token_rule(
                old(self).bytes(),
                old(self).state(),
                ascii_keyword_test("db"@),
            ),
    {
        proof {
            reveal_strlit("db");
        }
        self.parse_kw("db")
    }

    /// Parses the `kw_table` rule.
    ///
    /// ```txt
    /// kw_table =
    ///     | plain_identifier["table"]
    ///     | plain_identifier["TABLE"]
    /// ```
    pub fn parse_kw_table(&mut self) -> (r: ParserResult<Option<Ast<'a>>>)
        requires
            old(self).wf(),
        ensures
            rule_step(*old(self), *final(self), r, keyword_rule(old(self).bytes(), old(self).state(), "table"@)),
            r matches Ok(Some(a)) ==> a.kind == AstKind::Temp(None),
            keyword_rule(old(self).bytes(), old(self).state(), "table"@) == token_rule(
                old(self).bytes(),
                old(self).state(),
                ascii_keyword_test("table"@),
            ),
    {
        proof {
            reveal_strlit("table");
        }
        self.parse_kw("table")
    }

    /// Parses the `kw_fields` rule.
    ///
    /// ```txt
    /// kw_fields =
    ///     | plain_identifier["fields"]
    ///     | plain_identifier["FIELDS"]
    /// ```
    pub fn parse_kw_fields(&mut self) -> (r: ParserResult<Option<Ast<'a>>>)
        requires
            old(self).wf(),
        ensures
            rule_step(*old(self), *final(self), r, keyword_rule(old(self).bytes(), old(self).state(), "fields"@)),
            r matches Ok(Some(a)) ==> a.kind == AstKind::Temp(None),
            keyword_rule(old(self).bytes(), old(self).state(), "fields"@) == token_rule(
                old(self).bytes(),
                old(self).state(),
                ascii_keyword_test("fields"@),
            ),
    {
        proof {
            reveal_strlit("fields");
        }
        self.parse_kw("fields")
    }

    /// Parses the `kw_index` rule.
    ///
    /// ```txt
    /// kw_index =
    ///     | plain_identifier["index"]
    ///     | plain_identifier["INDEX"]
    /// ```
    pub fn parse_kw_index(&mut self) -> (r: ParserResult<Option<Ast<'a>>>)
        requires
            old(self).wf(),
        ensures
            rule_step(*old(self), *final(self), r, keyword_rule(old(self).bytes(), old(self).state(), "index"@)),
            r matches Ok(Some(a)) ==> a.kind == AstKind::Temp(None),
            keyword_rule(old(self).bytes(), old(self).state(), "index"@) == token_rule(
                old(self).bytes(),
                old(self).state(),
                ascii_keyword_test("index"@),
            ),
    {
        proof {
            reveal_strlit("index");
        }
        self.parse_kw("index")
    }

    /// Parses the `kw_indices` rule.
    ///
    /// ```txt
    /// kw_indices =
    ///     | plain_identifier["indices"]
    ///     | plain_identifier["INDICES"]
    /// ```
    pub fn parse_kw_indices(&mut self) -> (r: ParserResult<Option<Ast<'a>>>)
        requires
            old(self).wf(),
        ensures
            rule_step(*old(self), *final(self), r, keyword_rule(old(self).bytes(), old(self).state(), "indices"@)),
            r matches Ok(Some(a)) ==> a.kind == AstKind::Temp(None),
            keyword_rule(old(self).bytes(), old(self).state(), "indices"@) == token_rule(
                old(self).bytes(),
                old(self).state(),
                ascii_keyword_test("indices"@),
            ),
    {
        proof {
            reveal_strlit("indices");
        }
        self.parse_kw("indices")
    }

    /// Parses the `kw_type` rule.
    ///
    /// ```txt
    /// kw_type =
    ///     | plain_identifier["type"]
    ///     | plain_identifier["TYPE"]
    /// ```
    pub fn parse_kw_type(&mut self) -> (r: ParserResult<Option<Ast<'a>>>)
        requires
            old(self).wf(),
        ensures
            rule_step(*old(self), *final(self), r, keyword_rule(old(self).bytes(), old(self).state(), "type"@)),
            r matches Ok(Some(a)) ==> a.kind == AstKind::Temp(None),
            keyword_rule(old(self).bytes(), old(self).state(), "type"@) == token_rule(
                old(self).bytes(),
                old(self).state(),
                ascii_keyword_test("type"@),
            ),
    {
        proof {
            reveal_strlit("type");
        }
        self.parse_kw("type")
    }

    /// Parses the `kw_enum` rule.
    ///
    /// ```txt
    /// kw_enum =
    ///     | plain_identifier["enum"]
    ///     | plain_identifier["ENUM"]
    /// ```
    pub fn parse_kw_enum(&mut self) -> (r: ParserResult<Option<Ast<'a>>>)
        requires
            old(self).wf(),
        ensures
            rule_step(*old(self), *final(self), r, keyword_rule(old(self).bytes(), old(self).state(), "enum"@)),
            r matches Ok(Some(a)) ==> a.kind == AstKind::Temp(None),
            keyword_rule(old(self).bytes(), old(self).state(), "enum"@) == token_rule(
                old(self).bytes(),
                old(self).state(),
                ascii_keyword_test("enum"@),
            ),
    {
        proof {
            reveal_strlit("enum");
        }
        self.parse_kw("enum")
    }

    /// Parses the `kw_edge` rule.
    ///
    /// ```txt
    /// kw_edge =
    ///     | plain_identifier["edge"]
    ///     | plain_identifier["EDGE"]
    /// ```
    pub fn parse_kw_edge(&mut self) -> (r: ParserResult<Option<Ast<'a>>>)
        requires
            old(self).wf(),
        ensures
            rule_step(*old(self), *final(self), r, keyword_rule(old(self).bytes(), old(self).state(), "edge"@)),
            r matches Ok(Some(a)) ==> a.kind == AstKind::Temp(None),
            keyword_rule(old(self).bytes(), old(self).state(), "edge"@) == token_rule(
                old(self).bytes(),
                old(self).state(),
                ascii_keyword_test("edge"@),
            ),
    {
        proof {
            reveal_strlit("edge");
        }
        self.parse_kw("edge")
    }

    /// Parses the `kw_module` rule.
    ///
    /// ```txt
    /// kw_module =
    ///     | plain_identifier["module"]
    ///     | plain_identifier["MODULE"]
    /// ```
    pub fn parse_kw_module(&mut self) -> (r: ParserResult<Option<Ast<'a>>>)
        requires
            old(self).wf(),
        ensures
            rule_step(*old(self), *final(self), r, keyword_rule(old(self).bytes(), old(self).state(), "module"@)),
            r matches Ok(Some(a)) ==> a.kind == AstKind::Temp(None),
            keyword_rule(old(self).bytes(), old(self).state(), "module"@) == token_rule(
                old(self).bytes(),
                old(self).state(),
                ascii_keyword_test("module"@),
            ),
    {
        proof {
            reveal_strlit("module");
        }
        self.parse_kw("module")
    }

    /// Parses the `kw_param` rule.
    ///
    /// ```txt
    /// kw_param =
    ///     | plain_identifier["param"]
    ///     | plain_identifier["PARAM"]
    /// ```
    pub fn parse_kw_param(&mut self) -> (r: ParserResult<Option<Ast<'a>>>)
        requires
            old(self).wf(),
        ensures
            rule_step(*old(self), *final(self), r, keyword_rule(old(self).bytes(), old(self).state(), "param"@)),
            r matches Ok(Some(a)) ==> a.kind == AstKind::Temp(None),
            keyword_rule(old(self).bytes(), old(self).state(), "param"@) == token_rule(
                old(self).bytes(),
                old(self).state(),
                ascii_keyword_test("param"@),
            ),
    {
        proof {
            reveal_strlit("param");
        }
        self.parse_kw("param")
    }

    /// Parses the `kw_mod` rule.
    ///
    /// ```txt
    /// kw_mod =
    ///     | plain_identifier["mod"]
    ///     | plain_identifier["MOD"]
    /// ```
    pub fn parse_kw_mod(&mut self) -> (r: ParserResult<Option<Ast<'a>>>)
        requires
            old(self).wf(),
        ensures
            rule_step(*old(self), *final(self), r, keyword_rule(old(self).bytes(), old(self).state(), "mod"@)),
            r matches Ok(Some(a)) ==> a.kind == AstKind::Temp(None),
            keyword_rule(old(self).bytes(), old(self).state(), "mod"@) == token_rule(
                old(self).bytes(),
                old(self).state(),
                ascii_keyword_test("mod"@),
            ),
    {
        proof {
            reveal_strlit("mod");
        }
        self.parse_kw("mod")
    }

    /// Parses the `kw_value` rule.
    ///
    /// ```txt
    /// kw_value =
    ///     | plain_identifier["value"]
    ///     | plain_identifier["VALUE"]
    /// ```
    pub fn parse_kw_value(&mut self) -> (r: ParserResult<Option<Ast<'a>>>)
        requires
            old(self).wf(),
        ensures
            rule_step(*old(self), *final(self), r, keyword_rule(old(self).bytes(), old(self).state(), "value"@)),
            r matches Ok(Some(a)) ==> a.kind == AstKind::Temp(None),
            keyword_rule(old(self).bytes(), old(self).state(), "value"@) == token_rule(
                old(self).bytes(),
                old(self).state(),
                ascii_keyword_test("value"@),
            ),
    {
        proof {
            reveal_strlit("value");
        }
        self.parse_kw("value")
    }

    /// Parses the `kw_values` rule.
    ///
    /// ```txt
    /// kw_values =
    ///     | plain_identifier["values"]
    ///     | plain_identifier["VALUES"]
    /// ```
    pub fn parse_kw_values(&mut self) -> (r: ParserResult<Option<Ast<'a>>>)
        requires
            old(self).wf(),
        ensures
            rule_step(*old(self), *final(self), r, keyword_rule(old(self).bytes(), old(self).state(), "values"@)),
            r matches Ok(Some(a)) ==> a.kind == AstKind::Temp(None),
            keyword_rule(old(self).bytes(), old(self).state(), "values"@) == token_rule(
                old(self).bytes(),
                old(self).state(),
                ascii_keyword_test("values"@),
            ),
    {
        proof {
            reveal_strlit("values");
        }
        self.parse_kw("values")
    }

    /// Parses the `kw_variant` rule.
    ///
    /// ```txt
    /// kw_variant =
    ///     | plain_identifier["variant"]
    ///     | plain_identifier["VARIANT"]
    /// ```
    pub fn parse_kw_variant(&mut self) -> (r: ParserResult<Option<Ast<'a>>>)
        requires
            old(self).wf(),
        ensures
            rule_step(*old(self), *final(self), r, keyword_rule(old(self).bytes(), old(self).state(), "variant"@)),
            r matches Ok(Some(a)) ==> a.kind == AstKind::Temp(None),
            keyword_rule(old(self).bytes(), old(self).state(), "variant"@) == token_rule(
                old(self).bytes(),
                old(self).state(),
                ascii_keyword_test("variant"@),
            ),
    {
        proof {
            reveal_strlit("variant");
        }
        self.parse_kw("variant")
    }

    /// Parses the `kw_variants` rule.
    ///
    /// ```txt
    /// kw_variants =
    ///     | plain_identifier["variants"]
    ///     | plain_identifier["VARIANTS"]
    /// ```
    pub fn parse_kw_variants(&mut self) -> (r: ParserResult<Option<Ast<'a>>>)
        requires
            old(self).wf(),
        ensures
            rule_step(*old(self), *final(self), r, keyword_rule(old(self).bytes(), old(self).state(), "variants"@)),
            r matches Ok(Some(a)) ==> a.kind == AstKind::Temp(None),
            keyword_rule(old(self).bytes(), old(self).state(), "variants"@) == token_rule(
                old(self).bytes(),
                old(self).state(),
                ascii_keyword_test("variants"@),
            ),
    {
        proof {
            reveal_strlit("variants");
        }
        self.parse_kw("variants")
    }

    /// Parses the `kw_assert` rule.
    ///
    /// ```txt
    /// kw_assert =
    ///     | plain_identifier["assert"]
    ///     | plain_identifier["ASSERT"]
    /// ```
    pub fn parse_kw_assert(&mut self) -> (r: ParserResult<Option<Ast<'a>>>)
        requires
            old(self).wf(),
        ensures
            rule_step(*old(self), *final(self), r, keyword_rule(old(self).bytes(), old(self).state(), "assert"@)),
            r matches Ok(Some(a)) ==> a.kind == AstKind::Temp(None),
            keyword_rule(old(self).bytes(), old(self).state(), "assert"@) == token_rule(
                old(self).bytes(),
                old(self).state(),
                ascii_keyword_test("assert"@),
            ),
    {
        proof {
            reveal_strlit("assert");
        }
        self.parse_kw("assert")
    }

    /// Parses the `kw_readonly` rule.
    ///
    /// ```txt
    /// kw_readonly =
    ///     | plain_identifier["readonly"]
    ///     | plain_identifier["READONLY"]
    /// ```
    pub fn parse_kw_readonly(&mut self) -> (r: ParserResult<Option<Ast<'a>>>)
        requires
            old(self).wf(),
        ensures
            rule_step(*old(self), *final(self), r, keyword_rule(old(self).bytes(), old(self).state(), "readonly"@)),
            r matches Ok(Some(a)) ==> a.kind == AstKind::Temp(None),
            keyword_rule(old(self).bytes(), old(self).state(), "readonly"@) == token_rule(
                old(self).bytes(),
                old(self).state(),
                ascii_keyword_test("readonly"@),
            ),
    {
        proof {
            reveal_strlit("readonly");
        }
        self.parse_kw("readonly")
    }

    /// Parses the `kw_unique` rule.
    ///
    /// ```txt
    /// kw_unique =
    ///     | plain_identifier["unique"]
    ///     | plain_identifier["UNIQUE"]
    /// ```
    pub fn parse_kw_unique(&mut self) -> (r: ParserResult<Option<Ast<'a>>>)
        requires
            old(self).wf(),
        ensures
            rule_step(*old(self), *final(self), r, keyword_rule(old(self).bytes(), old(self).state(), "unique"@)),
            r matches Ok(Some(a)) ==> a.kind == AstKind::Temp(None),
            keyword_rule(old(self).bytes(), old(self).state(), "unique"@) == token_rule(
                old(self).bytes(),
                old(self).state(),
                ascii_keyword_test("unique"@),
            ),
    {
        proof {
            reveal_strlit("unique");
        }
        self.parse_kw("unique")
    }

    /// Parses the `kw_use` rule.
    ///
    /// ```txt
    /// kw_use =
    ///     | plain_identifier["use"]
    ///     | plain_identifier["USE"]
    /// ```
    pub fn parse_kw_use(&mut self) -> (r: ParserResult<Option<Ast<'a>>>)
        requires
            old(self).wf(),
        ensures
            rule_step(*old(self), *final(self), r, keyword_rule(old(self).bytes(), old(self).state(), "use"@)),
            r matches Ok(Some(a)) ==> a.kind == AstKind::Temp(None),
            keyword_rule(old(self).bytes(), old(self).state(), "use"@) == token_rule(
                old(self).bytes(),
                old(self).state(),
                ascii_keyword_test("use"@),
            ),
    {
        proof {
            reveal_strlit("use");
        }
        self.parse_kw("use")
    }

    /// Parses the `kw_if` rule.
    ///
    /// ```txt
    /// kw_if =
    ///     | plain_identifier["if"]
    ///     | plain_identifier["IF"]
    /// ```
    pub fn parse_kw_if(&mut self) -> (r: ParserResult<Option<Ast<'a>>>)
        requires
            old(self).wf(),
        ensures
            rule_step(*old(self), *final(self), r, keyword_rule(old(self).bytes(), old(self).state(), "if"@)),
            r matches Ok(Some(a)) ==> a.kind == AstKind::Temp(None),
            keyword_rule(old(self).bytes(), old(self).state(), "if"@) == token_rule(
                old(self).bytes(),
                old(self).state(),
                ascii_keyword_test("if"@),
            ),
    {
        proof {
            reveal_strlit("if");
        }
        self.parse_kw("if")
    }

    /// Parses the `kw_else` rule.
    ///
    /// ```txt
    /// kw_else =
    ///     | plain_identifier["else"]
    ///     | plain_identifier["ELSE"]
    /// ```
    pub fn parse_kw_else(&mut self) -> (r: ParserResult<Option<Ast<'a>>>)
        requires
            old(self).wf(),
        ensures
            rule_step(*old(self), *final(self), r, keyword_rule(old(self).bytes(), old(self).state(), "else"@)),
            r matches Ok(Some(a)) ==> a.kind == AstKind::Temp(None),
            keyword_rule(old(self).bytes(), old(self).state(), "else"@) == token_rule(
                old(self).bytes(),
                old(self).state(),
                ascii_keyword_test("else"@),
            ),
    {
        proof {
            reveal_strlit("else");
        }
        self.parse_kw("else")
    }

    /// Parses the `kw_for` rule.
    ///
    /// ```txt
    /// kw_for =
    ///     | plain_identifier["for"]
    ///     | plain_identifier["FOR"]
    /// ```
    pub fn parse_kw_for(&mut self) -> (r: ParserResult<Option<Ast<'a>>>)
        requires
            old(self).wf(),
        ensures
            rule_step(*old(self), *final(self), r, keyword_rule(old(self).bytes(), old(self).state(), "for"@)),
            r matches Ok(Some(a)) ==> a.kind == AstKind::Temp(None),
            keyword_rule(old(self).bytes(), old(self).state(), "for"@) == token_rule(
                old(self).bytes(),
                old(self).state(),
                ascii_keyword_test("for"@),
            ),
    {
        proof {
            reveal_strlit("for");
        }
        self.parse_kw("for")
    }

    /// Parses the `kw_then` rule.
    ///
    /// ```txt
    /// kw_then =
    ///     | plain_identifier["then"]
    ///     | plain_identifier["THEN"]
    /// ```
    pub fn parse_kw_then(&mut self) -> (r: ParserResult<Option<Ast<'a>>>)
        requires
            old(self).wf(),
        ensures
            rule_step(*old(self), *final(self), r, keyword_rule(old(self).bytes(), old(self).state(), "then"@)),
            r matches Ok(Some(a)) ==> a.kind == AstKind::Temp(None),
            keyword_rule(old(self).bytes(), old(self).state(), "then"@) == token_rule(
                old(self).bytes(),
                old(self).state(),
                ascii_keyword_test("then"@),
            ),
    {
        proof {
            reveal_strlit("then");
        }
        self.parse_kw("then")
    }

    /// Parses the `kw_do` rule.
    ///
    /// ```txt
    /// kw_do =
    ///     | plain_identifier["do"]
    ///     | plain_identifier["DO"]
    /// ```
    pub fn parse_kw_do(&mut self) -> (r: ParserResult<Option<Ast<'a>>>)
        requires
            old(self).wf(),
        ensures
            rule_step(*old(self), *final(self), r, keyword_rule(old(self).bytes(), old(self).state(), "do"@)),
            r matches Ok(Some(a)) ==> a.kind == AstKind::Temp(None),
            keyword_rule(old(self).bytes(), old(self).state(), "do"@) == token_rule(
                old(self).bytes(),
                old(self).state(),
                ascii_keyword_test("do"@),
            ),
    {
        proof {
            reveal_strlit("do");
        }
        self.parse_kw("do")
    }

    /// Parses the `kw_end` rule.
    ///
    /// ```txt
    /// kw_end =
    ///     | plain_identifier["end"]
    ///     | plain_identifier["END"]
    /// ```
    pub fn parse_kw_end(&mut self) -> (r: ParserResult<Option<Ast<'a>>>)
        requires
            old(self).wf(),
        ensures
            rule_step(*old(self), *final(self), r, keyword_rule(old(self).bytes(), old(self).state(), "end"@)),
            r matches Ok(Some(a)) ==> a.kind == AstKind::Temp(None),
            keyword_rule(old(self).bytes(), old(self).state(), "end"@) == token_rule(
                old(self).bytes(),
                old(self).state(),
                ascii_keyword_test("end"@),
            ),
    {
        proof {
            reveal_strlit("end");
        }
        self.parse_kw("end")
    }

    /// Parses the `kw_not` rule.
    ///
    /// ```txt
    /// kw_not =
    ///     | plain_identifier["not"]
    ///     | plain_identifier["NOT"]
    /// ```
    pub fn parse_kw_not(&mut self) -> (r: ParserResult<Option<Ast<'a>>>)
        requires
            old(self).wf(),
        ensures
            rule_step(*old(self), *final(self), r, keyword_rule(old(self).bytes(), old(self).state(), "not"@)),
            r matches Ok(Some(a)) ==> a.kind == AstKind::Temp(None),
            keyword_rule(old(self).bytes(), old(self).state(), "not"@) == token_rule(
                old(self).bytes(),
                old(self).state(),
                ascii_keyword_test("not"@),
            ),
    {
        proof {
            reveal_strlit("not");
        }
        self.parse_kw("not")
    }

    /// Parses the `kw_exists` rule.
    ///
    /// ```txt
    /// kw_exists =
    ///     | plain_identifier["exists"]
    ///     | plain_identifier["EXISTS"]
    /// ```
    pub fn parse_kw_exists(&mut self) -> (r: ParserResult<Option<Ast<'a>>>)
        requires
            old(self).wf(),
        ensures
            rule_step(*old(self), *final(self), r, keyword_rule(old(self).bytes(), old(self).state(), "exists"@)),
            r matches Ok(Some(a)) ==> a.kind == AstKind::Temp(None),
            keyword_rule(old(self).bytes(), old(self).state(), "exists"@) == token_rule(
                old(self).bytes(),
                old(self).state(),
                ascii_keyword_test("exists"@),
            ),
    {
        proof {
            reveal_strlit("exists");
        }
        self.parse_kw("exists")
    }

    /// Parses the `kw_with` rule.
    ///
    /// ```txt
    /// kw_with =
    ///     | plain_identifier["with"]
    ///     | plain_identifier["WITH"]
    /// ```
    pub fn parse_kw_with(&mut self) -> (r: ParserResult<Option<Ast<'a>>>)
        requires
            old(self).wf(),
        ensures
            rule_step(*old(self), *final(self), r, keyword_rule(old(self).bytes(), old(self).state(), "with"@)),
            r matches Ok(Some(a)) ==> a.kind == AstKind::Temp(None),
            keyword_rule(old(self).bytes(), old(self).state(), "with"@) == token_rule(
                old(self).bytes(),
                old(self).state(),
                ascii_keyword_test("with"@),
            ),
    {
        proof {
            reveal_strlit("with");
        }
        self.parse_kw("with")
    }

    /// Parses the `kw_on` rule.
    ///
    /// ```txt
    /// kw_on =
    ///     | plain_identifier["on"]
    ///     | plain_identifier["ON"]
    /// ```
    pub fn parse_kw_on(&mut self) -> (r: ParserResult<Option<Ast<'a>>>)
        requires
            old(self).wf(),
        ensures
            rule_step(*old(self), *final(self), r, keyword_rule(old(self).bytes(), old(self).state(), "on"@)),
            r matches Ok(Some(a)) ==> a.kind == AstKind::Temp(None),
            keyword_rule(old(self).bytes(), old(self).state(), "on"@) == token_rule(
                old(self).bytes(),
                old(self).state(),
                ascii_keyword_test("on"@),
            ),
    {
        proof {
            reveal_strlit("on");
        }
        self.parse_kw("on")
    }

    /// Parses the `kw_let` rule.
    ///
    /// ```txt
    /// kw_let =
    ///     | plain_identifier["let"]
    ///     | plain_identifier["LET"]
    /// ```
    pub fn parse_kw_let(&mut self) -> (r: ParserResult<Option<Ast<'a>>>)
        requires
            old(self).wf(),
        ensures
            rule_step(*old(self), *final(self), r, keyword_rule(old(self).bytes(), old(self).state(), "let"@)),
            r matches Ok(Some(a)) ==> a.kind == AstKind::Temp(None),
            keyword_rule(old(self).bytes(), old(self).state(), "let"@) == token_rule(
                old(self).bytes(),
                old(self).state(),
                ascii_keyword_test("let"@),
            ),
    {
        proof {
            reveal_strlit("let");
        }
        self.parse_kw("let")
    }

    /// Parses the `kw_where` rule.
    ///
    /// ```txt
    /// kw_where =
    ///     | plain_identifier["where"]
    ///     | plain_identifier["WHERE"]
    /// ```
    pub fn parse_kw_where(&mut self) -> (r: ParserResult<Option<Ast<'a>>>)
        requires
            old(self).wf(),
        ensures
            rule_step(*old(self), *final(self), r, keyword_rule(old(self).bytes(), old(self).state(), "where"@)),
            r matches Ok(Some(a)) ==> a.kind == AstKind::Temp(None),
            keyword_rule(old(self).bytes(), old(self).state(), "where"@) == token_rule(
                old(self).bytes(),
                old(self).state(),
                ascii_keyword_test("where"@),
            ),
    {
        proof {
            reveal_strlit("where");
        }
        self.parse_kw("where")
    }

    /// Parses the `kw_group` rule.
    ///
    /// ```txt
    /// kw_group =
    ///     | plain_identifier["group"]
    ///     | plain_identifier["GROUP"]
    /// ```
    pub fn parse_kw_group(&mut self) -> (r: ParserResult<Option<Ast<'a>>>)
        requires
            old(self).wf(),
        ensures
            rule_step(*old(self), *final(self), r, keyword_rule(old(self).bytes(), old(self).state(), "group"@)),
            r matches Ok(Some(a)) ==> a.kind == AstKind::Temp(None),
            keyword_rule(old(self).bytes(), old(self).state(), "group"@) == token_rule(
                old(self).bytes(),
                old(self).state(),
                ascii_keyword_test("group"@),
            ),
    {
        proof {
            reveal_strlit("group");
        }
        self.parse_kw("group")
    }

    /// Parses the `kw_limit` rule.
    ///
    /// ```txt
    /// kw_limit =
    ///     | plain_identifier["limit"]
    ///     | plain_identifier["LIMIT"]
    /// ```
    pub fn parse_kw_limit(&mut self) -> (r: ParserResult<Option<Ast<'a>>>)
        requires
            old(self).wf(),
        ensures
            rule_step(*old(self), *final(self), r, keyword_rule(old(self).bytes(), old(self).state(), "limit"@)),
            r matches Ok(Some(a)) ==> a.kind == AstKind::Temp(None),
            keyword_rule(old(self).bytes(), old(self).state(), "limit"@) == token_rule(
                old(self).bytes(),
                old(self).state(),
                ascii_keyword_test("limit"@),
            ),
    {
        proof {
            reveal_strlit("limit");
        }
        self.parse_kw("limit")
    }

    /// Parses the `kw_start` rule.
    ///
    /// ```txt
    /// kw_start =
    ///     | plain_identifier["start"]
    ///     | plain_identifier["START"]
    /// ```
    pub fn parse_kw_start(&mut self) -> (r: ParserResult<Option<Ast<'a>>>)
        requires
            old(self).wf(),
        ensures
            rule_step(*old(self), *final(self), r, keyword_rule(old(self).bytes(), old(self).state(), "start"@)),
            r matches Ok(Some(a)) ==> a.kind == AstKind::Temp(None),
            keyword_rule(old(self).bytes(), old(self).state(), "start"@) == token_rule(
                old(self).bytes(),
                old(self).state(),
                ascii_keyword_test("start"@),
            ),
    {
        proof {
            reveal_strlit("start");
        }
        self.parse_kw("start")
    }

    /// Parses the `kw_order` rule.
    ///
    /// ```txt
    /// kw_order =
    ///     | plain_identifier["order"]
    ///     | plain_identifier["ORDER"]
    /// ```
    pub fn parse_kw_order(&mut self) -> (r: ParserResult<Option<Ast<'a>>>)
        requires
            old(self).wf(),
        ensures
            rule_step(*old(self), *final(self), r, keyword_rule(old(self).bytes(), old(self).state(), "order"@)),
            r matches Ok(Some(a)) ==> a.kind == AstKind::Temp(None),
            keyword_rule(old(self).bytes(), old(self).state(), "order"@) == token_rule(
                old(self).bytes(),
                old(self).state(),
                ascii_keyword_test("order"@),
            ),
    {
        proof {
            reveal_strlit("order");
        }
        self.parse_kw("order")
    }

    /// Parses the `kw_by` rule.
    ///
    /// ```txt
    /// kw_by =
    ///     | plain_identifier["by"]
    ///     | plain_identifier["BY"]
    /// ```
    pub fn parse_kw_by(&mut self) -> (r: ParserResult<Option<Ast<'a>>>)
        requires
            old(self).wf(),
        ensures
            rule_step(*old(self), *final(self), r, keyword_rule(old(self).bytes(), old(self).state(), "by"@)),
            r matches Ok(Some(a)) ==> a.kind == AstKind::Temp(None),
            keyword_rule(old(self).bytes(), old(self).state(), "by"@) == token_rule(
                old(self).bytes(),
                old(self).state(),
                ascii_keyword_test("by"@),
            ),
    {
        proof {
            reveal_strlit("by");
        }
        self.parse_kw("by")
    }

    /// Parses the `kw_at` rule.
    ///
    /// ```txt
    /// kw_at =
    ///     | plain_identifier["at"]
    ///     | plain_identifier["AT"]
    /// ```
    pub fn parse_kw_at(&mut self) -> (r: ParserResult<Option<Ast<'a>>>)
        requires
            old(self).wf(),
        ensures
            rule_step(*old(self), *final(self), r, keyword_rule(old(self).bytes(), old(self).state(), "at"@)),
            r matches Ok(Some(a)) ==> a.kind == AstKind::Temp(None),
            keyword_rule(old(self).bytes(), old(self).state(), "at"@) == token_rule(
                old(self).bytes(),
                old(self).state(),
                ascii_keyword_test("at"@),
            ),
    {
        proof {
            reveal_strlit("at");
        }
        self.parse_kw("at")
    }

    /// Parses the `kw_to` rule.
    ///
    /// ```txt
    /// kw_to =
    ///     | plain_identifier["to"]
    ///     | plain_identifier["TO"]
    /// ```
    pub fn parse_kw_to(&mut self) -> (r: ParserResult<Option<Ast<'a>>>)
        requires
            old(self).wf(),
        ensures
            rule_step(*old(self), *final(self), r, keyword_rule(old(self).bytes(), old(self).state(), "to"@)),
            r matches Ok(Some(a)) ==> a.kind == AstKind::Temp(None),
            keyword_rule(old(self).bytes(), old(self).state(), "to"@) == token_rule(
                old(self).bytes(),
                old(self).state(),
                ascii_keyword_test("to"@),
            ),
    {
        proof {
            reveal_strlit("to");
        }
        self.parse_kw("to")
    }

    /// Parses the `kw_no` rule.
    ///
    /// ```txt
    /// kw_no =
    ///     | plain_identifier["no"]
    ///     | plain_identifier["NO"]
    /// ```
    pub fn parse_kw_no(&mut self) -> (r: ParserResult<Option<Ast<'a>>>)
        requires
            old(self).wf(),
        ensures
            rule_step(*old(self), *final(self), r, keyword_rule(old(self).bytes(), old(self).state(), "no"@)),
            r matches Ok(Some(a)) ==> a.kind == AstKind::Temp(None),
            keyword_rule(old(self).bytes(), old(self).state(), "no"@) == token_rule(
                old(self).bytes(),
                old(self).state(),
                ascii_keyword_test("no"@),
            ),
    {
        proof {
            reveal_strlit("no");
        }
        self.parse_kw("no")
    }

    /// Parses the `kw_desc` rule.
    ///
    /// ```txt
    /// kw_desc =
    ///     | plain_identifier["desc"]
    ///     | plain_identifier["DESC"]
    /// ```
    pub fn parse_kw_desc(&mut self) -> (r: ParserResult<Option<Ast<'a>>>)
        requires
            old(self).wf(),
        ensures
            rule_step(*old(self), *final(self), r, keyword_rule(old(self).bytes(), old(self).state(), "desc"@)),
            r matches Ok(Some(a)) ==> a.kind == AstKind::Temp(None),
            keyword_rule(old(self).bytes(), old(self).state(), "desc"@) == token_rule(
                old(self).bytes(),
                old(self).state(),
                ascii_keyword_test("desc"@),
            ),
    {
        proof {
            reveal_strlit("desc");
        }
        self.parse_kw("desc")
    }

    /// Parses the `kw_as` rule.
    ///
    /// ```txt
    /// kw_as =
    ///     | plain_identifier["as"]
    ///     | plain_identifier["AS"]
    /// ```
    pub fn parse_kw_as(&mut self) -> (r: ParserResult<Option<Ast<'a>>>)
        requires
            old(self).wf(),
        ensures
            rule_step(*old(self), *final(self), r, keyword_rule(old(self).bytes(), old(self).state(), "as"@)),
            r matches Ok(Some(a)) ==> a.kind == AstKind::Temp(None),
            keyword_rule(old(self).bytes(), old(self).state(), "as"@) == token_rule(
                old(self).bytes(),
                old(self).state(),
                ascii_keyword_test("as"@),
            ),
    {
        proof {
            reveal_strlit("as");
        }
        self.parse_kw("as")
    }
}

} // verus!

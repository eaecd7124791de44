//! Compares the lexer with a lexer built from regular expressions for the same grammar, on many
//! generated inputs.

use regex::{Regex, RegexBuilder};
use zeroql::lexer::{Bracket, Lexer, LexerError, RegexFlags, Token, TokenKind};

#[derive(Clone, Copy)]
enum Rule {
    Terminator,
    ByteString,
    Plain,
    Escaped,
    Variable,
    Str,
    RegexLit,
    Op(fn() -> TokenKind<'static>),
    Open(Bracket),
    Close(Bracket),
    Hex,
    Oct,
    Bin,
    Float,
    Dec,
}

struct Grammar {
    comment: Regex,
    backslash: Regex,
    hspace: Regex,
    ws: Regex,
    rules: Vec<(Regex, Rule, bool)>,
    float: Regex,
    float_not: Regex,
    module_block: Regex,
}

fn anchored(p: &str) -> Regex {
    Regex::new(&format!("^(?:{})", p)).unwrap()
}

fn grammar() -> Grammar {
    let mut rules: Vec<(Regex, Rule, bool)> = Vec::new();
    let mut add = |p: &str, r: Rule, cont: bool| rules.push((anchored(p), r, cont));
    add(r";\s*|(\r?\n)\s*", Rule::Terminator, false);
    add(r#"b('([^'\\]|\\t|\\n|\\r|\\\\)*'|"([^"\\]|\\t|\\n|\\r|\\\\)*")"#, Rule::ByteString, false);
    add(r"[_a-zA-Z][_a-zA-Z0-9]*", Rule::Plain, false);
    add(r"`[_a-zA-Z][_a-zA-Z0-9]*`", Rule::Escaped, false);
    add(r"\$[a-zA-Z_][a-zA-Z0-9_]*", Rule::Variable, false);
    add(r#"'([^'\\]|\\t|\\n|\\r|\\\\)*'|"([^"\\]|\\t|\\n|\\r|\\\\)*""#, Rule::Str, false);
    add(r"//([^\r\n]+?)//([gimsux]*)", Rule::RegexLit, false);
    add(r"\(", Rule::Open(Bracket::OpenParen), false);
    add(r"\)", Rule::Close(Bracket::CloseParen), false);
    add(r"\[", Rule::Open(Bracket::OpenSquareBracket), false);
    add(r"\]", Rule::Close(Bracket::CloseSquareBracket), false);
    add(r"\{", Rule::Open(Bracket::OpenBrace), false);
    add(r"\}", Rule::Close(Bracket::CloseBrace), false);
    add(r",", Rule::Op(|| TokenKind::OpComma), true);
    add(r"::", Rule::Op(|| TokenKind::OpScope), false);
    add(r":", Rule::Op(|| TokenKind::OpColon), false);
    add(r"\+=", Rule::Op(|| TokenKind::OpAssignPlus), true);
    add(r"-=", Rule::Op(|| TokenKind::OpAssignMinus), true);
    add(r"\*=|×=", Rule::Op(|| TokenKind::OpAssignMul), true);
    add(r"/=|÷=", Rule::Op(|| TokenKind::OpAssignDiv), true);
    add(r"%=", Rule::Op(|| TokenKind::OpAssignMod), true);
    add(r"\*\*=", Rule::Op(|| TokenKind::OpAssignPow), true);
    add(r"<<=", Rule::Op(|| TokenKind::OpAssignShl), true);
    add(r">>=", Rule::Op(|| TokenKind::OpAssignShr), true);
    add(r"&=", Rule::Op(|| TokenKind::OpAssignBitAnd), true);
    add(r"\|=", Rule::Op(|| TokenKind::OpAssignBitOr), true);
    add(r"\^=", Rule::Op(|| TokenKind::OpAssignBitXor), true);
    add(r"~=", Rule::Op(|| TokenKind::OpAssignBitNot), true);
    add(r"\?\?=", Rule::Op(|| TokenKind::OpAssignNullCoalesce), true);
    add(r"->>", Rule::Op(|| TokenKind::OpMultiArrowRight), false);
    add(r"<<-", Rule::Op(|| TokenKind::OpMultiArrowLeft), false);
    add(r"->", Rule::Op(|| TokenKind::OpArrowRight), false);
    add(r"<-", Rule::Op(|| TokenKind::OpArrowLeft), false);
    add(r"\*\*", Rule::Op(|| TokenKind::OpPow), false);
    add(r"\+", Rule::Op(|| TokenKind::OpPlus), false);
    add(r"-", Rule::Op(|| TokenKind::OpMinus), false);
    add(r"×", Rule::Op(|| TokenKind::OpMulLexer), false);
    add(r"/|÷", Rule::Op(|| TokenKind::OpDiv), false);
    add(r"%", Rule::Op(|| TokenKind::OpMod), false);
    add(r"~", Rule::Op(|| TokenKind::OpMatchLexer), false);
    add(r"!~", Rule::Op(|| TokenKind::OpNotMatchLexer), false);
    add(r"<>", Rule::Op(|| TokenKind::OpSimilarity), false);
    add(r"&&", Rule::Op(|| TokenKind::OpAndLexer), false);
    add(r"\|\|", Rule::Op(|| TokenKind::OpOrLexer), false);
    add(r"==", Rule::Op(|| TokenKind::OpEq), false);
    add(r"=", Rule::Op(|| TokenKind::OpIsLexer), true);
    add(r"!=", Rule::Op(|| TokenKind::OpIsNotLexer), false);
    add(r"!", Rule::Op(|| TokenKind::OpNotLexer), false);
    add(r"<=", Rule::Op(|| TokenKind::OpLte), false);
    add(r">=", Rule::Op(|| TokenKind::OpGte), false);
    add(r"<<", Rule::Op(|| TokenKind::OpShl), false);
    add(r">>", Rule::Op(|| TokenKind::OpShr), false);
    add(r"<", Rule::Op(|| TokenKind::OpLt), false);
    add(r">", Rule::Op(|| TokenKind::OpGt), false);
    add(r"∋", Rule::Op(|| TokenKind::OpContainsLexer), false);
    add(r"∌", Rule::Op(|| TokenKind::OpNotContainsLexer), false);
    add(r"⊅", Rule::Op(|| TokenKind::OpContainsNoneLexer), false);
    add(r"⊇", Rule::Op(|| TokenKind::OpContainsAllLexer), false);
    add(r"⊃", Rule::Op(|| TokenKind::OpContainsAnyLexer), false);
    add(r"\?\?\.", Rule::Op(|| TokenKind::OpSafeNav), false);
    add(r"\?\?", Rule::Op(|| TokenKind::OpNullCoalesce), false);
    add(r"\?\.", Rule::Op(|| TokenKind::OpSafeNav), false);
    add(r"\?:", Rule::Op(|| TokenKind::OpNullCoalesce), false);
    add(r"\?", Rule::Op(|| TokenKind::OpOptional), false);
    add(r"&", Rule::Op(|| TokenKind::OpBitAnd), false);
    add(r"\|", Rule::Op(|| TokenKind::OpBitOr), false);
    add(r"\^", Rule::Op(|| TokenKind::OpBitXor), false);
    add(r"\.\.=", Rule::Op(|| TokenKind::OpRangeIncl), false);
    add(r"\.\.", Rule::Op(|| TokenKind::OpRange), false);
    add(r"\*", Rule::Op(|| TokenKind::OpStar), false);
    add(r"0x[0-9a-fA-F]+(_?[0-9a-fA-F])*", Rule::Hex, false);
    add(r"0o[0-7]+(_?[0-7])*", Rule::Oct, false);
    add(r"0b[01]+(_?[01])*", Rule::Bin, false);
    add(r"\d(_?\d)*", Rule::Dec, false);
    add(r"\.", Rule::Op(|| TokenKind::OpDot), false);
    Grammar {
        comment: anchored(r"\s*--[^\r\n]*"),
        backslash: anchored(r"\s*\\\r?\n\s*"),
        hspace: anchored(r"[ \t]+"),
        ws: anchored(r"\s+"),
        rules,
        float: anchored(
            r"\.\d(_?\d)*([eE][+-]?\d(_?\d)*)?|\d(_?\d)*\.(\d(_?\d)*([eE][+-]?\d(_?\d)*)?)?|\d(_?\d)*([eE][+-]?\d(_?\d)*)",
        ),
        float_not: anchored(r"\d(_?\d)*\.[a-zA-Z_.]"),
        module_block: RegexBuilder::new(r"^.+?\b(end|END)\b")
            .dot_matches_new_line(true)
            .build()
            .unwrap(),
    }
}

struct Oracle<'a> {
    g: &'a Grammar,
    s: &'a str,
    cursor: usize,
    stack: Vec<Bracket>,
    cont: bool,
    prec: u8,
}

/// What a step gives, or `None` where the step is not defined.
type Step<'a> = Option<Result<Option<Token<'a>>, LexerError>>;

impl<'a> Oracle<'a> {
    fn skip(&mut self) -> usize {
        let rest = &self.s[self.cursor..];
        if let Some(m) = self.g.comment.find(rest) {
            return m.len();
        }
        if let Some(m) = self.g.backslash.find(rest) {
            return m.len();
        }
        if let Some(m) = self.g.ws.find(rest) {
            if self.cont {
                self.cont = false;
                return m.len();
            }
            if !self.stack.is_empty() {
                return m.len();
            }
            if let Some(h) = self.g.hspace.find(rest) {
                return h.len();
            }
        }
        0
    }

    fn step(&mut self) -> Step<'a> {
        let s = self.s;
        if self.cursor >= s.len() {
            return Some(Ok(None));
        }
        if self.prec == 4 {
            self.prec = 0;
            let c = self.cursor;
            return match self.g.module_block.find(&s[c..]) {
                Some(m) => {
                    let end = c + m.end() - 3;
                    self.cursor = end;
                    Some(Ok(Some(Token::new(c..end, TokenKind::ModuleBlock(&s[c..end])))))
                }
                None => Some(Err(LexerError::UnableToLexModuleBlock { span: c..c + 1 })),
            };
        }
        self.cursor += self.skip();
        let p = self.cursor;
        if p >= s.len() {
            return Some(Ok(None));
        }
        let rest = &s[p..];
        let mut found: Option<(usize, Rule, bool)> = None;
        for (re, rule, cont) in self.g.rules.iter() {
            if let Rule::Dec = rule {
                if self.g.float_not.find(rest).is_none() {
                    if let Some(m) = self.g.float.find(rest) {
                        found = Some((m.len(), Rule::Float, false));
                        break;
                    }
                }
            }
            if let Some(m) = re.find(rest) {
                found = Some((m.len(), *rule, *cont));
                break;
            }
        }
        let (n, rule, cont) = match found {
            Some(f) => f,
            None => {
                return s[p..].chars().next().map(|character| {
                    Err(LexerError::UnexpectedCharacter { span: p..p + 1, character })
                });
            }
        };
        let text = &s[p..p + n];
        let kind = match rule {
            Rule::Terminator => TokenKind::Terminator,
            Rule::ByteString => TokenKind::ByteStringLiteral(&text[2..n - 1]),
            Rule::Plain => {
                match self.prec {
                    0 => {
                        if text == "define" || text == "DEFINE" {
                            self.prec = 1;
                        }
                    }
                    1 => {
                        if text == "module" || text == "MODULE" {
                            self.prec = 2;
                        }
                    }
                    2 => self.prec = 3,
                    3 => {
                        if text == "with" || text == "WITH" {
                            self.prec = 4;
                        }
                    }
                    _ => return None,
                }
                TokenKind::PlainIdentifier(text)
            }
            Rule::Escaped => {
                if self.prec == 2 {
                    self.prec = 3;
                }
                TokenKind::EscapedIdentifier(&text[1..n - 1])
            }
            Rule::Variable => TokenKind::Variable(&text[1..]),
            Rule::Str => TokenKind::StringLiteral(&text[1..n - 1]),
            Rule::RegexLit => {
                let caps = self.g.rules[6].0.captures(rest).unwrap();
                let body = caps.get(1).unwrap().as_str();
                let flags = caps.get(2).map(|m| RegexFlags::from(m.as_str())).unwrap_or_default();
                TokenKind::RegexLiteral(body, flags)
            }
            Rule::Op(make) => make(),
            Rule::Open(b) => {
                self.stack.push(b);
                match b {
                    Bracket::OpenParen => TokenKind::OpOpenParen,
                    Bracket::OpenSquareBracket => TokenKind::OpOpenSquareBracket,
                    _ => TokenKind::OpOpenBrace,
                }
            }
            Rule::Close(b) => {
                let top = self.stack.pop();
                if top != Some(b.opposite()) {
                    return Some(Err(LexerError::MismatchedBracket {
                        span: p..p + 1,
                        expected: top.map(|t| t.opposite()),
                        found: b,
                    }));
                }
                match b {
                    Bracket::CloseParen => TokenKind::OpCloseParen,
                    Bracket::CloseSquareBracket => TokenKind::OpCloseSquareBracket,
                    _ => TokenKind::OpCloseBrace,
                }
            }
            Rule::Hex => TokenKind::HexIntegerLiteral(&text[2..]),
            Rule::Oct => TokenKind::OctIntegerLiteral(&text[2..]),
            Rule::Bin => TokenKind::BinIntegerLiteral(&text[2..]),
            Rule::Float => TokenKind::FloatLiteral(text),
            Rule::Dec => TokenKind::DecIntegerLiteral(text),
        };
        if cont {
            self.cont = true;
        }
        self.cursor = p + n;
        Some(Ok(Some(Token::new(p..p + n, kind))))
    }
}

const PIECES: &[&str] = &[
    "a", "Z_9", "define", "DEFINE", "module", "MODULE", "with", "WITH", "end", "END", "sender",
    "$v", "`q`", "'s'", "'a\\'", "\"t\\n\"", "b'x'", "b\"\"", "//r//", "//a/b//gix", "//x//q",
    "0x1F", "0x", "0b10_1", "0o7", "0o8", "1_000", "1__0", "1.5e3", "2.", "2..", "3.max", ".5",
    "1e", "7E+2", "(", ")", "[", "]", "{", "}", ",", "::", ":", "+=", "-=", "*=", "×=", "/=",
    "÷=", "%=", "**=", "<<=", ">>=", "&=", "|=", "^=", "~=", "??=", "->>", "<<-", "->", "<-",
    "**", "+", "-", "×", "/", "÷", "%", "~", "!~", "<>", "&&", "||", "==", "=", "!=", "!", "<=",
    ">=", "<<", ">>", "<", ">", "∋", "∌", "⊅", "⊇", "⊃", "?.", "?:", "?", "??", "??.", "&", "|", "^", "..=",
    "..", "*", ".", " ", "  ", "\t", "\n", "\r\n", "\r", "--c\n", "-- x", "\\\n", "\\\r\n ", ";",
    "; ", "\u{a0}", "\u{663}", "\u{2003}", "ñ", "é", "日", "#", "@", "\u{85}",
];

fn next_random(state: &mut u64) -> u64 {
    *state = state.wrapping_mul(6364136223846793005).wrapping_add(1442695040888963407);
    *state >> 33
}

fn compare(g: &Grammar, input: &str) {
    let mut oracle = Oracle { g, s: input, cursor: 0, stack: Vec::new(), cont: false, prec: 0 };
    let mut lexer = Lexer::from(input);
    for _ in 0..200 {
        let expected = match oracle.step() {
            Some(e) => e,
            None => return,
        };
        let actual = lexer.next_token();
        assert_eq!(
            format!("{:?}", actual),
            format!("{:?}", expected),
            "input {:?} at cursor {}",
            input,
            lexer.state.cursor
        );
        assert_eq!(lexer.state.cursor, oracle.cursor, "input {:?}", input);
        assert_eq!(lexer.state.bracket_stack, oracle.stack, "input {:?}", input);
        assert_eq!(lexer.state.continuation_precedent, oracle.cont, "input {:?}", input);
        assert_eq!(lexer.state.module_block_precedent, oracle.prec, "input {:?}", input);
        if !matches!(expected, Ok(Some(_))) {
            return;
        }
    }
}

#[test]
fn test_lexer_agrees_with_regular_expressions() {
    let g = grammar();
    let mut seed: u64 = 0x5eed;
    for _ in 0..20000 {
        let count = 1 + (next_random(&mut seed) % 10) as usize;
        let mut input = String::new();
        for _ in 0..count {
            input.push_str(PIECES[(next_random(&mut seed) as usize) % PIECES.len()]);
        }
        compare(&g, &input);
    }
}

#[test]
fn test_lexer_agrees_on_module_blocks() {
    let g = grammar();
    let mut seed: u64 = 0xb10c;
    for _ in 0..5000 {
        let mut input = String::from("define module m with");
        let count = 1 + (next_random(&mut seed) % 8) as usize;
        for _ in 0..count {
            input.push_str(PIECES[(next_random(&mut seed) as usize) % PIECES.len()]);
        }
        compare(&g, &input);
    }
}

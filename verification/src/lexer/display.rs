//! How tokens, brackets and regular expression flags are written out.

use vstd::prelude::*;
use vstd::utf8::{encode_utf8, is_ascii_chars, is_ascii_chars_encode_utf8};

use super::lexer::Bracket;
use super::token::{flags_value, RegexFlags, TokenKind};

verus! {

/// The letters of the flags set in `bits`, in the order `g`, `i`, `m`, `s`, `u`, `x`.
pub open spec fn flags_display(bits: u8) -> Seq<char> {
    (if bits & 1 != 0 { "g"@ } else { Seq::empty() }) + (if bits & 2 != 0 { "i"@ } else { Seq::empty() })
        + (if bits & 4 != 0 { "m"@ } else { Seq::empty() }) + (if bits & 8 != 0 { "s"@ } else { Seq::empty() })
        + (if bits & 16 != 0 { "u"@ } else { Seq::empty() }) + (if bits & 32 != 0 { "x"@ } else { Seq::empty() })
}

/// How a bracket is written.
pub open spec fn bracket_display(b: Bracket) -> Seq<char> {
    match b {
        Bracket::OpenParen => "("@,
        Bracket::CloseParen => ")"@,
        Bracket::OpenSquareBracket => "["@,
        Bracket::CloseSquareBracket => "]"@,
        Bracket::OpenBrace => "{"@,
        Bracket::CloseBrace => "}"@,
    }
}

/// How a token of kind `k` is written: its text with the marks that the kind adds, or the
/// operator's symbol.
pub open spec fn token_display(k: TokenKind) -> Seq<char> {
    match k {
        TokenKind::Terminator => ";"@,
        TokenKind::OpOpenParen => "("@,
        TokenKind::OpCloseParen => ")"@,
        TokenKind::OpOpenBrace => "{"@,
        TokenKind::OpCloseBrace => "}"@,
        TokenKind::OpOpenSquareBracket => "["@,
        TokenKind::OpCloseSquareBracket => "]"@,
        TokenKind::OpComma => ","@,
        TokenKind::OpScope => "::"@,
        TokenKind::OpColon => ":"@,
        TokenKind::OpAssignPlus => "+="@,
        TokenKind::OpAssignMinus => "-="@,
        TokenKind::OpAssignMul => "×="@,
        TokenKind::OpAssignDiv => "/="@,
        TokenKind::OpAssignMod => "%="@,
        TokenKind::OpAssignPow => "**="@,
        TokenKind::OpAssignShl => "<<="@,
        TokenKind::OpAssignShr => ">>="@,
        TokenKind::OpAssignBitAnd => "&="@,
        TokenKind::OpAssignBitOr => "|="@,
        TokenKind::OpAssignBitXor => "^="@,
        TokenKind::OpAssignBitNot => "~="@,
        TokenKind::OpAssignNullCoalesce => "??="@,
        TokenKind::OpMultiArrowRight => "->>"@,
        TokenKind::OpMultiArrowLeft => "<<-"@,
        TokenKind::OpArrowRight => "->"@,
        TokenKind::OpArrowLeft => "<-"@,
        TokenKind::OpPow => "**"@,
        TokenKind::OpPlus => "+"@,
        TokenKind::OpMinus => "-"@,
        TokenKind::OpMulLexer => "×"@,
        TokenKind::OpDiv => "/"@,
        TokenKind::OpMod => "%"@,
        TokenKind::OpMatchLexer => "~"@,
        TokenKind::OpNotMatchLexer => "!~"@,
        TokenKind::OpSimilarity => "<>"@,
        TokenKind::OpAndLexer => "&&"@,
        TokenKind::OpOrLexer => "||"@,
        TokenKind::OpEq => "=="@,
        TokenKind::OpIsLexer => "="@,
        TokenKind::OpIsNotLexer => "!="@,
        TokenKind::OpNotLexer => "!"@,
        TokenKind::OpLte => "<="@,
        TokenKind::OpGte => ">="@,
        TokenKind::OpLt => "<"@,
        TokenKind::OpGt => ">"@,
        TokenKind::OpContainsLexer => "∋"@,
        TokenKind::OpNotContainsLexer => "∌"@,
        TokenKind::OpContainsNoneLexer => "⊅"@,
        TokenKind::OpContainsAllLexer => "⊇"@,
        TokenKind::OpContainsAnyLexer => "⊃"@,
        TokenKind::OpSafeNav => "??."@,
        TokenKind::OpNullCoalesce => "??"@,
        TokenKind::OpOptional => "?"@,
        TokenKind::OpShl => "<<"@,
        TokenKind::OpShr => ">>"@,
        TokenKind::OpBitAnd => "&"@,
        TokenKind::OpBitOr => "|"@,
        TokenKind::OpBitXor => "^"@,
        TokenKind::OpRangeIncl => "..="@,
        TokenKind::OpRange => ".."@,
        TokenKind::OpStar => "*"@,
        TokenKind::OpDot => "."@,
        TokenKind::PlainIdentifier(s) => s@,
        TokenKind::EscapedIdentifier(s) => "`"@ + s@ + "`"@,
        TokenKind::Variable(s) => "$"@ + s@,
        TokenKind::BinIntegerLiteral(s) => "0b"@ + s@,
        TokenKind::OctIntegerLiteral(s) => "0o"@ + s@,
        TokenKind::HexIntegerLiteral(s) => "0x"@ + s@,
        TokenKind::DecIntegerLiteral(s) => s@,
        TokenKind::FloatLiteral(s) => s@,
        TokenKind::StringLiteral(s) => "'"@ + s@ + "'"@,
        TokenKind::ByteStringLiteral(s) => "b'"@ + s@ + "'"@,
        TokenKind::ModuleBlock(s) => s@,
        TokenKind::RegexLiteral(s, f) => "//"@ + s@ + "//"@ + flags_display(f.bits),
    }
}

/// The letter of a flag, or nothing when the flag is not set.
spec fn flag_piece(set: bool, letter: char) -> Seq<char> {
    if set {
        seq![letter]
    } else {
        Seq::empty()
    }
}

proof fn lemma_piece_contains(set: bool, letter: char, c: char)
    ensures
        flag_piece(set, letter).contains(c) <==> set && c == letter,
{
    if set && c == letter {
        assert(flag_piece(set, letter)[0] == c);
    }
}

/// Whether `c` is the letter of a flag that is set in `bits`.
spec fn set_letter(bits: u8, c: char) -> bool {
    ||| bits & 1 != 0 && c == 'g'
    ||| bits & 2 != 0 && c == 'i'
    ||| bits & 4 != 0 && c == 'm'
    ||| bits & 8 != 0 && c == 's'
    ||| bits & 16 != 0 && c == 'u'
    ||| bits & 32 != 0 && c == 'x'
}

proof fn lemma_display_contains(bits: u8, c: char)
    ensures
        flags_display(bits).contains(c) <==> set_letter(bits, c),
{
    broadcast use vstd::seq_lib::lemma_seq_concat_contains_all_elements;

    reveal_strlit("g");
    reveal_strlit("i");
    reveal_strlit("m");
    reveal_strlit("s");
    reveal_strlit("u");
    reveal_strlit("x");
    let pg = flag_piece(bits & 1 != 0, 'g');
    let pi = flag_piece(bits & 2 != 0, 'i');
    let pm = flag_piece(bits & 4 != 0, 'm');
    let ps = flag_piece(bits & 8 != 0, 's');
    let pu = flag_piece(bits & 16 != 0, 'u');
    let px = flag_piece(bits & 32 != 0, 'x');
    assert(flags_display(bits) =~= pg + pi + pm + ps + pu + px);
    lemma_piece_contains(bits & 1 != 0, 'g', c);
    lemma_piece_contains(bits & 2 != 0, 'i', c);
    lemma_piece_contains(bits & 4 != 0, 'm', c);
    lemma_piece_contains(bits & 8 != 0, 's', c);
    lemma_piece_contains(bits & 16 != 0, 'u', c);
    lemma_piece_contains(bits & 32 != 0, 'x', c);
}

proof fn lemma_ascii_encoding_contains(d: Seq<char>, c: char)
    requires
        is_ascii_chars(d),
        '\0' <= c <= '\u{7f}',
    ensures
        encode_utf8(d).contains(c as u8) <==> d.contains(c),
{
    is_ascii_chars_encode_utf8(d);
    let e = encode_utf8(d);
    if e.contains(c as u8) {
        let i = choose|i: int| 0 <= i < e.len() && e[i] == c as u8;
        assert(d[i] as u8 == c as u8);
        assert('\0' <= d[i] <= '\u{7f}');
        assert(d[i] == c);
    }
    if d.contains(c) {
        let i = choose|i: int| 0 <= i < d.len() && d[i] == c;
        assert(e[i] == c as u8);
    }
}

/// Reading back the letters of written flags gives the same flags, for the six flags that exist.
pub proof fn lemma_flags_round_trip(bits: u8)
    requires
        bits < 64,
    ensures
        flags_value(encode_utf8(flags_display(bits))) == bits,
{
    let d = flags_display(bits);
    assert(is_ascii_chars(d)) by {
        assert forall|i: int| 0 <= i < d.len() implies '\0' <= #[trigger] d[i] <= '\u{7f}' by {
            assert(d.contains(d[i]));
            lemma_display_contains(bits, d[i]);
        }
    }
    let e = encode_utf8(d);
    lemma_display_contains(bits, 'g');
    lemma_display_contains(bits, 'i');
    lemma_display_contains(bits, 'm');
    lemma_display_contains(bits, 's');
    lemma_display_contains(bits, 'u');
    lemma_display_contains(bits, 'x');
    lemma_ascii_encoding_contains(d, 'g');
    lemma_ascii_encoding_contains(d, 'i');
    lemma_ascii_encoding_contains(d, 'm');
    lemma_ascii_encoding_contains(d, 's');
    lemma_ascii_encoding_contains(d, 'u');
    lemma_ascii_encoding_contains(d, 'x');
    assert(('g' as u8) == 0x67 && ('i' as u8) == 0x69 && ('m' as u8) == 0x6d && ('s' as u8) == 0x73
        && ('u' as u8) == 0x75 && ('x' as u8) == 0x78);
    assert(((if bits & 1 != 0 { 1u8 } else { 0 }) + (if bits & 2 != 0 { 2u8 } else { 0 }) + (
    if bits & 4 != 0 { 4u8 } else { 0 }) + (if bits & 8 != 0 { 8u8 } else { 0 }) + (if bits & 16
        != 0 { 16u8 } else { 0 }) + (if bits & 32 != 0 { 32u8 } else { 0 })) == bits) by (bit_vector)
        requires
            bits < 64,
    ;
}

impl RegexFlags {
    /// The letters of the set flags.
    #[allow(clippy::inherent_to_string)]
    pub fn to_string(&self) -> (r: String)
        ensures
            r@ == flags_display(self.bits),
    {
        let mut out = String::new();
        if self.bits & 1 != 0 {
            out.append("g");
        }
        if self.bits & 2 != 0 {
            out.append("i");
        }
        if self.bits & 4 != 0 {
            out.append("m");
        }
        if self.bits & 8 != 0 {
            out.append("s");
        }
        if self.bits & 16 != 0 {
            out.append("u");
        }
        if self.bits & 32 != 0 {
            out.append("x");
        }
        proof {
            assert(out@ =~= flags_display(self.bits));
        }
        out
    }
}

impl Bracket {
    /// How the bracket is written.
    #[allow(clippy::inherent_to_string)]
    pub fn to_string(&self) -> (r: String)
        ensures
            r@ == bracket_display(*self),
    {
        let mut out = String::new();
        match self {
            Bracket::OpenParen => out.append("("),
            Bracket::CloseParen => out.append(")"),
            Bracket::OpenSquareBracket => out.append("["),
            Bracket::CloseSquareBracket => out.append("]"),
            Bracket::OpenBrace => out.append("{"),
            Bracket::CloseBrace => out.append("}"),
        }
        proof {
            assert(out@ =~= bracket_display(*self));
        }
        out
    }
}

impl<'a> TokenKind<'a> {
    /// How the token is written.
    #[allow(clippy::inherent_to_string)]
    pub fn to_string(&self) -> (r: String)
        ensures
            r@ == token_display(*self),
    {
        let mut out = String::new();
        match self {
            TokenKind::Terminator => out.append(";"),
            TokenKind::OpOpenParen => out.append("("),
            TokenKind::OpCloseParen => out.append(")"),
            TokenKind::OpOpenBrace => out.append("{"),
            TokenKind::OpCloseBrace => out.append("}"),
            TokenKind::OpOpenSquareBracket => out.append("["),
            TokenKind::OpCloseSquareBracket => out.append("]"),
            TokenKind::OpComma => out.append(","),
            TokenKind::OpScope => out.append("::"),
            TokenKind::OpColon => out.append(":"),
            TokenKind::OpAssignPlus => out.append("+="),
            TokenKind::OpAssignMinus => out.append("-="),
            TokenKind::OpAssignMul => out.append("×="),
            TokenKind::OpAssignDiv => out.append("/="),
            TokenKind::OpAssignMod => out.append("%="),
            TokenKind::OpAssignPow => out.append("**="),
            TokenKind::OpAssignShl => out.append("<<="),
            TokenKind::OpAssignShr => out.append(">>="),
            TokenKind::OpAssignBitAnd => out.append("&="),
            TokenKind::OpAssignBitOr => out.append("|="),
            TokenKind::OpAssignBitXor => out.append("^="),
            TokenKind::OpAssignBitNot => out.append("~="),
            TokenKind::OpAssignNullCoalesce => out.append("??="),
            TokenKind::OpMultiArrowRight => out.append("->>"),
            TokenKind::OpMultiArrowLeft => out.append("<<-"),
            TokenKind::OpArrowRight => out.append("->"),
            TokenKind::OpArrowLeft => out.append("<-"),
            TokenKind::OpPow => out.append("**"),
            TokenKind::OpPlus => out.append("+"),
            TokenKind::OpMinus => out.append("-"),
            TokenKind::OpMulLexer => out.append("×"),
            TokenKind::OpDiv => out.append("/"),
            TokenKind::OpMod => out.append("%"),
            TokenKind::OpMatchLexer => out.append("~"),
            TokenKind::OpNotMatchLexer => out.append("!~"),
            TokenKind::OpSimilarity => out.append("<>"),
            TokenKind::OpAndLexer => out.append("&&"),
            TokenKind::OpOrLexer => out.append("||"),
            TokenKind::OpEq => out.append("=="),
            TokenKind::OpIsLexer => out.append("="),
            TokenKind::OpIsNotLexer => out.append("!="),
            TokenKind::OpNotLexer => out.append("!"),
            TokenKind::OpLte => out.append("<="),
            TokenKind::OpGte => out.append(">="),
            TokenKind::OpLt => out.append("<"),
            TokenKind::OpGt => out.append(">"),
            TokenKind::OpContainsLexer => out.append("∋"),
            TokenKind::OpNotContainsLexer => out.append("∌"),
            TokenKind::OpContainsNoneLexer => out.append("⊅"),
            TokenKind::OpContainsAllLexer => out.append("⊇"),
            TokenKind::OpContainsAnyLexer => out.append("⊃"),
            TokenKind::OpSafeNav => out.append("??."),
            TokenKind::OpNullCoalesce => out.append("??"),
            TokenKind::OpOptional => out.append("?"),
            TokenKind::OpShl => out.append("<<"),
            TokenKind::OpShr => out.append(">>"),
            TokenKind::OpBitAnd => out.append("&"),
            TokenKind::OpBitOr => out.append("|"),
            TokenKind::OpBitXor => out.append("^"),
            TokenKind::OpRangeIncl => out.append("..="),
            TokenKind::OpRange => out.append(".."),
            TokenKind::OpStar => out.append("*"),
            TokenKind::OpDot => out.append("."),
            TokenKind::PlainIdentifier(s) => out.append(s),
            TokenKind::EscapedIdentifier(s) => {
                out.append("`");
                out.append(s);
                out.append("`");
            },
            TokenKind::Variable(s) => {
                out.append("$");
                out.append(s);
            },
            TokenKind::BinIntegerLiteral(s) => {
                out.append("0b");
                out.append(s);
            },
            TokenKind::OctIntegerLiteral(s) => {
                out.append("0o");
                out.append(s);
            },
            TokenKind::HexIntegerLiteral(s) => {
                out.append("0x");
                out.append(s);
            },
            TokenKind::DecIntegerLiteral(s) => out.append(s),
            TokenKind::FloatLiteral(s) => out.append(s),
            TokenKind::StringLiteral(s) => {
                out.append("'");
                out.append(s);
                out.append("'");
            },
            TokenKind::ByteStringLiteral(s) => {
                out.append("b'");
                out.append(s);
                out.append("'");
            },
            TokenKind::ModuleBlock(s) => out.append(s),
            TokenKind::RegexLiteral(s, f) => {
                out.append("//");
                out.append(s);
                out.append("//");
                let fl = f.to_string();
                out.append(fl.as_str());
            },
        }
        proof {
            assert(out@ =~= token_display(*self));
        }
        out
    }
}

} // verus!

//! Tokens produced by the lexer.

use vstd::prelude::*;
use vstd::string::*;

use crate::Span;

verus! {

/// The kind of a token without its text: which rule of the lexical grammar produced it.
#[derive(Debug, Clone, Copy, PartialEq, Eq, Structural)]
pub enum TokenTag {
    /// Terminator
    Terminator,
    /// A plain identifier like "foo".
    PlainIdentifier,
    /// An escaped identifier like "`foo`".
    EscapedIdentifier,
    /// A variable.
    Variable,
    /// A binary integer literal.
    BinIntegerLiteral,
    /// An octal integer literal.
    OctIntegerLiteral,
    /// A hexadecimal integer literal.
    HexIntegerLiteral,
    /// A decimal integer literal.
    DecIntegerLiteral,
    /// A floating-point literal.
    FloatLiteral,
    /// A string literal.
    StringLiteral,
    /// A byte string literal.
    ByteStringLiteral,
    /// A regular expression literal.
    RegexLiteral,
    /// A module block.
    ModuleBlock,
    /// "(" bracket.
    OpOpenParen,
    /// ")" bracket.
    OpCloseParen,
    /// "[" bracket.
    OpOpenSquareBracket,
    /// "]" bracket.
    OpCloseSquareBracket,
    /// "{" bracket.
    OpOpenBrace,
    /// "}" bracket.
    OpCloseBrace,
    /// "," operator.
    OpComma,
    /// "::" operator.
    OpScope,
    /// ":" operator.
    OpColon,
    /// "+=" operator.
    OpAssignPlus,
    /// "-=" operator.
    OpAssignMinus,
    /// "*=" operator.
    OpAssignMul,
    /// "/=" operator.
    OpAssignDiv,
    /// "%=" operator.
    OpAssignMod,
    /// "**=" operator.
    OpAssignPow,
    /// "<<=" operator.
    OpAssignShl,
    /// ">>=" operator.
    OpAssignShr,
    /// "&=" operator.
    OpAssignBitAnd,
    /// "|=" operator.
    OpAssignBitOr,
    /// "^=" operator.
    OpAssignBitXor,
    /// "~=" operator.
    OpAssignBitNot,
    /// "??=" operator.
    OpAssignNullCoalesce,
    /// "->>" operator.
    OpMultiArrowRight,
    /// "<<-" operator.
    OpMultiArrowLeft,
    /// "->" operator.
    OpArrowRight,
    /// "<-" operator.
    OpArrowLeft,
    /// "**" operator.
    OpPow,
    /// "+" operator.
    OpPlus,
    /// "-" operator.
    OpMinus,
    /// "×" operator.
    OpMulLexer,
    /// "/" operator.
    OpDiv,
    /// "%" operator.
    OpMod,
    /// "~" operator.
    OpMatchLexer,
    /// "!~" operator.
    OpNotMatchLexer,
    /// "<>" operator.
    OpSimilarity,
    /// "&&" operator.
    OpAndLexer,
    /// "||" operator.
    OpOrLexer,
    /// "==" operator.
    OpEq,
    /// "=" operator.
    OpIsLexer,
    /// "!=" operator.
    OpIsNotLexer,
    /// "!" operator.
    OpNotLexer,
    /// "<=" operator.
    OpLte,
    /// ">=" operator.
    OpGte,
    /// "<<" operator.
    OpShl,
    /// ">>" operator.
    OpShr,
    /// "<" operator.
    OpLt,
    /// ">" operator.
    OpGt,
    /// "∋" operator.
    OpContainsLexer,
    /// "∌" operator.
    OpNotContainsLexer,
    /// "⊅" operator.
    OpContainsNoneLexer,
    /// "⊇" operator.
    OpContainsAllLexer,
    /// "⊃" operator.
    OpContainsAnyLexer,
    /// "?." operator.
    OpSafeNav,
    /// "?:" operator.
    OpNullCoalesce,
    /// "?" operator.
    OpOptional,
    /// "&" operator.
    OpBitAnd,
    /// "|" operator.
    OpBitOr,
    /// "^" operator.
    OpBitXor,
    /// "..=" operator.
    OpRangeIncl,
    /// ".." operator.
    OpRange,
    /// "*" operator.
    OpStar,
    /// "." operator.
    OpDot,
}

/// A token produced by the lexer.
#[derive(Debug, PartialEq, Eq)]
pub struct Token<'a> {
    /// The span of the token in the input string.
    pub span: Span,
    /// The kind of the token.
    pub kind: TokenKind<'a>,
}

/// The kind of a token.
#[derive(Debug, Clone, Copy, PartialEq, Eq)]
pub enum TokenKind<'a> {
    /// Terminator
    Terminator,
    /// A plain identifier like "foo".
    PlainIdentifier(&'a str),
    /// An escaped identifier like "`foo`".
    EscapedIdentifier(&'a str),
    /// A variable.
    Variable(&'a str),
    /// A binary integer literal.
    BinIntegerLiteral(&'a str),
    /// An octal integer literal.
    OctIntegerLiteral(&'a str),
    /// A hexadecimal integer literal.
    HexIntegerLiteral(&'a str),
    /// A decimal integer literal.
    DecIntegerLiteral(&'a str),
    /// A floating-point literal.
    FloatLiteral(&'a str),
    /// A string literal.
    StringLiteral(&'a str),
    /// A byte string literal.
    ByteStringLiteral(&'a str),
    /// A regular expression literal.
    RegexLiteral(&'a str, RegexFlags),
    /// A module block.
    ModuleBlock(&'a str),
    /// "(" bracket.
    OpOpenParen,
    /// ")" bracket.
    OpCloseParen,
    /// "[" bracket.
    OpOpenSquareBracket,
    /// "]" bracket.
    OpCloseSquareBracket,
    /// "{" bracket.
    OpOpenBrace,
    /// "}" bracket.
    OpCloseBrace,
    /// "," operator.
    OpComma,
    /// "::" operator.
    OpScope,
    /// ":" operator.
    OpColon,
    /// "+=" operator.
    OpAssignPlus,
    /// "-=" operator.
    OpAssignMinus,
    /// "*=" operator.
    OpAssignMul,
    /// "/=" operator.
    OpAssignDiv,
    /// "%=" operator.
    OpAssignMod,
    /// "**=" operator.
    OpAssignPow,
    /// "<<=" operator.
    OpAssignShl,
    /// ">>=" operator.
    OpAssignShr,
    /// "&=" operator.
    OpAssignBitAnd,
    /// "|=" operator.
    OpAssignBitOr,
    /// "^=" operator.
    OpAssignBitXor,
    /// "~=" operator.
    OpAssignBitNot,
    /// "??=" operator.
    OpAssignNullCoalesce,
    /// "->>" operator.
    OpMultiArrowRight,
    /// "<<-" operator.
    OpMultiArrowLeft,
    /// "->" operator.
    OpArrowRight,
    /// "<-" operator.
    OpArrowLeft,
    /// "**" operator.
    OpPow,
    /// "+" operator.
    OpPlus,
    /// "-" operator.
    OpMinus,
    /// "×" operator.
    OpMulLexer,
    /// "/" operator.
    OpDiv,
    /// "%" operator.
    OpMod,
    /// "~" operator.
    OpMatchLexer,
    /// "!~" operator.
    OpNotMatchLexer,
    /// "<>" operator.
    OpSimilarity,
    /// "&&" operator.
    OpAndLexer,
    /// "||" operator.
    OpOrLexer,
    /// "==" operator.
    OpEq,
    /// "=" operator.
    OpIsLexer,
    /// "!=" operator.
    OpIsNotLexer,
    /// "!" operator.
    OpNotLexer,
    /// "<=" operator.
    OpLte,
    /// ">=" operator.
    OpGte,
    /// "<<" operator.
    OpShl,
    /// ">>" operator.
    OpShr,
    /// "<" operator.
    OpLt,
    /// ">" operator.
    OpGt,
    /// "∋" operator.
    OpContainsLexer,
    /// "∌" operator.
    OpNotContainsLexer,
    /// "⊅" operator.
    OpContainsNoneLexer,
    /// "⊇" operator.
    OpContainsAllLexer,
    /// "⊃" operator.
    OpContainsAnyLexer,
    /// "?." operator.
    OpSafeNav,
    /// "?:" operator.
    OpNullCoalesce,
    /// "?" operator.
    OpOptional,
    /// "&" operator.
    OpBitAnd,
    /// "|" operator.
    OpBitOr,
    /// "^" operator.
    OpBitXor,
    /// "..=" operator.
    OpRangeIncl,
    /// ".." operator.
    OpRange,
    /// "*" operator.
    OpStar,
    /// "." operator.
    OpDot,
}

/// Flags of a regular expression literal, one bit each: `g` (1), `i` (2), `m` (4), `s` (8),
/// `u` (16) and `x` (32).
#[derive(Debug, Clone, Copy, PartialEq, Eq)]
pub struct RegexFlags {
    /// The set bits.
    pub bits: u8,
}

/// The bits of the flags named in `f`: `g` 1, `i` 2, `m` 4, `s` 8, `u` 16, `x` 32.
pub open spec fn flags_value(f: Seq<u8>) -> u8 {
    ((if f.contains(0x67) { 1int } else { 0 }) + (if f.contains(0x69) { 2int } else { 0 }) + (if f.contains(
        0x6d,
    ) { 4int } else { 0 }) + (if f.contains(0x73) { 8int } else { 0 }) + (if f.contains(0x75) { 16int } else { 0 }) + (if f.contains(0x78) { 32int } else { 0 })) as u8
}

fn has_byte(b: &[u8], x: u8) -> (r: bool)
    ensures
        r == b@.contains(x),
{
    let mut i: usize = 0;
    while i < b.len()
        invariant
            0 <= i <= b@.len(),
            forall|k: int| 0 <= k < i ==> b@[k] != x,
        decreases b@.len() - i,
    {
        if b[i] == x {
            return true;
        }
        i = i + 1;
    }
    false
}

impl RegexFlags {
    /// The bit of the global flag, `g`.
    pub const G_GLOBAL: u8 = 1;

    /// The bit of the ignore-case flag, `i`.
    pub const I_IGNORE_CASE: u8 = 2;

    /// The bit of the multiline flag, `m`.
    pub const M_MULTILINE: u8 = 4;

    /// The bit of the single-line flag, `s`.
    pub const S_SINGLELINE: u8 = 8;

    /// The bit of the unicode flag, `u`.
    pub const U_UNICODE: u8 = 16;

    /// The bit of the extended flag, `x`.
    pub const X_EXTENDED: u8 = 32;

    /// The flags with the given bits.
    pub fn from_bits(bits: u8) -> (f: RegexFlags)
        ensures
            f.bits == bits,
    {
        RegexFlags { bits }
    }

    /// No flags.
    pub fn empty() -> (f: RegexFlags)
        ensures
            f.bits == 0,
    {
        RegexFlags { bits: 0 }
    }

    /// The set bits.
    pub fn bits(&self) -> (r: u8)
        ensures
            r == self.bits,
    {
        self.bits
    }

    /// All the flags of `other` are set.
    pub fn contains(&self, other: RegexFlags) -> (r: bool)
        ensures
            r == (self.bits & other.bits == other.bits),
    {
        self.bits & other.bits == other.bits
    }

    /// Sets (`value`) or clears the flags of `other`.
    pub fn set(&mut self, other: RegexFlags, value: bool)
        ensures
            final(self).bits == (if value {
                old(self).bits | other.bits
            } else {
                old(self).bits & !other.bits
            }),
    {
        if value {
            self.bits = self.bits | other.bits;
        } else {
            self.bits = self.bits & !other.bits;
        }
    }
}

impl<'a> From<&'a str> for RegexFlags {
    /// The flags named by the letters of `s`: `g` global, `i` ignore case, `m` multiline,
    /// `s` single line, `u` unicode, `x` extended; other letters are ignored.
    fn from(s: &'a str) -> (f: RegexFlags)
        ensures
            f.bits == flags_value(s.spec_bytes()),
    {
        let b = s.as_bytes();
        let mut bits: u8 = 0;
        if has_byte(b, 0x67) {
            bits = bits + 1;
        }
        if has_byte(b, 0x69) {
            bits = bits + 2;
        }
        if has_byte(b, 0x6d) {
            bits = bits + 4;
        }
        if has_byte(b, 0x73) {
            bits = bits + 8;
        }
        if has_byte(b, 0x75) {
            bits = bits + 16;
        }
        if has_byte(b, 0x78) {
            bits = bits + 32;
        }
        RegexFlags { bits }
    }
}

impl<'a> vstd::std_specs::convert::FromSpecImpl<&'a str> for RegexFlags {
    open spec fn obeys_from_spec() -> bool {
        true
    }

    open spec fn from_spec(s: &'a str) -> RegexFlags {
        RegexFlags { bits: flags_value(s.spec_bytes()) }
    }
}

impl Default for RegexFlags {
    /// No flags.
    fn default() -> (f: RegexFlags)
        ensures
            f.bits == 0,
    {
        RegexFlags { bits: 0 }
    }
}

impl<'a> TokenKind<'a> {
    /// The grammar rule of this kind.
    pub open spec fn tag(&self) -> TokenTag {
        match self {
            TokenKind::Terminator => TokenTag::Terminator,
            TokenKind::PlainIdentifier(_) => TokenTag::PlainIdentifier,
            TokenKind::EscapedIdentifier(_) => TokenTag::EscapedIdentifier,
            TokenKind::Variable(_) => TokenTag::Variable,
            TokenKind::BinIntegerLiteral(_) => TokenTag::BinIntegerLiteral,
            TokenKind::OctIntegerLiteral(_) => TokenTag::OctIntegerLiteral,
            TokenKind::HexIntegerLiteral(_) => TokenTag::HexIntegerLiteral,
            TokenKind::DecIntegerLiteral(_) => TokenTag::DecIntegerLiteral,
            TokenKind::FloatLiteral(_) => TokenTag::FloatLiteral,
            TokenKind::StringLiteral(_) => TokenTag::StringLiteral,
            TokenKind::ByteStringLiteral(_) => TokenTag::ByteStringLiteral,
            TokenKind::RegexLiteral(_, _) => TokenTag::RegexLiteral,
            TokenKind::ModuleBlock(_) => TokenTag::ModuleBlock,
            TokenKind::OpOpenParen => TokenTag::OpOpenParen,
            TokenKind::OpCloseParen => TokenTag::OpCloseParen,
            TokenKind::OpOpenSquareBracket => TokenTag::OpOpenSquareBracket,
            TokenKind::OpCloseSquareBracket => TokenTag::OpCloseSquareBracket,
            TokenKind::OpOpenBrace => TokenTag::OpOpenBrace,
            TokenKind::OpCloseBrace => TokenTag::OpCloseBrace,
            TokenKind::OpComma => TokenTag::OpComma,
            TokenKind::OpScope => TokenTag::OpScope,
            TokenKind::OpColon => TokenTag::OpColon,
            TokenKind::OpAssignPlus => TokenTag::OpAssignPlus,
            TokenKind::OpAssignMinus => TokenTag::OpAssignMinus,
            TokenKind::OpAssignMul => TokenTag::OpAssignMul,
            TokenKind::OpAssignDiv => TokenTag::OpAssignDiv,
            TokenKind::OpAssignMod => TokenTag::OpAssignMod,
            TokenKind::OpAssignPow => TokenTag::OpAssignPow,
            TokenKind::OpAssignShl => TokenTag::OpAssignShl,
            TokenKind::OpAssignShr => TokenTag::OpAssignShr,
            TokenKind::OpAssignBitAnd => TokenTag::OpAssignBitAnd,
            TokenKind::OpAssignBitOr => TokenTag::OpAssignBitOr,
            TokenKind::OpAssignBitXor => TokenTag::OpAssignBitXor,
            TokenKind::OpAssignBitNot => TokenTag::OpAssignBitNot,
            TokenKind::OpAssignNullCoalesce => TokenTag::OpAssignNullCoalesce,
            TokenKind::OpMultiArrowRight => TokenTag::OpMultiArrowRight,
            TokenKind::OpMultiArrowLeft => TokenTag::OpMultiArrowLeft,
            TokenKind::OpArrowRight => TokenTag::OpArrowRight,
            TokenKind::OpArrowLeft => TokenTag::OpArrowLeft,
            TokenKind::OpPow => TokenTag::OpPow,
            TokenKind::OpPlus => TokenTag::OpPlus,
            TokenKind::OpMinus => TokenTag::OpMinus,
            TokenKind::OpMulLexer => TokenTag::OpMulLexer,
            TokenKind::OpDiv => TokenTag::OpDiv,
            TokenKind::OpMod => TokenTag::OpMod,
            TokenKind::OpMatchLexer => TokenTag::OpMatchLexer,
            TokenKind::OpNotMatchLexer => TokenTag::OpNotMatchLexer,
            TokenKind::OpSimilarity => TokenTag::OpSimilarity,
            TokenKind::OpAndLexer => TokenTag::OpAndLexer,
            TokenKind::OpOrLexer => TokenTag::OpOrLexer,
            TokenKind::OpEq => TokenTag::OpEq,
            TokenKind::OpIsLexer => TokenTag::OpIsLexer,
            TokenKind::OpIsNotLexer => TokenTag::OpIsNotLexer,
            TokenKind::OpNotLexer => TokenTag::OpNotLexer,
            TokenKind::OpLte => TokenTag::OpLte,
            TokenKind::OpGte => TokenTag::OpGte,
            TokenKind::OpShl => TokenTag::OpShl,
            TokenKind::OpShr => TokenTag::OpShr,
            TokenKind::OpLt => TokenTag::OpLt,
            TokenKind::OpGt => TokenTag::OpGt,
            TokenKind::OpContainsLexer => TokenTag::OpContainsLexer,
            TokenKind::OpNotContainsLexer => TokenTag::OpNotContainsLexer,
            TokenKind::OpContainsNoneLexer => TokenTag::OpContainsNoneLexer,
            TokenKind::OpContainsAllLexer => TokenTag::OpContainsAllLexer,
            TokenKind::OpContainsAnyLexer => TokenTag::OpContainsAnyLexer,
            TokenKind::OpSafeNav => TokenTag::OpSafeNav,
            TokenKind::OpNullCoalesce => TokenTag::OpNullCoalesce,
            TokenKind::OpOptional => TokenTag::OpOptional,
            TokenKind::OpBitAnd => TokenTag::OpBitAnd,
            TokenKind::OpBitOr => TokenTag::OpBitOr,
            TokenKind::OpBitXor => TokenTag::OpBitXor,
            TokenKind::OpRangeIncl => TokenTag::OpRangeIncl,
            TokenKind::OpRange => TokenTag::OpRange,
            TokenKind::OpStar => TokenTag::OpStar,
            TokenKind::OpDot => TokenTag::OpDot,
        }
    }

    /// The text that this kind carries, for the kinds that carry text.
    pub fn text_of(&self) -> (r: Option<&'a str>)
        ensures
            r matches Some(s) ==> s.spec_bytes() == self.text(),
            r is Some <==> tag_has_text(self.tag()),
    {
        match self {
            TokenKind::PlainIdentifier(s) => Some(*s),
            TokenKind::EscapedIdentifier(s) => Some(*s),
            TokenKind::Variable(s) => Some(*s),
            TokenKind::BinIntegerLiteral(s) => Some(*s),
            TokenKind::OctIntegerLiteral(s) => Some(*s),
            TokenKind::HexIntegerLiteral(s) => Some(*s),
            TokenKind::DecIntegerLiteral(s) => Some(*s),
            TokenKind::FloatLiteral(s) => Some(*s),
            TokenKind::StringLiteral(s) => Some(*s),
            TokenKind::ByteStringLiteral(s) => Some(*s),
            TokenKind::RegexLiteral(s, _) => Some(*s),
            TokenKind::ModuleBlock(s) => Some(*s),
            _ => None,
        }
    }

    /// The regular expression flags that this kind carries, as bits; 0 for other kinds.
    pub fn flag_bits_of(&self) -> (r: u8)
        ensures
            r == self.flag_bits(),
    {
        match self {
            TokenKind::RegexLiteral(_, f) => f.bits(),
            _ => 0,
        }
    }

    /// The grammar rule of this kind.
    pub fn tag_of(&self) -> (t: TokenTag)
        ensures
            t == self.tag(),
    {
        match self {
            TokenKind::Terminator => TokenTag::Terminator,
            TokenKind::PlainIdentifier(_) => TokenTag::PlainIdentifier,
            TokenKind::EscapedIdentifier(_) => TokenTag::EscapedIdentifier,
            TokenKind::Variable(_) => TokenTag::Variable,
            TokenKind::BinIntegerLiteral(_) => TokenTag::BinIntegerLiteral,
            TokenKind::OctIntegerLiteral(_) => TokenTag::OctIntegerLiteral,
            TokenKind::HexIntegerLiteral(_) => TokenTag::HexIntegerLiteral,
            TokenKind::DecIntegerLiteral(_) => TokenTag::DecIntegerLiteral,
            TokenKind::FloatLiteral(_) => TokenTag::FloatLiteral,
            TokenKind::StringLiteral(_) => TokenTag::StringLiteral,
            TokenKind::ByteStringLiteral(_) => TokenTag::ByteStringLiteral,
            TokenKind::RegexLiteral(_, _) => TokenTag::RegexLiteral,
            TokenKind::ModuleBlock(_) => TokenTag::ModuleBlock,
            TokenKind::OpOpenParen => TokenTag::OpOpenParen,
            TokenKind::OpCloseParen => TokenTag::OpCloseParen,
            TokenKind::OpOpenSquareBracket => TokenTag::OpOpenSquareBracket,
            TokenKind::OpCloseSquareBracket => TokenTag::OpCloseSquareBracket,
            TokenKind::OpOpenBrace => TokenTag::OpOpenBrace,
            TokenKind::OpCloseBrace => TokenTag::OpCloseBrace,
            TokenKind::OpComma => TokenTag::OpComma,
            TokenKind::OpScope => TokenTag::OpScope,
            TokenKind::OpColon => TokenTag::OpColon,
            TokenKind::OpAssignPlus => TokenTag::OpAssignPlus,
            TokenKind::OpAssignMinus => TokenTag::OpAssignMinus,
            TokenKind::OpAssignMul => TokenTag::OpAssignMul,
            TokenKind::OpAssignDiv => TokenTag::OpAssignDiv,
            TokenKind::OpAssignMod => TokenTag::OpAssignMod,
            TokenKind::OpAssignPow => TokenTag::OpAssignPow,
            TokenKind::OpAssignShl => TokenTag::OpAssignShl,
            TokenKind::OpAssignShr => TokenTag::OpAssignShr,
            TokenKind::OpAssignBitAnd => TokenTag::OpAssignBitAnd,
            TokenKind::OpAssignBitOr => TokenTag::OpAssignBitOr,
            TokenKind::OpAssignBitXor => TokenTag::OpAssignBitXor,
            TokenKind::OpAssignBitNot => TokenTag::OpAssignBitNot,
            TokenKind::OpAssignNullCoalesce => TokenTag::OpAssignNullCoalesce,
            TokenKind::OpMultiArrowRight => TokenTag::OpMultiArrowRight,
            TokenKind::OpMultiArrowLeft => TokenTag::OpMultiArrowLeft,
            TokenKind::OpArrowRight => TokenTag::OpArrowRight,
            TokenKind::OpArrowLeft => TokenTag::OpArrowLeft,
            TokenKind::OpPow => TokenTag::OpPow,
            TokenKind::OpPlus => TokenTag::OpPlus,
            TokenKind::OpMinus => TokenTag::OpMinus,
            TokenKind::OpMulLexer => TokenTag::OpMulLexer,
            TokenKind::OpDiv => TokenTag::OpDiv,
            TokenKind::OpMod => TokenTag::OpMod,
            TokenKind::OpMatchLexer => TokenTag::OpMatchLexer,
            TokenKind::OpNotMatchLexer => TokenTag::OpNotMatchLexer,
            TokenKind::OpSimilarity => TokenTag::OpSimilarity,
            TokenKind::OpAndLexer => TokenTag::OpAndLexer,
            TokenKind::OpOrLexer => TokenTag::OpOrLexer,
            TokenKind::OpEq => TokenTag::OpEq,
            TokenKind::OpIsLexer => TokenTag::OpIsLexer,
            TokenKind::OpIsNotLexer => TokenTag::OpIsNotLexer,
            TokenKind::OpNotLexer => TokenTag::OpNotLexer,
            TokenKind::OpLte => TokenTag::OpLte,
            TokenKind::OpGte => TokenTag::OpGte,
            TokenKind::OpShl => TokenTag::OpShl,
            TokenKind::OpShr => TokenTag::OpShr,
            TokenKind::OpLt => TokenTag::OpLt,
            TokenKind::OpGt => TokenTag::OpGt,
            TokenKind::OpContainsLexer => TokenTag::OpContainsLexer,
            TokenKind::OpNotContainsLexer => TokenTag::OpNotContainsLexer,
            TokenKind::OpContainsNoneLexer => TokenTag::OpContainsNoneLexer,
            TokenKind::OpContainsAllLexer => TokenTag::OpContainsAllLexer,
            TokenKind::OpContainsAnyLexer => TokenTag::OpContainsAnyLexer,
            TokenKind::OpSafeNav => TokenTag::OpSafeNav,
            TokenKind::OpNullCoalesce => TokenTag::OpNullCoalesce,
            TokenKind::OpOptional => TokenTag::OpOptional,
            TokenKind::OpBitAnd => TokenTag::OpBitAnd,
            TokenKind::OpBitOr => TokenTag::OpBitOr,
            TokenKind::OpBitXor => TokenTag::OpBitXor,
            TokenKind::OpRangeIncl => TokenTag::OpRangeIncl,
            TokenKind::OpRange => TokenTag::OpRange,
            TokenKind::OpStar => TokenTag::OpStar,
            TokenKind::OpDot => TokenTag::OpDot,
        }
    }

    /// The bytes of the text that this kind carries; empty for kinds without text.
    pub open spec fn text(&self) -> Seq<u8> {
        match self {
            TokenKind::PlainIdentifier(s) => s.spec_bytes(),
            TokenKind::EscapedIdentifier(s) => s.spec_bytes(),
            TokenKind::Variable(s) => s.spec_bytes(),
            TokenKind::BinIntegerLiteral(s) => s.spec_bytes(),
            TokenKind::OctIntegerLiteral(s) => s.spec_bytes(),
            TokenKind::HexIntegerLiteral(s) => s.spec_bytes(),
            TokenKind::DecIntegerLiteral(s) => s.spec_bytes(),
            TokenKind::FloatLiteral(s) => s.spec_bytes(),
            TokenKind::StringLiteral(s) => s.spec_bytes(),
            TokenKind::ByteStringLiteral(s) => s.spec_bytes(),
            TokenKind::RegexLiteral(s, _) => s.spec_bytes(),
            TokenKind::ModuleBlock(s) => s.spec_bytes(),
            _ => Seq::empty(),
        }
    }

    /// The regular expression flags that this kind carries; 0 for other kinds.
    pub open spec fn flag_bits(&self) -> u8 {
        match self {
            TokenKind::RegexLiteral(_, f) => f.bits,
            _ => 0,
        }
    }

    /// Builds the kind of the given rule, with the given text and flags where it carries them.
    pub fn from_parts(tag: TokenTag, text: &'a str, flags: RegexFlags) -> (k: Self)
        ensures
            k.tag() == tag,
            tag_has_text(tag) ==> k.text() == text.spec_bytes(),
            !tag_has_text(tag) ==> k.text() == Seq::<u8>::empty(),
            k.flag_bits() == (if tag == TokenTag::RegexLiteral { flags.bits } else { 0 }),
    {
        match tag {
            TokenTag::Terminator => TokenKind::Terminator,
            TokenTag::PlainIdentifier => TokenKind::PlainIdentifier(text),
            TokenTag::EscapedIdentifier => TokenKind::EscapedIdentifier(text),
            TokenTag::Variable => TokenKind::Variable(text),
            TokenTag::BinIntegerLiteral => TokenKind::BinIntegerLiteral(text),
            TokenTag::OctIntegerLiteral => TokenKind::OctIntegerLiteral(text),
            TokenTag::HexIntegerLiteral => TokenKind::HexIntegerLiteral(text),
            TokenTag::DecIntegerLiteral => TokenKind::DecIntegerLiteral(text),
            TokenTag::FloatLiteral => TokenKind::FloatLiteral(text),
            TokenTag::StringLiteral => TokenKind::StringLiteral(text),
            TokenTag::ByteStringLiteral => TokenKind::ByteStringLiteral(text),
            TokenTag::RegexLiteral => TokenKind::RegexLiteral(text, flags),
            TokenTag::ModuleBlock => TokenKind::ModuleBlock(text),
            TokenTag::OpOpenParen => TokenKind::OpOpenParen,
            TokenTag::OpCloseParen => TokenKind::OpCloseParen,
            TokenTag::OpOpenSquareBracket => TokenKind::OpOpenSquareBracket,
            TokenTag::OpCloseSquareBracket => TokenKind::OpCloseSquareBracket,
            TokenTag::OpOpenBrace => TokenKind::OpOpenBrace,
            TokenTag::OpCloseBrace => TokenKind::OpCloseBrace,
            TokenTag::OpComma => TokenKind::OpComma,
            TokenTag::OpScope => TokenKind::OpScope,
            TokenTag::OpColon => TokenKind::OpColon,
            TokenTag::OpAssignPlus => TokenKind::OpAssignPlus,
            TokenTag::OpAssignMinus => TokenKind::OpAssignMinus,
            TokenTag::OpAssignMul => TokenKind::OpAssignMul,
            TokenTag::OpAssignDiv => TokenKind::OpAssignDiv,
            TokenTag::OpAssignMod => TokenKind::OpAssignMod,
            TokenTag::OpAssignPow => TokenKind::OpAssignPow,
            TokenTag::OpAssignShl => TokenKind::OpAssignShl,
            TokenTag::OpAssignShr => TokenKind::OpAssignShr,
            TokenTag::OpAssignBitAnd => TokenKind::OpAssignBitAnd,
            TokenTag::OpAssignBitOr => TokenKind::OpAssignBitOr,
            TokenTag::OpAssignBitXor => TokenKind::OpAssignBitXor,
            TokenTag::OpAssignBitNot => TokenKind::OpAssignBitNot,
            TokenTag::OpAssignNullCoalesce => TokenKind::OpAssignNullCoalesce,
            TokenTag::OpMultiArrowRight => TokenKind::OpMultiArrowRight,
            TokenTag::OpMultiArrowLeft => TokenKind::OpMultiArrowLeft,
            TokenTag::OpArrowRight => TokenKind::OpArrowRight,
            TokenTag::OpArrowLeft => TokenKind::OpArrowLeft,
            TokenTag::OpPow => TokenKind::OpPow,
            TokenTag::OpPlus => TokenKind::OpPlus,
            TokenTag::OpMinus => TokenKind::OpMinus,
            TokenTag::OpMulLexer => TokenKind::OpMulLexer,
            TokenTag::OpDiv => TokenKind::OpDiv,
            TokenTag::OpMod => TokenKind::OpMod,
            TokenTag::OpMatchLexer => TokenKind::OpMatchLexer,
            TokenTag::OpNotMatchLexer => TokenKind::OpNotMatchLexer,
            TokenTag::OpSimilarity => TokenKind::OpSimilarity,
            TokenTag::OpAndLexer => TokenKind::OpAndLexer,
            TokenTag::OpOrLexer => TokenKind::OpOrLexer,
            TokenTag::OpEq => TokenKind::OpEq,
            TokenTag::OpIsLexer => TokenKind::OpIsLexer,
            TokenTag::OpIsNotLexer => TokenKind::OpIsNotLexer,
            TokenTag::OpNotLexer => TokenKind::OpNotLexer,
            TokenTag::OpLte => TokenKind::OpLte,
            TokenTag::OpGte => TokenKind::OpGte,
            TokenTag::OpShl => TokenKind::OpShl,
            TokenTag::OpShr => TokenKind::OpShr,
            TokenTag::OpLt => TokenKind::OpLt,
            TokenTag::OpGt => TokenKind::OpGt,
            TokenTag::OpContainsLexer => TokenKind::OpContainsLexer,
            TokenTag::OpNotContainsLexer => TokenKind::OpNotContainsLexer,
            TokenTag::OpContainsNoneLexer => TokenKind::OpContainsNoneLexer,
            TokenTag::OpContainsAllLexer => TokenKind::OpContainsAllLexer,
            TokenTag::OpContainsAnyLexer => TokenKind::OpContainsAnyLexer,
            TokenTag::OpSafeNav => TokenKind::OpSafeNav,
            TokenTag::OpNullCoalesce => TokenKind::OpNullCoalesce,
            TokenTag::OpOptional => TokenKind::OpOptional,
            TokenTag::OpBitAnd => TokenKind::OpBitAnd,
            TokenTag::OpBitOr => TokenKind::OpBitOr,
            TokenTag::OpBitXor => TokenKind::OpBitXor,
            TokenTag::OpRangeIncl => TokenKind::OpRangeIncl,
            TokenTag::OpRange => TokenKind::OpRange,
            TokenTag::OpStar => TokenKind::OpStar,
            TokenTag::OpDot => TokenKind::OpDot,
        }
    }
}

/// The rule's tokens carry text.
pub open spec fn tag_has_text(tag: TokenTag) -> bool {
    tag == TokenTag::PlainIdentifier
        || tag == TokenTag::EscapedIdentifier
        || tag == TokenTag::Variable
        || tag == TokenTag::BinIntegerLiteral
        || tag == TokenTag::OctIntegerLiteral
        || tag == TokenTag::HexIntegerLiteral
        || tag == TokenTag::DecIntegerLiteral
        || tag == TokenTag::FloatLiteral
        || tag == TokenTag::StringLiteral
        || tag == TokenTag::ByteStringLiteral
        || tag == TokenTag::RegexLiteral
        || tag == TokenTag::ModuleBlock
}

impl<'a> Clone for Token<'a> {
    fn clone(&self) -> (t: Self)
        ensures
            t.span == self.span,
            t.kind == self.kind,
    {
        Token { span: self.span.start..self.span.end, kind: self.kind }
    }
}

impl<'a> Token<'a> {
    /// Creates a new token with the given span and kind.
    pub fn new(span: Span, kind: TokenKind<'a>) -> (t: Self)
        ensures
            t.span == span,
            t.kind == kind,
    {
        Self { span, kind }
    }

    /// Returns the span of the token.
    pub fn span(&self) -> (s: Span)
        ensures
            s == self.span,
    {
        self.span.start..self.span.end
    }

    /// Returns the kind of the token.
    pub fn kind(&self) -> (k: &TokenKind<'a>)
        ensures
            *k == self.kind,
    {
        &self.kind
    }
}

} // verus!

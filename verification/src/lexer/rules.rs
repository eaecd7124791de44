//! Which rule of the lexical grammar matches at a position: the rules are tried in a fixed
//! order and the first that matches wins.

use vstd::prelude::*;

use super::scan::{
    byte_is, byte_is_at, byte_string_len, byte_string_len_at, escaped_ident_len,
    escaped_ident_len_at, float_len, float_len_at, lemma_slice_len, plain_ident_len,
    plain_ident_len_at, radix_len, radix_len_at, regex_len, regex_len_at, string_len,
    string_len_at, terminator_len, terminator_len_at, variable_len, variable_len_at, digits,
    digits_at,
};
use super::token::TokenTag;

verus! {

/// The rules for terminators, identifiers, variables, strings and regular expressions, in
/// this order.
pub open spec fn word_rule(b: Seq<u8>, p: int) -> Option<(TokenTag, int)> {
    if terminator_len(b, p) > 0 {
        Some((TokenTag::Terminator, terminator_len(b, p)))
    } else if byte_string_len(b, p) > 0 {
        Some((TokenTag::ByteStringLiteral, byte_string_len(b, p)))
    } else if plain_ident_len(b, p) > 0 {
        Some((TokenTag::PlainIdentifier, plain_ident_len(b, p)))
    } else if escaped_ident_len(b, p) > 0 {
        Some((TokenTag::EscapedIdentifier, escaped_ident_len(b, p)))
    } else if variable_len(b, p) > 0 {
        Some((TokenTag::Variable, variable_len(b, p)))
    } else if string_len(b, p) > 0 {
        Some((TokenTag::StringLiteral, string_len(b, p)))
    } else if regex_len(b, p) > 0 {
        Some((TokenTag::RegexLiteral, regex_len(b, p)))
    } else {
        None
    }
}

/// The rules for brackets, separators and operators, in this order.
pub open spec fn fixed_rule(b: Seq<u8>, p: int) -> Option<(TokenTag, int)> {
    if byte_is(b, p, 0x28) {
        Some((TokenTag::OpOpenParen, 1))
    } else if byte_is(b, p, 0x29) {
        Some((TokenTag::OpCloseParen, 1))
    } else if byte_is(b, p, 0x5b) {
        Some((TokenTag::OpOpenSquareBracket, 1))
    } else if byte_is(b, p, 0x5d) {
        Some((TokenTag::OpCloseSquareBracket, 1))
    } else if byte_is(b, p, 0x7b) {
        Some((TokenTag::OpOpenBrace, 1))
    } else if byte_is(b, p, 0x7d) {
        Some((TokenTag::OpCloseBrace, 1))
    } else if byte_is(b, p, 0x2c) {
        Some((TokenTag::OpComma, 1))
    } else if byte_is(b, p, 0x3a) && byte_is(b, p + 1, 0x3a) {
        Some((TokenTag::OpScope, 2))
    } else if byte_is(b, p, 0x3a) {
        Some((TokenTag::OpColon, 1))
    } else if byte_is(b, p, 0x2b) && byte_is(b, p + 1, 0x3d) {
        Some((TokenTag::OpAssignPlus, 2))
    } else if byte_is(b, p, 0x2d) && byte_is(b, p + 1, 0x3d) {
        Some((TokenTag::OpAssignMinus, 2))
    } else if byte_is(b, p, 0x2a) && byte_is(b, p + 1, 0x3d) {
        Some((TokenTag::OpAssignMul, 2))
    } else if byte_is(b, p, 0xc3) && byte_is(b, p + 1, 0x97) && byte_is(b, p + 2, 0x3d) {
        Some((TokenTag::OpAssignMul, 3))
    } else if byte_is(b, p, 0x2f) && byte_is(b, p + 1, 0x3d) {
        Some((TokenTag::OpAssignDiv, 2))
    } else if byte_is(b, p, 0xc3) && byte_is(b, p + 1, 0xb7) && byte_is(b, p + 2, 0x3d) {
        Some((TokenTag::OpAssignDiv, 3))
    } else if byte_is(b, p, 0x25) && byte_is(b, p + 1, 0x3d) {
        Some((TokenTag::OpAssignMod, 2))
    } else if byte_is(b, p, 0x2a) && byte_is(b, p + 1, 0x2a) && byte_is(b, p + 2, 0x3d) {
        Some((TokenTag::OpAssignPow, 3))
    } else if byte_is(b, p, 0x3c) && byte_is(b, p + 1, 0x3c) && byte_is(b, p + 2, 0x3d) {
        Some((TokenTag::OpAssignShl, 3))
    } else if byte_is(b, p, 0x3e) && byte_is(b, p + 1, 0x3e) && byte_is(b, p + 2, 0x3d) {
        Some((TokenTag::OpAssignShr, 3))
    } else if byte_is(b, p, 0x26) && byte_is(b, p + 1, 0x3d) {
        Some((TokenTag::OpAssignBitAnd, 2))
    } else if byte_is(b, p, 0x7c) && byte_is(b, p + 1, 0x3d) {
        Some((TokenTag::OpAssignBitOr, 2))
    } else if byte_is(b, p, 0x5e) && byte_is(b, p + 1, 0x3d) {
        Some((TokenTag::OpAssignBitXor, 2))
    } else if byte_is(b, p, 0x7e) && byte_is(b, p + 1, 0x3d) {
        Some((TokenTag::OpAssignBitNot, 2))
    } else if byte_is(b, p, 0x3f) && byte_is(b, p + 1, 0x3f) && byte_is(b, p + 2, 0x3d) {
        Some((TokenTag::OpAssignNullCoalesce, 3))
    } else if byte_is(b, p, 0x2d) && byte_is(b, p + 1, 0x3e) && byte_is(b, p + 2, 0x3e) {
        Some((TokenTag::OpMultiArrowRight, 3))
    } else if byte_is(b, p, 0x3c) && byte_is(b, p + 1, 0x3c) && byte_is(b, p + 2, 0x2d) {
        Some((TokenTag::OpMultiArrowLeft, 3))
    } else if byte_is(b, p, 0x2d) && byte_is(b, p + 1, 0x3e) {
        Some((TokenTag::OpArrowRight, 2))
    } else if byte_is(b, p, 0x3c) && byte_is(b, p + 1, 0x2d) {
        Some((TokenTag::OpArrowLeft, 2))
    } else if byte_is(b, p, 0x2a) && byte_is(b, p + 1, 0x2a) {
        Some((TokenTag::OpPow, 2))
    } else if byte_is(b, p, 0x2b) {
        Some((TokenTag::OpPlus, 1))
    } else if byte_is(b, p, 0x2d) {
        Some((TokenTag::OpMinus, 1))
    } else if byte_is(b, p, 0xc3) && byte_is(b, p + 1, 0x97) {
        Some((TokenTag::OpMulLexer, 2))
    } else if byte_is(b, p, 0x2f) {
        Some((TokenTag::OpDiv, 1))
    } else if byte_is(b, p, 0xc3) && byte_is(b, p + 1, 0xb7) {
        Some((TokenTag::OpDiv, 2))
    } else if byte_is(b, p, 0x25) {
        Some((TokenTag::OpMod, 1))
    } else if byte_is(b, p, 0x7e) {
        Some((TokenTag::OpMatchLexer, 1))
    } else if byte_is(b, p, 0x21) && byte_is(b, p + 1, 0x7e) {
        Some((TokenTag::OpNotMatchLexer, 2))
    } else if byte_is(b, p, 0x3c) && byte_is(b, p + 1, 0x3e) {
        Some((TokenTag::OpSimilarity, 2))
    } else if byte_is(b, p, 0x26) && byte_is(b, p + 1, 0x26) {
        Some((TokenTag::OpAndLexer, 2))
    } else if byte_is(b, p, 0x7c) && byte_is(b, p + 1, 0x7c) {
        Some((TokenTag::OpOrLexer, 2))
    } else if byte_is(b, p, 0x3d) && byte_is(b, p + 1, 0x3d) {
        Some((TokenTag::OpEq, 2))
    } else if byte_is(b, p, 0x3d) {
        Some((TokenTag::OpIsLexer, 1))
    } else if byte_is(b, p, 0x21) && byte_is(b, p + 1, 0x3d) {
        Some((TokenTag::OpIsNotLexer, 2))
    } else if byte_is(b, p, 0x21) {
        Some((TokenTag::OpNotLexer, 1))
    } else if byte_is(b, p, 0x3c) && byte_is(b, p + 1, 0x3d) {
        Some((TokenTag::OpLte, 2))
    } else if byte_is(b, p, 0x3e) && byte_is(b, p + 1, 0x3d) {
        Some((TokenTag::OpGte, 2))
    } else if byte_is(b, p, 0x3c) && byte_is(b, p + 1, 0x3c) {
        Some((TokenTag::OpShl, 2))
    } else if byte_is(b, p, 0x3e) && byte_is(b, p + 1, 0x3e) {
        Some((TokenTag::OpShr, 2))
    } else if byte_is(b, p, 0x3c) {
        Some((TokenTag::OpLt, 1))
    } else if byte_is(b, p, 0x3e) {
        Some((TokenTag::OpGt, 1))
    } else if byte_is(b, p, 0xe2) && byte_is(b, p + 1, 0x88) && byte_is(b, p + 2, 0x8b) {
        Some((TokenTag::OpContainsLexer, 3))
    } else if byte_is(b, p, 0xe2) && byte_is(b, p + 1, 0x88) && byte_is(b, p + 2, 0x8c) {
        Some((TokenTag::OpNotContainsLexer, 3))
    } else if byte_is(b, p, 0xe2) && byte_is(b, p + 1, 0x8a) && byte_is(b, p + 2, 0x85) {
        Some((TokenTag::OpContainsNoneLexer, 3))
    } else if byte_is(b, p, 0xe2) && byte_is(b, p + 1, 0x8a) && byte_is(b, p + 2, 0x87) {
        Some((TokenTag::OpContainsAllLexer, 3))
    } else if byte_is(b, p, 0xe2) && byte_is(b, p + 1, 0x8a) && byte_is(b, p + 2, 0x83) {
        Some((TokenTag::OpContainsAnyLexer, 3))
    } else if byte_is(b, p, 0x3f) && byte_is(b, p + 1, 0x3f) && byte_is(b, p + 2, 0x2e) {
        Some((TokenTag::OpSafeNav, 3))
    } else if byte_is(b, p, 0x3f) && byte_is(b, p + 1, 0x3f) {
        Some((TokenTag::OpNullCoalesce, 2))
    } else if byte_is(b, p, 0x3f) && byte_is(b, p + 1, 0x2e) {
        Some((TokenTag::OpSafeNav, 2))
    } else if byte_is(b, p, 0x3f) && byte_is(b, p + 1, 0x3a) {
        Some((TokenTag::OpNullCoalesce, 2))
    } else if byte_is(b, p, 0x3f) {
        Some((TokenTag::OpOptional, 1))
    } else if byte_is(b, p, 0x26) {
        Some((TokenTag::OpBitAnd, 1))
    } else if byte_is(b, p, 0x7c) {
        Some((TokenTag::OpBitOr, 1))
    } else if byte_is(b, p, 0x5e) {
        Some((TokenTag::OpBitXor, 1))
    } else if byte_is(b, p, 0x2e) && byte_is(b, p + 1, 0x2e) && byte_is(b, p + 2, 0x3d) {
        Some((TokenTag::OpRangeIncl, 3))
    } else if byte_is(b, p, 0x2e) && byte_is(b, p + 1, 0x2e) {
        Some((TokenTag::OpRange, 2))
    } else if byte_is(b, p, 0x2a) {
        Some((TokenTag::OpStar, 1))
    } else {
        None
    }
}

/// The rules for number literals and the dot, in this order.
pub open spec fn number_rule(b: Seq<u8>, p: int) -> Option<(TokenTag, int)> {
    if radix_len(b, p, 0x78, 16) > 0 {
        Some((TokenTag::HexIntegerLiteral, radix_len(b, p, 0x78, 16)))
    } else if radix_len(b, p, 0x6f, 8) > 0 {
        Some((TokenTag::OctIntegerLiteral, radix_len(b, p, 0x6f, 8)))
    } else if radix_len(b, p, 0x62, 2) > 0 {
        Some((TokenTag::BinIntegerLiteral, radix_len(b, p, 0x62, 2)))
    } else if float_len(b, p) > 0 {
        Some((TokenTag::FloatLiteral, float_len(b, p)))
    } else if digits(b, p) > 0 {
        Some((TokenTag::DecIntegerLiteral, digits(b, p)))
    } else if byte_is(b, p, 0x2e) {
        Some((TokenTag::OpDot, 1))
    } else {
        None
    }
}

/// The first rule that matches at `p`, with the length of its match.
pub open spec fn rule_at(b: Seq<u8>, p: int) -> Option<(TokenTag, int)> {
    if word_rule(b, p) is Some {
        word_rule(b, p)
    } else if fixed_rule(b, p) is Some {
        fixed_rule(b, p)
    } else {
        number_rule(b, p)
    }
}

/// The executable result agrees with the spec one.
pub open spec fn rule_agrees(r: Option<(TokenTag, usize)>, s: Option<(TokenTag, int)>) -> bool {
    match r {
        Some((t, n)) => s == Some((t, n as int)),
        None => s is None,
    }
}

fn word_rule_at(b: &[u8], p: usize) -> (r: Option<(TokenTag, usize)>)
    requires
        p <= b@.len(),
    ensures
        rule_agrees(r, word_rule(b@, p as int)),
        r matches Some((_, n)) ==> p + n <= b@.len(),
{
    let n = terminator_len_at(b, p);
    if n > 0 {
        return Some((TokenTag::Terminator, n));
    }
    let n = byte_string_len_at(b, p);
    if n > 0 {
        return Some((TokenTag::ByteStringLiteral, n));
    }
    let n = plain_ident_len_at(b, p);
    if n > 0 {
        return Some((TokenTag::PlainIdentifier, n));
    }
    let n = escaped_ident_len_at(b, p);
    if n > 0 {
        return Some((TokenTag::EscapedIdentifier, n));
    }
    let n = variable_len_at(b, p);
    if n > 0 {
        return Some((TokenTag::Variable, n));
    }
    let n = string_len_at(b, p);
    if n > 0 {
        return Some((TokenTag::StringLiteral, n));
    }
    let n = regex_len_at(b, p);
    if n > 0 {
        return Some((TokenTag::RegexLiteral, n));
    }
    None
}

fn fixed_rule_at(b: &[u8], p: usize) -> (r: Option<(TokenTag, usize)>)
    requires
        p <= b@.len(),
    ensures
        rule_agrees(r, fixed_rule(b@, p as int)),
        r matches Some((_, n)) ==> p + n <= b@.len(),
{
    proof {
        lemma_slice_len(b);
    }
    if byte_is_at(b, p, 0x28) {
        return Some((TokenTag::OpOpenParen, 1));
    }
    if byte_is_at(b, p, 0x29) {
        return Some((TokenTag::OpCloseParen, 1));
    }
    if byte_is_at(b, p, 0x5b) {
        return Some((TokenTag::OpOpenSquareBracket, 1));
    }
    if byte_is_at(b, p, 0x5d) {
        return Some((TokenTag::OpCloseSquareBracket, 1));
    }
    if byte_is_at(b, p, 0x7b) {
        return Some((TokenTag::OpOpenBrace, 1));
    }
    if byte_is_at(b, p, 0x7d) {
        return Some((TokenTag::OpCloseBrace, 1));
    }
    if byte_is_at(b, p, 0x2c) {
        return Some((TokenTag::OpComma, 1));
    }
    if byte_is_at(b, p, 0x3a) && byte_is_at(b, p + 1, 0x3a) {
        return Some((TokenTag::OpScope, 2));
    }
    if byte_is_at(b, p, 0x3a) {
        return Some((TokenTag::OpColon, 1));
    }
    if byte_is_at(b, p, 0x2b) && byte_is_at(b, p + 1, 0x3d) {
        return Some((TokenTag::OpAssignPlus, 2));
    }
    if byte_is_at(b, p, 0x2d) && byte_is_at(b, p + 1, 0x3d) {
        return Some((TokenTag::OpAssignMinus, 2));
    }
    if byte_is_at(b, p, 0x2a) && byte_is_at(b, p + 1, 0x3d) {
        return Some((TokenTag::OpAssignMul, 2));
    }
    if byte_is_at(b, p, 0xc3) && byte_is_at(b, p + 1, 0x97) && byte_is_at(b, p + 2, 0x3d) {
        return Some((TokenTag::OpAssignMul, 3));
    }
    if byte_is_at(b, p, 0x2f) && byte_is_at(b, p + 1, 0x3d) {
        return Some((TokenTag::OpAssignDiv, 2));
    }
    if byte_is_at(b, p, 0xc3) && byte_is_at(b, p + 1, 0xb7) && byte_is_at(b, p + 2, 0x3d) {
        return Some((TokenTag::OpAssignDiv, 3));
    }
    if byte_is_at(b, p, 0x25) && byte_is_at(b, p + 1, 0x3d) {
        return Some((TokenTag::OpAssignMod, 2));
    }
    if byte_is_at(b, p, 0x2a) && byte_is_at(b, p + 1, 0x2a) && byte_is_at(b, p + 2, 0x3d) {
        return Some((TokenTag::OpAssignPow, 3));
    }
    if byte_is_at(b, p, 0x3c) && byte_is_at(b, p + 1, 0x3c) && byte_is_at(b, p + 2, 0x3d) {
        return Some((TokenTag::OpAssignShl, 3));
    }
    if byte_is_at(b, p, 0x3e) && byte_is_at(b, p + 1, 0x3e) && byte_is_at(b, p + 2, 0x3d) {
        return Some((TokenTag::OpAssignShr, 3));
    }
    if byte_is_at(b, p, 0x26) && byte_is_at(b, p + 1, 0x3d) {
        return Some((TokenTag::OpAssignBitAnd, 2));
    }
    if byte_is_at(b, p, 0x7c) && byte_is_at(b, p + 1, 0x3d) {
        return Some((TokenTag::OpAssignBitOr, 2));
    }
    if byte_is_at(b, p, 0x5e) && byte_is_at(b, p + 1, 0x3d) {
        return Some((TokenTag::OpAssignBitXor, 2));
    }
    if byte_is_at(b, p, 0x7e) && byte_is_at(b, p + 1, 0x3d) {
        return Some((TokenTag::OpAssignBitNot, 2));
    }
    if byte_is_at(b, p, 0x3f) && byte_is_at(b, p + 1, 0x3f) && byte_is_at(b, p + 2, 0x3d) {
        return Some((TokenTag::OpAssignNullCoalesce, 3));
    }
    if byte_is_at(b, p, 0x2d) && byte_is_at(b, p + 1, 0x3e) && byte_is_at(b, p + 2, 0x3e) {
        return Some((TokenTag::OpMultiArrowRight, 3));
    }
    if byte_is_at(b, p, 0x3c) && byte_is_at(b, p + 1, 0x3c) && byte_is_at(b, p + 2, 0x2d) {
        return Some((TokenTag::OpMultiArrowLeft, 3));
    }
    if byte_is_at(b, p, 0x2d) && byte_is_at(b, p + 1, 0x3e) {
        return Some((TokenTag::OpArrowRight, 2));
    }
    if byte_is_at(b, p, 0x3c) && byte_is_at(b, p + 1, 0x2d) {
        return Some((TokenTag::OpArrowLeft, 2));
    }
    if byte_is_at(b, p, 0x2a) && byte_is_at(b, p + 1, 0x2a) {
        return Some((TokenTag::OpPow, 2));
    }
    if byte_is_at(b, p, 0x2b) {
        return Some((TokenTag::OpPlus, 1));
    }
    if byte_is_at(b, p, 0x2d) {
        return Some((TokenTag::OpMinus, 1));
    }
    if byte_is_at(b, p, 0xc3) && byte_is_at(b, p + 1, 0x97) {
        return Some((TokenTag::OpMulLexer, 2));
    }
    if byte_is_at(b, p, 0x2f) {
        return Some((TokenTag::OpDiv, 1));
    }
    if byte_is_at(b, p, 0xc3) && byte_is_at(b, p + 1, 0xb7) {
        return Some((TokenTag::OpDiv, 2));
    }
    if byte_is_at(b, p, 0x25) {
        return Some((TokenTag::OpMod, 1));
    }
    if byte_is_at(b, p, 0x7e) {
        return Some((TokenTag::OpMatchLexer, 1));
    }
    if byte_is_at(b, p, 0x21) && byte_is_at(b, p + 1, 0x7e) {
        return Some((TokenTag::OpNotMatchLexer, 2));
    }
    if byte_is_at(b, p, 0x3c) && byte_is_at(b, p + 1, 0x3e) {
        return Some((TokenTag::OpSimilarity, 2));
    }
    if byte_is_at(b, p, 0x26) && byte_is_at(b, p + 1, 0x26) {
        return Some((TokenTag::OpAndLexer, 2));
    }
    if byte_is_at(b, p, 0x7c) && byte_is_at(b, p + 1, 0x7c) {
        return Some((TokenTag::OpOrLexer, 2));
    }
    if byte_is_at(b, p, 0x3d) && byte_is_at(b, p + 1, 0x3d) {
        return Some((TokenTag::OpEq, 2));
    }
    if byte_is_at(b, p, 0x3d) {
        return Some((TokenTag::OpIsLexer, 1));
    }
    if byte_is_at(b, p, 0x21) && byte_is_at(b, p + 1, 0x3d) {
        return Some((TokenTag::OpIsNotLexer, 2));
    }
    if byte_is_at(b, p, 0x21) {
        return Some((TokenTag::OpNotLexer, 1));
    }
    if byte_is_at(b, p, 0x3c) && byte_is_at(b, p + 1, 0x3d) {
        return Some((TokenTag::OpLte, 2));
    }
    if byte_is_at(b, p, 0x3e) && byte_is_at(b, p + 1, 0x3d) {
        return Some((TokenTag::OpGte, 2));
    }
    if byte_is_at(b, p, 0x3c) && byte_is_at(b, p + 1, 0x3c) {
        return Some((TokenTag::OpShl, 2));
    }
    if byte_is_at(b, p, 0x3e) && byte_is_at(b, p + 1, 0x3e) {
        return Some((TokenTag::OpShr, 2));
    }
    if byte_is_at(b, p, 0x3c) {
        return Some((TokenTag::OpLt, 1));
    }
    if byte_is_at(b, p, 0x3e) {
        return Some((TokenTag::OpGt, 1));
    }
    if byte_is_at(b, p, 0xe2) && byte_is_at(b, p + 1, 0x88) && byte_is_at(b, p + 2, 0x8b) {
        return Some((TokenTag::OpContainsLexer, 3));
    }
    if byte_is_at(b, p, 0xe2) && byte_is_at(b, p + 1, 0x88) && byte_is_at(b, p + 2, 0x8c) {
        return Some((TokenTag::OpNotContainsLexer, 3));
    }
    if byte_is_at(b, p, 0xe2) && byte_is_at(b, p + 1, 0x8a) && byte_is_at(b, p + 2, 0x85) {
        return Some((TokenTag::OpContainsNoneLexer, 3));
    }
    if byte_is_at(b, p, 0xe2) && byte_is_at(b, p + 1, 0x8a) && byte_is_at(b, p + 2, 0x87) {
        return Some((TokenTag::OpContainsAllLexer, 3));
    }
    if byte_is_at(b, p, 0xe2) && byte_is_at(b, p + 1, 0x8a) && byte_is_at(b, p + 2, 0x83) {
        return Some((TokenTag::OpContainsAnyLexer, 3));
    }
    if byte_is_at(b, p, 0x3f) && byte_is_at(b, p + 1, 0x3f) && byte_is_at(b, p + 2, 0x2e) {
        return Some((TokenTag::OpSafeNav, 3));
    }
    if byte_is_at(b, p, 0x3f) && byte_is_at(b, p + 1, 0x3f) {
        return Some((TokenTag::OpNullCoalesce, 2));
    }
    if byte_is_at(b, p, 0x3f) && byte_is_at(b, p + 1, 0x2e) {
        return Some((TokenTag::OpSafeNav, 2));
    }
    if byte_is_at(b, p, 0x3f) && byte_is_at(b, p + 1, 0x3a) {
        return Some((TokenTag::OpNullCoalesce, 2));
    }
    if byte_is_at(b, p, 0x3f) {
        return Some((TokenTag::OpOptional, 1));
    }
    if byte_is_at(b, p, 0x26) {
        return Some((TokenTag::OpBitAnd, 1));
    }
    if byte_is_at(b, p, 0x7c) {
        return Some((TokenTag::OpBitOr, 1));
    }
    if byte_is_at(b, p, 0x5e) {
        return Some((TokenTag::OpBitXor, 1));
    }
    if byte_is_at(b, p, 0x2e) && byte_is_at(b, p + 1, 0x2e) && byte_is_at(b, p + 2, 0x3d) {
        return Some((TokenTag::OpRangeIncl, 3));
    }
    if byte_is_at(b, p, 0x2e) && byte_is_at(b, p + 1, 0x2e) {
        return Some((TokenTag::OpRange, 2));
    }
    if byte_is_at(b, p, 0x2a) {
        return Some((TokenTag::OpStar, 1));
    }
    None
}

fn number_rule_at(b: &[u8], p: usize) -> (r: Option<(TokenTag, usize)>)
    requires
        p <= b@.len(),
    ensures
        rule_agrees(r, number_rule(b@, p as int)),
        r matches Some((_, n)) ==> p + n <= b@.len(),
{
    let n = radix_len_at(b, p, 0x78, 16);
    if n > 0 {
        return Some((TokenTag::HexIntegerLiteral, n));
    }
    let n = radix_len_at(b, p, 0x6f, 8);
    if n > 0 {
        return Some((TokenTag::OctIntegerLiteral, n));
    }
    let n = radix_len_at(b, p, 0x62, 2);
    if n > 0 {
        return Some((TokenTag::BinIntegerLiteral, n));
    }
    let n = float_len_at(b, p);
    if n > 0 {
        return Some((TokenTag::FloatLiteral, n));
    }
    let n = digits_at(b, p);
    if n > 0 {
        return Some((TokenTag::DecIntegerLiteral, n));
    }
    if byte_is_at(b, p, 0x2e) {
        return Some((TokenTag::OpDot, 1));
    }
    None
}

/// The first rule that matches at `p`, with the length of its match.
pub fn rule_at_exec(b: &[u8], p: usize) -> (r: Option<(TokenTag, usize)>)
    requires
        p <= b@.len(),
    ensures
        rule_agrees(r, rule_at(b@, p as int)),
        r matches Some((_, n)) ==> p + n <= b@.len(),
{
    let r = word_rule_at(b, p);
    if r.is_some() {
        return r;
    }
    let r = fixed_rule_at(b, p);
    if r.is_some() {
        return r;
    }
    number_rule_at(b, p)
}

} // verus!

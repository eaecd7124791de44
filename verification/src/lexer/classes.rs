//! Character classes of the lexical grammar: ASCII classes, Unicode white space, Unicode
//! decimal digits, and the word characters that decide word boundaries.

use vstd::prelude::*;
use vstd::utf8::*;

use super::utf8::lead_width;

verus! {

/// `[0-9]`
pub open spec fn is_ascii_digit(c: u8) -> bool {
    0x30 <= c <= 0x39
}

/// `[a-zA-Z]`
pub open spec fn is_ascii_alpha(c: u8) -> bool {
    (0x41 <= c <= 0x5a) || (0x61 <= c <= 0x7a)
}

/// `[_a-zA-Z]`
pub open spec fn is_ident_start(c: u8) -> bool {
    c == 0x5f || is_ascii_alpha(c)
}

/// `[_a-zA-Z0-9]`
pub open spec fn is_ident_char(c: u8) -> bool {
    is_ident_start(c) || is_ascii_digit(c)
}

/// The digits of an integer literal in base 16, 8 or 2: `[0-9a-fA-F]`, `[0-7]`, `[01]`.
pub open spec fn is_radix_digit(c: u8, radix: u8) -> bool {
    if radix == 16 {
        is_ascii_digit(c) || (0x41 <= c <= 0x46) || (0x61 <= c <= 0x66)
    } else if radix == 8 {
        0x30 <= c <= 0x37
    } else {
        c == 0x30 || c == 0x31
    }
}

/// The byte length of the white-space character (Unicode `White_Space`, the class `\s`) that
/// starts at `p`, or 0 when none starts there.
pub open spec fn ws_len(b: Seq<u8>, p: int) -> int {
    if 0 <= p < b.len() {
        let c0 = b[p];
        if c0 == 0x09 || c0 == 0x0a || c0 == 0x0b || c0 == 0x0c || c0 == 0x0d || c0 == 0x20 {
            1
        } else if p + 1 < b.len() && c0 == 0xc2 && (b[p + 1] == 0x85 || b[p + 1] == 0xa0) {
            2
        } else if p + 2 < b.len() && ((c0 == 0xe1 && b[p + 1] == 0x9a && b[p + 2] == 0x80) || (c0
            == 0xe2 && b[p + 1] == 0x80 && ((0x80 <= b[p + 2] <= 0x8a) || b[p + 2] == 0xa8 || b[p
            + 2] == 0xa9 || b[p + 2] == 0xaf)) || (c0 == 0xe2 && b[p + 1] == 0x81 && b[p + 2]
            == 0x9f) || (c0 == 0xe3 && b[p + 1] == 0x80 && b[p + 2] == 0x80)) {
            3
        } else {
            0
        }
    } else {
        0
    }
}

/// Two-byte encodings of Unicode decimal digits (general category `Nd`).
pub open spec fn is_digit2(c0: u8, c1: u8) -> bool {
    (c0 == 0xd9 && 0xa0 <= c1 <= 0xa9)
        || (c0 == 0xdb && 0xb0 <= c1 <= 0xb9)
        || (c0 == 0xdf && 0x80 <= c1 <= 0x89)
}

/// Three-byte encodings of Unicode decimal digits (general category `Nd`).
pub open spec fn is_digit3(c0: u8, c1: u8, c2: u8) -> bool {
    (c0 == 0xe0 && c1 == 0xa5 && 0xa6 <= c2 <= 0xaf)
        || (c0 == 0xe0 && c1 == 0xa7 && 0xa6 <= c2 <= 0xaf)
        || (c0 == 0xe0 && c1 == 0xa9 && 0xa6 <= c2 <= 0xaf)
        || (c0 == 0xe0 && c1 == 0xab && 0xa6 <= c2 <= 0xaf)
        || (c0 == 0xe0 && c1 == 0xad && 0xa6 <= c2 <= 0xaf)
        || (c0 == 0xe0 && c1 == 0xaf && 0xa6 <= c2 <= 0xaf)
        || (c0 == 0xe0 && c1 == 0xb1 && 0xa6 <= c2 <= 0xaf)
        || (c0 == 0xe0 && c1 == 0xb3 && 0xa6 <= c2 <= 0xaf)
        || (c0 == 0xe0 && c1 == 0xb5 && 0xa6 <= c2 <= 0xaf)
        || (c0 == 0xe0 && c1 == 0xb7 && 0xa6 <= c2 <= 0xaf)
        || (c0 == 0xe0 && c1 == 0xb9 && 0x90 <= c2 <= 0x99)
        || (c0 == 0xe0 && c1 == 0xbb && 0x90 <= c2 <= 0x99)
        || (c0 == 0xe0 && c1 == 0xbc && 0xa0 <= c2 <= 0xa9)
        || (c0 == 0xe1 && c1 == 0x81 && 0x80 <= c2 <= 0x89)
        || (c0 == 0xe1 && c1 == 0x82 && 0x90 <= c2 <= 0x99)
        || (c0 == 0xe1 && c1 == 0x9f && 0xa0 <= c2 <= 0xa9)
        || (c0 == 0xe1 && c1 == 0xa0 && 0x90 <= c2 <= 0x99)
        || (c0 == 0xe1 && c1 == 0xa5 && 0x86 <= c2 <= 0x8f)
        || (c0 == 0xe1 && c1 == 0xa7 && 0x90 <= c2 <= 0x99)
        || (c0 == 0xe1 && c1 == 0xaa && 0x80 <= c2 <= 0x89)
        || (c0 == 0xe1 && c1 == 0xaa && 0x90 <= c2 <= 0x99)
        || (c0 == 0xe1 && c1 == 0xad && 0x90 <= c2 <= 0x99)
        || (c0 == 0xe1 && c1 == 0xae && 0xb0 <= c2 <= 0xb9)
        || (c0 == 0xe1 && c1 == 0xb1 && 0x80 <= c2 <= 0x89)
        || (c0 == 0xe1 && c1 == 0xb1 && 0x90 <= c2 <= 0x99)
        || (c0 == 0xea && c1 == 0x98 && 0xa0 <= c2 <= 0xa9)
        || (c0 == 0xea && c1 == 0xa3 && 0x90 <= c2 <= 0x99)
        || (c0 == 0xea && c1 == 0xa4 && 0x80 <= c2 <= 0x89)
        || (c0 == 0xea && c1 == 0xa7 && 0x90 <= c2 <= 0x99)
        || (c0 == 0xea && c1 == 0xa7 && 0xb0 <= c2 <= 0xb9)
        || (c0 == 0xea && c1 == 0xa9 && 0x90 <= c2 <= 0x99)
        || (c0 == 0xea && c1 == 0xaf && 0xb0 <= c2 <= 0xb9)
        || (c0 == 0xef && c1 == 0xbc && 0x90 <= c2 <= 0x99)
}

/// Four-byte encodings of Unicode decimal digits (general category `Nd`).
pub open spec fn is_digit4(c0: u8, c1: u8, c2: u8, c3: u8) -> bool {
    (c0 == 0xf0 && c1 == 0x90 && c2 == 0x92 && 0xa0 <= c3 <= 0xa9)
        || (c0 == 0xf0 && c1 == 0x90 && c2 == 0xb4 && 0xb0 <= c3 <= 0xb9)
        || (c0 == 0xf0 && c1 == 0x90 && c2 == 0xb5 && 0x80 <= c3 <= 0x89)
        || (c0 == 0xf0 && c1 == 0x91 && c2 == 0x81 && 0xa6 <= c3 <= 0xaf)
        || (c0 == 0xf0 && c1 == 0x91 && c2 == 0x83 && 0xb0 <= c3 <= 0xb9)
        || (c0 == 0xf0 && c1 == 0x91 && c2 == 0x84 && 0xb6 <= c3 <= 0xbf)
        || (c0 == 0xf0 && c1 == 0x91 && c2 == 0x87 && 0x90 <= c3 <= 0x99)
        || (c0 == 0xf0 && c1 == 0x91 && c2 == 0x8b && 0xb0 <= c3 <= 0xb9)
        || (c0 == 0xf0 && c1 == 0x91 && c2 == 0x91 && 0x90 <= c3 <= 0x99)
        || (c0 == 0xf0 && c1 == 0x91 && c2 == 0x93 && 0x90 <= c3 <= 0x99)
        || (c0 == 0xf0 && c1 == 0x91 && c2 == 0x99 && 0x90 <= c3 <= 0x99)
        || (c0 == 0xf0 && c1 == 0x91 && c2 == 0x9b && 0x80 <= c3 <= 0x89)
        || (c0 == 0xf0 && c1 == 0x91 && c2 == 0x9b && 0x90 <= c3 <= 0xa3)
        || (c0 == 0xf0 && c1 == 0x91 && c2 == 0x9c && 0xb0 <= c3 <= 0xb9)
        || (c0 == 0xf0 && c1 == 0x91 && c2 == 0xa3 && 0xa0 <= c3 <= 0xa9)
        || (c0 == 0xf0 && c1 == 0x91 && c2 == 0xa5 && 0x90 <= c3 <= 0x99)
        || (c0 == 0xf0 && c1 == 0x91 && c2 == 0xaf && 0xb0 <= c3 <= 0xb9)
        || (c0 == 0xf0 && c1 == 0x91 && c2 == 0xb1 && 0x90 <= c3 <= 0x99)
        || (c0 == 0xf0 && c1 == 0x91 && c2 == 0xb5 && 0x90 <= c3 <= 0x99)
        || (c0 == 0xf0 && c1 == 0x91 && c2 == 0xb6 && 0xa0 <= c3 <= 0xa9)
        || (c0 == 0xf0 && c1 == 0x91 && c2 == 0xbd && 0x90 <= c3 <= 0x99)
        || (c0 == 0xf0 && c1 == 0x96 && c2 == 0x84 && 0xb0 <= c3 <= 0xb9)
        || (c0 == 0xf0 && c1 == 0x96 && c2 == 0xa9 && 0xa0 <= c3 <= 0xa9)
        || (c0 == 0xf0 && c1 == 0x96 && c2 == 0xab && 0x80 <= c3 <= 0x89)
        || (c0 == 0xf0 && c1 == 0x96 && c2 == 0xad && 0x90 <= c3 <= 0x99)
        || (c0 == 0xf0 && c1 == 0x96 && c2 == 0xb5 && 0xb0 <= c3 <= 0xb9)
        || (c0 == 0xf0 && c1 == 0x9c && c2 == 0xb3 && 0xb0 <= c3 <= 0xb9)
        || (c0 == 0xf0 && c1 == 0x9d && c2 == 0x9f && 0x8e <= c3 <= 0xbf)
        || (c0 == 0xf0 && c1 == 0x9e && c2 == 0x85 && 0x80 <= c3 <= 0x89)
        || (c0 == 0xf0 && c1 == 0x9e && c2 == 0x8b && 0xb0 <= c3 <= 0xb9)
        || (c0 == 0xf0 && c1 == 0x9e && c2 == 0x93 && 0xb0 <= c3 <= 0xb9)
        || (c0 == 0xf0 && c1 == 0x9e && c2 == 0x97 && 0xb1 <= c3 <= 0xba)
        || (c0 == 0xf0 && c1 == 0x9e && c2 == 0xa5 && 0x90 <= c3 <= 0x99)
        || (c0 == 0xf0 && c1 == 0x9f && c2 == 0xaf && 0xb0 <= c3 <= 0xb9)
}

/// The byte length of the decimal digit (Unicode `Nd`, the class `\d`) that starts at `p`, or 0
/// when none starts there.
pub open spec fn digit_len(b: Seq<u8>, p: int) -> int {
    if 0 <= p < b.len() {
        if is_ascii_digit(b[p]) {
            1
        } else if p + 1 < b.len() && is_digit2(b[p], b[p + 1]) {
            2
        } else if p + 2 < b.len() && is_digit3(b[p], b[p + 1], b[p + 2]) {
            3
        } else if p + 3 < b.len() && is_digit4(b[p], b[p + 1], b[p + 2], b[p + 3]) {
            4
        } else {
            0
        }
    } else {
        0
    }
}

/// A matched white-space character is a whole character.
pub proof fn lemma_ws_len_width(b: Seq<u8>, p: int)
    requires
        ws_len(b, p) > 0,
    ensures
        ws_len(b, p) == lead_width(b[p]),
{
}

/// A matched decimal digit is a whole character.
pub proof fn lemma_digit_len_width(b: Seq<u8>, p: int)
    requires
        digit_len(b, p) > 0,
    ensures
        digit_len(b, p) == lead_width(b[p]),
{
}

pub fn ws_len_at(b: &[u8], p: usize) -> (r: usize)
    ensures
        r == ws_len(b@, p as int),
        r > 0 ==> p + r <= b@.len(),
{
    if p >= b.len() {
        return 0;
    }
    let c0 = b[p];
    if c0 == 0x09 || c0 == 0x0a || c0 == 0x0b || c0 == 0x0c || c0 == 0x0d || c0 == 0x20 {
        return 1;
    }
    if b.len() - p > 1 && c0 == 0xc2 && (b[p + 1] == 0x85 || b[p + 1] == 0xa0) {
        return 2;
    }
    if b.len() - p > 2 {
        let c1 = b[p + 1];
        let c2 = b[p + 2];
        if (c0 == 0xe1 && c1 == 0x9a && c2 == 0x80) || (c0 == 0xe2 && c1 == 0x80 && ((0x80 <= c2
            && c2 <= 0x8a) || c2 == 0xa8 || c2 == 0xa9 || c2 == 0xaf)) || (c0 == 0xe2 && c1 == 0x81
            && c2 == 0x9f) || (c0 == 0xe3 && c1 == 0x80 && c2 == 0x80) {
            return 3;
        }
    }
    0
}

fn digit2(c0: u8, c1: u8) -> (r: bool)
    ensures
        r == is_digit2(c0, c1),
{
    (c0 == 0xd9 && 0xa0 <= c1 && c1 <= 0xa9)
        || (c0 == 0xdb && 0xb0 <= c1 && c1 <= 0xb9)
        || (c0 == 0xdf && 0x80 <= c1 && c1 <= 0x89)
}

fn digit3(c0: u8, c1: u8, c2: u8) -> (r: bool)
    ensures
        r == is_digit3(c0, c1, c2),
{
    (c0 == 0xe0 && c1 == 0xa5 && 0xa6 <= c2 && c2 <= 0xaf)
        || (c0 == 0xe0 && c1 == 0xa7 && 0xa6 <= c2 && c2 <= 0xaf)
        || (c0 == 0xe0 && c1 == 0xa9 && 0xa6 <= c2 && c2 <= 0xaf)
        || (c0 == 0xe0 && c1 == 0xab && 0xa6 <= c2 && c2 <= 0xaf)
        || (c0 == 0xe0 && c1 == 0xad && 0xa6 <= c2 && c2 <= 0xaf)
        || (c0 == 0xe0 && c1 == 0xaf && 0xa6 <= c2 && c2 <= 0xaf)
        || (c0 == 0xe0 && c1 == 0xb1 && 0xa6 <= c2 && c2 <= 0xaf)
        || (c0 == 0xe0 && c1 == 0xb3 && 0xa6 <= c2 && c2 <= 0xaf)
        || (c0 == 0xe0 && c1 == 0xb5 && 0xa6 <= c2 && c2 <= 0xaf)
        || (c0 == 0xe0 && c1 == 0xb7 && 0xa6 <= c2 && c2 <= 0xaf)
        || (c0 == 0xe0 && c1 == 0xb9 && 0x90 <= c2 && c2 <= 0x99)
        || (c0 == 0xe0 && c1 == 0xbb && 0x90 <= c2 && c2 <= 0x99)
        || (c0 == 0xe0 && c1 == 0xbc && 0xa0 <= c2 && c2 <= 0xa9)
        || (c0 == 0xe1 && c1 == 0x81 && 0x80 <= c2 && c2 <= 0x89)
        || (c0 == 0xe1 && c1 == 0x82 && 0x90 <= c2 && c2 <= 0x99)
        || (c0 == 0xe1 && c1 == 0x9f && 0xa0 <= c2 && c2 <= 0xa9)
        || (c0 == 0xe1 && c1 == 0xa0 && 0x90 <= c2 && c2 <= 0x99)
        || (c0 == 0xe1 && c1 == 0xa5 && 0x86 <= c2 && c2 <= 0x8f)
        || (c0 == 0xe1 && c1 == 0xa7 && 0x90 <= c2 && c2 <= 0x99)
        || (c0 == 0xe1 && c1 == 0xaa && 0x80 <= c2 && c2 <= 0x89)
        || (c0 == 0xe1 && c1 == 0xaa && 0x90 <= c2 && c2 <= 0x99)
        || (c0 == 0xe1 && c1 == 0xad && 0x90 <= c2 && c2 <= 0x99)
        || (c0 == 0xe1 && c1 == 0xae && 0xb0 <= c2 && c2 <= 0xb9)
        || (c0 == 0xe1 && c1 == 0xb1 && 0x80 <= c2 && c2 <= 0x89)
        || (c0 == 0xe1 && c1 == 0xb1 && 0x90 <= c2 && c2 <= 0x99)
        || (c0 == 0xea && c1 == 0x98 && 0xa0 <= c2 && c2 <= 0xa9)
        || (c0 == 0xea && c1 == 0xa3 && 0x90 <= c2 && c2 <= 0x99)
        || (c0 == 0xea && c1 == 0xa4 && 0x80 <= c2 && c2 <= 0x89)
        || (c0 == 0xea && c1 == 0xa7 && 0x90 <= c2 && c2 <= 0x99)
        || (c0 == 0xea && c1 == 0xa7 && 0xb0 <= c2 && c2 <= 0xb9)
        || (c0 == 0xea && c1 == 0xa9 && 0x90 <= c2 && c2 <= 0x99)
        || (c0 == 0xea && c1 == 0xaf && 0xb0 <= c2 && c2 <= 0xb9)
        || (c0 == 0xef && c1 == 0xbc && 0x90 <= c2 && c2 <= 0x99)
}

fn digit4(c0: u8, c1: u8, c2: u8, c3: u8) -> (r: bool)
    ensures
        r == is_digit4(c0, c1, c2, c3),
{
    (c0 == 0xf0 && c1 == 0x90 && c2 == 0x92 && 0xa0 <= c3 && c3 <= 0xa9)
        || (c0 == 0xf0 && c1 == 0x90 && c2 == 0xb4 && 0xb0 <= c3 && c3 <= 0xb9)
        || (c0 == 0xf0 && c1 == 0x90 && c2 == 0xb5 && 0x80 <= c3 && c3 <= 0x89)
        || (c0 == 0xf0 && c1 == 0x91 && c2 == 0x81 && 0xa6 <= c3 && c3 <= 0xaf)
        || (c0 == 0xf0 && c1 == 0x91 && c2 == 0x83 && 0xb0 <= c3 && c3 <= 0xb9)
        || (c0 == 0xf0 && c1 == 0x91 && c2 == 0x84 && 0xb6 <= c3 && c3 <= 0xbf)
        || (c0 == 0xf0 && c1 == 0x91 && c2 == 0x87 && 0x90 <= c3 && c3 <= 0x99)
        || (c0 == 0xf0 && c1 == 0x91 && c2 == 0x8b && 0xb0 <= c3 && c3 <= 0xb9)
        || (c0 == 0xf0 && c1 == 0x91 && c2 == 0x91 && 0x90 <= c3 && c3 <= 0x99)
        || (c0 == 0xf0 && c1 == 0x91 && c2 == 0x93 && 0x90 <= c3 && c3 <= 0x99)
        || (c0 == 0xf0 && c1 == 0x91 && c2 == 0x99 && 0x90 <= c3 && c3 <= 0x99)
        || (c0 == 0xf0 && c1 == 0x91 && c2 == 0x9b && 0x80 <= c3 && c3 <= 0x89)
        || (c0 == 0xf0 && c1 == 0x91 && c2 == 0x9b && 0x90 <= c3 && c3 <= 0xa3)
        || (c0 == 0xf0 && c1 == 0x91 && c2 == 0x9c && 0xb0 <= c3 && c3 <= 0xb9)
        || (c0 == 0xf0 && c1 == 0x91 && c2 == 0xa3 && 0xa0 <= c3 && c3 <= 0xa9)
        || (c0 == 0xf0 && c1 == 0x91 && c2 == 0xa5 && 0x90 <= c3 && c3 <= 0x99)
        || (c0 == 0xf0 && c1 == 0x91 && c2 == 0xaf && 0xb0 <= c3 && c3 <= 0xb9)
        || (c0 == 0xf0 && c1 == 0x91 && c2 == 0xb1 && 0x90 <= c3 && c3 <= 0x99)
        || (c0 == 0xf0 && c1 == 0x91 && c2 == 0xb5 && 0x90 <= c3 && c3 <= 0x99)
        || (c0 == 0xf0 && c1 == 0x91 && c2 == 0xb6 && 0xa0 <= c3 && c3 <= 0xa9)
        || (c0 == 0xf0 && c1 == 0x91 && c2 == 0xbd && 0x90 <= c3 && c3 <= 0x99)
        || (c0 == 0xf0 && c1 == 0x96 && c2 == 0x84 && 0xb0 <= c3 && c3 <= 0xb9)
        || (c0 == 0xf0 && c1 == 0x96 && c2 == 0xa9 && 0xa0 <= c3 && c3 <= 0xa9)
        || (c0 == 0xf0 && c1 == 0x96 && c2 == 0xab && 0x80 <= c3 && c3 <= 0x89)
        || (c0 == 0xf0 && c1 == 0x96 && c2 == 0xad && 0x90 <= c3 && c3 <= 0x99)
        || (c0 == 0xf0 && c1 == 0x96 && c2 == 0xb5 && 0xb0 <= c3 && c3 <= 0xb9)
        || (c0 == 0xf0 && c1 == 0x9c && c2 == 0xb3 && 0xb0 <= c3 && c3 <= 0xb9)
        || (c0 == 0xf0 && c1 == 0x9d && c2 == 0x9f && 0x8e <= c3 && c3 <= 0xbf)
        || (c0 == 0xf0 && c1 == 0x9e && c2 == 0x85 && 0x80 <= c3 && c3 <= 0x89)
        || (c0 == 0xf0 && c1 == 0x9e && c2 == 0x8b && 0xb0 <= c3 && c3 <= 0xb9)
        || (c0 == 0xf0 && c1 == 0x9e && c2 == 0x93 && 0xb0 <= c3 && c3 <= 0xb9)
        || (c0 == 0xf0 && c1 == 0x9e && c2 == 0x97 && 0xb1 <= c3 && c3 <= 0xba)
        || (c0 == 0xf0 && c1 == 0x9e && c2 == 0xa5 && 0x90 <= c3 && c3 <= 0x99)
        || (c0 == 0xf0 && c1 == 0x9f && c2 == 0xaf && 0xb0 <= c3 && c3 <= 0xb9)
}

pub fn digit_len_at(b: &[u8], p: usize) -> (r: usize)
    ensures
        r == digit_len(b@, p as int),
        r > 0 ==> p + r <= b@.len(),
{
    if p >= b.len() {
        return 0;
    }
    let c0 = b[p];
    if 0x30 <= c0 && c0 <= 0x39 {
        return 1;
    }
    if b.len() - p > 1 && digit2(c0, b[p + 1]) {
        return 2;
    }
    if b.len() - p > 2 && digit3(c0, b[p + 1], b[p + 2]) {
        return 3;
    }
    if b.len() - p > 3 && digit4(c0, b[p + 1], b[p + 2], b[p + 3]) {
        return 4;
    }
    0
}

/// Names whether the character with code point `cp` is a word character of the regular
/// expression engine (its `\w`, which decides the word boundary `\b`); a value that is no
/// Unicode scalar value is no word character.
pub uninterp spec fn regex_word_char(cp: u32) -> bool;

/// Calls `regex_syntax::is_word_character` on the character with code point `cp` (after
/// `char::from_u32`; `false` where that gives no character). Its documentation defines the
/// word characters by UTS#18 Annex C: the `Alphabetic` and `Join_Control` properties and the
/// `Decimal_Number`, `Mark` and `Connector_Punctuation` categories. The contract only names the
/// result; it states nothing of which characters these are.
#[verifier::external_body]
pub(crate) fn is_word_code_point(cp: u32) -> (r: bool)
    ensures
        r == regex_word_char(cp),
{
    char::from_u32(cp).map_or(false, regex_syntax::is_word_character)
}

/// The code point of the `w`-byte UTF-8 encoding at `j`.
pub open spec fn code_point(b: Seq<u8>, j: int, w: int) -> u32 {
    if w == 2 {
        codepoint_width_2(b[j], b[j + 1])
    } else if w == 3 {
        codepoint_width_3(b[j], b[j + 1], b[j + 2])
    } else if w == 4 {
        codepoint_width_4(b[j], b[j + 1], b[j + 2], b[j + 3])
    } else {
        codepoint_width_1(b[j])
    }
}

pub fn code_point_at(b: &[u8], j: usize, w: usize) -> (r: u32)
    requires
        1 <= w <= 4,
        j + w <= b@.len(),
    ensures
        r == code_point(b@, j as int, w as int),
{
    if w == 2 {
        (((b[j] & 0x1f) as u32) << 6) | ((b[j + 1] & 0x3f) as u32)
    } else if w == 3 {
        (((b[j] & 0x0f) as u32) << 12) | (((b[j + 1] & 0x3f) as u32) << 6) | ((b[j + 2] & 0x3f) as u32)
    } else if w == 4 {
        (((b[j] & 0x07) as u32) << 18) | (((b[j + 1] & 0x3f) as u32) << 12) | (((b[j + 2] & 0x3f) as u32) << 6) | ((b[j + 3] & 0x3f) as u32)
    } else {
        (b[j] & 0x7f) as u32
    }
}

} // verus!

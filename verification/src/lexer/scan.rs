//! Recognizers for the lexical grammar. Each pattern is stated as a spec function on the bytes
//! of the input and a position in it, giving the length of the match there (0 when the pattern
//! does not match); each has an executable twin that computes the same length.

use vstd::prelude::*;

use super::utf8::{lead_width, lemma_ascii_whole_chars, lemma_whole_chars_trans, whole_chars};
use super::classes::{
    code_point, code_point_at, lemma_digit_len_width, lemma_ws_len_width, is_word_code_point, regex_word_char, digit_len, digit_len_at, is_ident_char, is_ident_start, is_radix_digit, ws_len, ws_len_at,
};

verus! {

/// The byte at `i` is `c`.
pub open spec fn byte_is(b: Seq<u8>, i: int, c: u8) -> bool {
    0 <= i < b.len() && b[i] == c
}

/// `\s*`
pub open spec fn ws_run(b: Seq<u8>, p: int) -> int
    decreases b.len() - p,
{
    if ws_len(b, p) > 0 {
        ws_len(b, p) + ws_run(b, p + ws_len(b, p))
    } else {
        0
    }
}

/// `[ \t]*`
pub open spec fn hspace_run(b: Seq<u8>, p: int) -> int
    decreases b.len() - p,
{
    if 0 <= p < b.len() && (b[p] == 0x20 || b[p] == 0x09) {
        1 + hspace_run(b, p + 1)
    } else {
        0
    }
}

/// `[^\r\n]*`
pub open spec fn line_run(b: Seq<u8>, p: int) -> int
    decreases b.len() - p,
{
    if 0 <= p < b.len() && b[p] != 0x0d && b[p] != 0x0a {
        1 + line_run(b, p + 1)
    } else {
        0
    }
}

/// `[_a-zA-Z0-9]*`
pub open spec fn ident_run(b: Seq<u8>, p: int) -> int
    decreases b.len() - p,
{
    if 0 <= p < b.len() && is_ident_char(b[p]) {
        1 + ident_run(b, p + 1)
    } else {
        0
    }
}

/// `[gimsux]*`
pub open spec fn flags_run(b: Seq<u8>, p: int) -> int
    decreases b.len() - p,
{
    if 0 <= p < b.len() && (b[p] == 0x67 || b[p] == 0x69 || b[p] == 0x6d || b[p] == 0x73 || b[p]
        == 0x75 || b[p] == 0x78) {
        1 + flags_run(b, p + 1)
    } else {
        0
    }
}

/// `(_?\d)*`
pub open spec fn digits_tail(b: Seq<u8>, p: int) -> int
    decreases b.len() - p,
{
    if digit_len(b, p) > 0 {
        digit_len(b, p) + digits_tail(b, p + digit_len(b, p))
    } else if byte_is(b, p, 0x5f) && digit_len(b, p + 1) > 0 {
        1 + digit_len(b, p + 1) + digits_tail(b, p + 1 + digit_len(b, p + 1))
    } else {
        0
    }
}

/// `\d(_?\d)*`
pub open spec fn digits(b: Seq<u8>, p: int) -> int {
    if digit_len(b, p) > 0 {
        digit_len(b, p) + digits_tail(b, p + digit_len(b, p))
    } else {
        0
    }
}

/// `(_?[x])*` for the digits `[x]` of base `radix`.
pub open spec fn radix_tail(b: Seq<u8>, p: int, radix: u8) -> int
    decreases b.len() - p,
{
    if 0 <= p < b.len() && is_radix_digit(b[p], radix) {
        1 + radix_tail(b, p + 1, radix)
    } else if byte_is(b, p, 0x5f) && p + 1 < b.len() && is_radix_digit(b[p + 1], radix) {
        2 + radix_tail(b, p + 2, radix)
    } else {
        0
    }
}

/// `[x]+(_?[x])*` for the digits `[x]` of base `radix`.
pub open spec fn radix_digits(b: Seq<u8>, p: int, radix: u8) -> int {
    if 0 <= p < b.len() && is_radix_digit(b[p], radix) {
        1 + radix_tail(b, p + 1, radix)
    } else {
        0
    }
}

/// `\s*--[^\r\n]*`
pub open spec fn comment_len(b: Seq<u8>, p: int) -> int {
    let q = p + ws_run(b, p);
    if byte_is(b, q, 0x2d) && byte_is(b, q + 1, 0x2d) {
        q + 2 + line_run(b, q + 2) - p
    } else {
        0
    }
}

/// `\s*\\\r?\n\s*`
pub open spec fn backslash_len(b: Seq<u8>, p: int) -> int {
    let q = p + ws_run(b, p);
    if byte_is(b, q, 0x5c) && byte_is(b, q + 1, 0x0a) {
        q + 2 + ws_run(b, q + 2) - p
    } else if byte_is(b, q, 0x5c) && byte_is(b, q + 1, 0x0d) && byte_is(b, q + 2, 0x0a) {
        q + 3 + ws_run(b, q + 3) - p
    } else {
        0
    }
}

/// `;\s*|(\r?\n)\s*`
pub open spec fn terminator_len(b: Seq<u8>, p: int) -> int {
    if byte_is(b, p, 0x3b) || byte_is(b, p, 0x0a) {
        1 + ws_run(b, p + 1)
    } else if byte_is(b, p, 0x0d) && byte_is(b, p + 1, 0x0a) {
        2 + ws_run(b, p + 2)
    } else {
        0
    }
}

/// The rest of a string literal quoted by `q`, from `i` up to and including the closing quote:
/// `([^q\\]|\\t|\\n|\\r|\\\\)*q`; 0 when the literal is not closed.
pub open spec fn str_body(b: Seq<u8>, i: int, q: u8) -> int
    decreases b.len() - i,
{
    if !(0 <= i < b.len()) {
        0
    } else if b[i] == q {
        1
    } else if b[i] == 0x5c {
        if i + 1 < b.len() && (b[i + 1] == 0x74 || b[i + 1] == 0x6e || b[i + 1] == 0x72 || b[i
            + 1] == 0x5c) && str_body(b, i + 2, q) > 0 {
            2 + str_body(b, i + 2, q)
        } else {
            0
        }
    } else if str_body(b, i + 1, q) > 0 {
        1 + str_body(b, i + 1, q)
    } else {
        0
    }
}

/// `'([^'\\]|\\t|\\n|\\r|\\\\)*'|"([^"\\]|\\t|\\n|\\r|\\\\)*"`
pub open spec fn string_len(b: Seq<u8>, p: int) -> int {
    if byte_is(b, p, 0x27) && str_body(b, p + 1, 0x27) > 0 {
        1 + str_body(b, p + 1, 0x27)
    } else if byte_is(b, p, 0x22) && str_body(b, p + 1, 0x22) > 0 {
        1 + str_body(b, p + 1, 0x22)
    } else {
        0
    }
}

/// `b` followed by a string literal.
pub open spec fn byte_string_len(b: Seq<u8>, p: int) -> int {
    if byte_is(b, p, 0x62) && string_len(b, p + 1) > 0 {
        1 + string_len(b, p + 1)
    } else {
        0
    }
}

/// `[_a-zA-Z][_a-zA-Z0-9]*`
pub open spec fn plain_ident_len(b: Seq<u8>, p: int) -> int {
    if 0 <= p < b.len() && is_ident_start(b[p]) {
        1 + ident_run(b, p + 1)
    } else {
        0
    }
}

/// `` `[_a-zA-Z][_a-zA-Z0-9]*` ``
pub open spec fn escaped_ident_len(b: Seq<u8>, p: int) -> int {
    let n = plain_ident_len(b, p + 1);
    if byte_is(b, p, 0x60) && n > 0 && byte_is(b, p + 1 + n, 0x60) {
        n + 2
    } else {
        0
    }
}

/// `\$[a-zA-Z_][a-zA-Z0-9_]*`
pub open spec fn variable_len(b: Seq<u8>, p: int) -> int {
    if byte_is(b, p, 0x24) && plain_ident_len(b, p + 1) > 0 {
        1 + plain_ident_len(b, p + 1)
    } else {
        0
    }
}

/// The position of the `//` that closes a regular expression literal whose body started before
/// `j`: the least `j' >= j` such that `//` starts at `j'` and no byte from `j - 1` up to `j'` is a
/// line break; 0 when there is none.
pub open spec fn regex_close(b: Seq<u8>, j: int) -> int
    decreases b.len() - j,
{
    if !(1 <= j < b.len()) {
        0
    } else if b[j - 1] == 0x0d || b[j - 1] == 0x0a {
        0
    } else if byte_is(b, j, 0x2f) && byte_is(b, j + 1, 0x2f) {
        j
    } else {
        regex_close(b, j + 1)
    }
}

/// The end of the body of the regular expression literal at `p`, for `//([^\r\n]+?)//`: the
/// body is the shortest non-empty run without line breaks that is followed by `//`; 0 when
/// there is no such literal at `p`.
pub open spec fn regex_body_end(b: Seq<u8>, p: int) -> int {
    if byte_is(b, p, 0x2f) && byte_is(b, p + 1, 0x2f) && 0 <= p {
        regex_close(b, p + 3)
    } else {
        0
    }
}

/// `//([^\r\n]+?)//([gimsux]*)`
pub open spec fn regex_len(b: Seq<u8>, p: int) -> int {
    let e = regex_body_end(b, p);
    if e > 0 {
        e + 2 + flags_run(b, e + 2) - p
    } else {
        0
    }
}

/// `0x[0-9a-fA-F]+(_?[0-9a-fA-F])*`, `0o[0-7]+(_?[0-7])*` or `0b[01]+(_?[01])*`, by the
/// marker `m` (`x`, `o` or `b`) and its base.
pub open spec fn radix_len(b: Seq<u8>, p: int, m: u8, radix: u8) -> int {
    if byte_is(b, p, 0x30) && byte_is(b, p + 1, m) && radix_digits(b, p + 2, radix) > 0 {
        2 + radix_digits(b, p + 2, radix)
    } else {
        0
    }
}

/// `[eE][+-]?\d(_?\d)*`
pub open spec fn exponent_len(b: Seq<u8>, p: int) -> int {
    if byte_is(b, p, 0x65) || byte_is(b, p, 0x45) {
        if (byte_is(b, p + 1, 0x2b) || byte_is(b, p + 1, 0x2d)) && digits(b, p + 2) > 0 {
            2 + digits(b, p + 2)
        } else if digits(b, p + 1) > 0 {
            1 + digits(b, p + 1)
        } else {
            0
        }
    } else {
        0
    }
}

/// `\d(_?\d)*\.[a-zA-Z_.]`: digits followed by a dot that starts a range or a member access.
pub open spec fn float_excluded(b: Seq<u8>, p: int) -> bool {
    let n = digits(b, p);
    n > 0 && byte_is(b, p + n, 0x2e) && p + n + 1 < b.len() && (is_ident_start(b[p + n + 1])
        || b[p + n + 1] == 0x2e)
}

/// `\.\d(_?\d)*([eE][+-]?\d(_?\d)*)?|\d(_?\d)*\.(\d(_?\d)*([eE][+-]?\d(_?\d)*)?)?|\d(_?\d)*([eE][+-]?\d(_?\d)*)`,
/// the first alternative that matches, each as long as it goes.
pub open spec fn float_pattern_len(b: Seq<u8>, p: int) -> int {
    let n = digits(b, p);
    if byte_is(b, p, 0x2e) && digits(b, p + 1) > 0 {
        let f = p + 1 + digits(b, p + 1);
        f + exponent_len(b, f) - p
    } else if n > 0 && byte_is(b, p + n, 0x2e) {
        let q = p + n + 1;
        if digits(b, q) > 0 {
            let f = q + digits(b, q);
            f + exponent_len(b, f) - p
        } else {
            q - p
        }
    } else if n > 0 && exponent_len(b, p + n) > 0 {
        n + exponent_len(b, p + n)
    } else {
        0
    }
}

/// A float literal: the float pattern, unless the digits are followed by a dot that starts a
/// range or a member access.
pub open spec fn float_len(b: Seq<u8>, p: int) -> int {
    if float_excluded(b, p) {
        0
    } else {
        float_pattern_len(b, p)
    }
}

/// The length of a slice fits in `usize`.
pub proof fn lemma_slice_len(b: &[u8])
    ensures
        b@.len() <= usize::MAX,
{
    let n = b.len();
    assert(n == b@.len());
}

pub fn byte_is_at(b: &[u8], i: usize, c: u8) -> (r: bool)
    ensures
        r == byte_is(b@, i as int, c),
{
    i < b.len() && b[i] == c
}

pub fn ws_run_at(b: &[u8], p: usize) -> (r: usize)
    requires
        p <= b@.len(),
    ensures
        r == ws_run(b@, p as int),
        p + r <= b@.len(),
{
    let ghost len = b.len();
    let mut i = p;
    let mut w = ws_len_at(b, i);
    while w > 0
        invariant
            len == b@.len(),
            p <= i <= b@.len(),
            w == ws_len(b@, i as int),
            ws_run(b@, p as int) == (i - p) + ws_run(b@, i as int),
        decreases b@.len() - i,
    {
        i = i + w;
        w = ws_len_at(b, i);
    }
    i - p
}

pub fn hspace_run_at(b: &[u8], p: usize) -> (r: usize)
    requires
        p <= b@.len(),
    ensures
        r == hspace_run(b@, p as int),
        p + r <= b@.len(),
{
    let mut i = p;
    while i < b.len() && (b[i] == 0x20 || b[i] == 0x09)
        invariant
            p <= i <= b@.len(),
            hspace_run(b@, p as int) == (i - p) + hspace_run(b@, i as int),
        decreases b@.len() - i,
    {
        i = i + 1;
    }
    i - p
}

pub fn line_run_at(b: &[u8], p: usize) -> (r: usize)
    requires
        p <= b@.len(),
    ensures
        r == line_run(b@, p as int),
        p + r <= b@.len(),
{
    let mut i = p;
    while i < b.len() && b[i] != 0x0d && b[i] != 0x0a
        invariant
            p <= i <= b@.len(),
            line_run(b@, p as int) == (i - p) + line_run(b@, i as int),
        decreases b@.len() - i,
    {
        i = i + 1;
    }
    i - p
}

fn ident_char(c: u8) -> (r: bool)
    ensures
        r == is_ident_char(c),
{
    c == 0x5f || (0x41 <= c && c <= 0x5a) || (0x61 <= c && c <= 0x7a) || (0x30 <= c && c <= 0x39)
}

pub fn ident_run_at(b: &[u8], p: usize) -> (r: usize)
    requires
        p <= b@.len(),
    ensures
        r == ident_run(b@, p as int),
        p + r <= b@.len(),
{
    let mut i = p;
    while i < b.len() && ident_char(b[i])
        invariant
            p <= i <= b@.len(),
            ident_run(b@, p as int) == (i - p) + ident_run(b@, i as int),
        decreases b@.len() - i,
    {
        i = i + 1;
    }
    i - p
}

pub fn flags_run_at(b: &[u8], p: usize) -> (r: usize)
    requires
        p <= b@.len(),
    ensures
        r == flags_run(b@, p as int),
        p + r <= b@.len(),
{
    let mut i = p;
    while i < b.len() && (b[i] == 0x67 || b[i] == 0x69 || b[i] == 0x6d || b[i] == 0x73 || b[i]
        == 0x75 || b[i] == 0x78)
        invariant
            p <= i <= b@.len(),
            flags_run(b@, p as int) == (i - p) + flags_run(b@, i as int),
        decreases b@.len() - i,
    {
        i = i + 1;
    }
    i - p
}

pub fn digits_at(b: &[u8], p: usize) -> (r: usize)
    requires
        p <= b@.len(),
    ensures
        r == digits(b@, p as int),
        p + r <= b@.len(),
{
    let ghost len = b.len();
    let d0 = digit_len_at(b, p);
    if d0 == 0 {
        return 0;
    }
    let mut i = p + d0;
    loop
        invariant
            len == b@.len(),
            p < i <= b@.len(),
            digits(b@, p as int) == (i - p) + digits_tail(b@, i as int),
        decreases b@.len() - i,
    {
        let d = digit_len_at(b, i);
        if d > 0 {
            i = i + d;
        } else if byte_is_at(b, i, 0x5f) && digit_len_at(b, i + 1) > 0 {
            let d1 = digit_len_at(b, i + 1);
            i = i + 1 + d1;
        } else {
            return i - p;
        }
    }
}

fn radix_digit(c: u8, radix: u8) -> (r: bool)
    ensures
        r == is_radix_digit(c, radix),
{
    if radix == 16 {
        (0x30 <= c && c <= 0x39) || (0x41 <= c && c <= 0x46) || (0x61 <= c && c <= 0x66)
    } else if radix == 8 {
        0x30 <= c && c <= 0x37
    } else {
        c == 0x30 || c == 0x31
    }
}

pub fn radix_digits_at(b: &[u8], p: usize, radix: u8) -> (r: usize)
    requires
        p <= b@.len(),
    ensures
        r == radix_digits(b@, p as int, radix),
        p + r <= b@.len(),
{
    if !(p < b.len() && radix_digit(b[p], radix)) {
        return 0;
    }
    let mut i = p + 1;
    loop
        invariant
            p < i <= b@.len(),
            radix_digits(b@, p as int, radix) == (i - p) + radix_tail(b@, i as int, radix),
        decreases b@.len() - i,
    {
        if i < b.len() && radix_digit(b[i], radix) {
            i = i + 1;
        } else if byte_is_at(b, i, 0x5f) && b.len() - i > 1 && radix_digit(b[i + 1], radix) {
            i = i + 2;
        } else {
            return i - p;
        }
    }
}

pub fn comment_len_at(b: &[u8], p: usize) -> (r: usize)
    requires
        p <= b@.len(),
    ensures
        r == comment_len(b@, p as int),
        p + r <= b@.len(),
{
    proof {
        lemma_slice_len(b);
    }
    let q = p + ws_run_at(b, p);
    if byte_is_at(b, q, 0x2d) && byte_is_at(b, q + 1, 0x2d) {
        q + 2 + line_run_at(b, q + 2) - p
    } else {
        0
    }
}

pub fn backslash_len_at(b: &[u8], p: usize) -> (r: usize)
    requires
        p <= b@.len(),
    ensures
        r == backslash_len(b@, p as int),
        p + r <= b@.len(),
{
    proof {
        lemma_slice_len(b);
    }
    let q = p + ws_run_at(b, p);
    if byte_is_at(b, q, 0x5c) && byte_is_at(b, q + 1, 0x0a) {
        q + 2 + ws_run_at(b, q + 2) - p
    } else if byte_is_at(b, q, 0x5c) && byte_is_at(b, q + 1, 0x0d) && byte_is_at(b, q + 2, 0x0a) {
        q + 3 + ws_run_at(b, q + 3) - p
    } else {
        0
    }
}

pub fn terminator_len_at(b: &[u8], p: usize) -> (r: usize)
    requires
        p <= b@.len(),
    ensures
        r == terminator_len(b@, p as int),
        p + r <= b@.len(),
{
    proof {
        lemma_slice_len(b);
    }
    if byte_is_at(b, p, 0x3b) || byte_is_at(b, p, 0x0a) {
        1 + ws_run_at(b, p + 1)
    } else if byte_is_at(b, p, 0x0d) && byte_is_at(b, p + 1, 0x0a) {
        2 + ws_run_at(b, p + 2)
    } else {
        0
    }
}

pub fn str_body_at(b: &[u8], i0: usize, q: u8) -> (r: usize)
    requires
        i0 <= b@.len(),
    ensures
        r == str_body(b@, i0 as int, q),
        i0 + r <= b@.len(),
{
    proof {
        lemma_slice_len(b);
    }
    let ghost len = b.len();
    let mut i = i0;
    loop
        invariant
            len == b@.len(),
            i0 <= i <= b@.len(),
            str_body(b@, i0 as int, q) == (if str_body(b@, i as int, q) > 0 {
                (i - i0) + str_body(b@, i as int, q)
            } else {
                0
            }),
        decreases b@.len() - i,
    {
        if i >= b.len() {
            return 0;
        }
        if b[i] == q {
            return i + 1 - i0;
        }
        if b[i] == 0x5c {
            if b.len() - i > 1 && (b[i + 1] == 0x74 || b[i + 1] == 0x6e || b[i + 1] == 0x72 || b[i
                + 1] == 0x5c) {
                i = i + 2;
            } else {
                return 0;
            }
        } else {
            i = i + 1;
        }
    }
}

pub fn string_len_at(b: &[u8], p: usize) -> (r: usize)
    requires
        p <= b@.len(),
    ensures
        r == string_len(b@, p as int),
        p + r <= b@.len(),
{
    proof {
        lemma_slice_len(b);
    }
    if byte_is_at(b, p, 0x27) {
        let n = str_body_at(b, p + 1, 0x27);
        if n > 0 {
            return 1 + n;
        }
    }
    if byte_is_at(b, p, 0x22) {
        let n = str_body_at(b, p + 1, 0x22);
        if n > 0 {
            return 1 + n;
        }
    }
    0
}

pub fn byte_string_len_at(b: &[u8], p: usize) -> (r: usize)
    requires
        p <= b@.len(),
    ensures
        r == byte_string_len(b@, p as int),
        p + r <= b@.len(),
{
    proof {
        lemma_slice_len(b);
    }
    if byte_is_at(b, p, 0x62) {
        let n = string_len_at(b, p + 1);
        if n > 0 {
            return 1 + n;
        }
    }
    0
}

pub fn plain_ident_len_at(b: &[u8], p: usize) -> (r: usize)
    requires
        p <= b@.len(),
    ensures
        r == plain_ident_len(b@, p as int),
        p + r <= b@.len(),
{
    proof {
        lemma_slice_len(b);
    }
    if p < b.len() && (b[p] == 0x5f || (0x41 <= b[p] && b[p] <= 0x5a) || (0x61 <= b[p] && b[p]
        <= 0x7a)) {
        1 + ident_run_at(b, p + 1)
    } else {
        0
    }
}

pub fn escaped_ident_len_at(b: &[u8], p: usize) -> (r: usize)
    requires
        p <= b@.len(),
    ensures
        r == escaped_ident_len(b@, p as int),
        p + r <= b@.len(),
{
    proof {
        lemma_slice_len(b);
    }
    if !byte_is_at(b, p, 0x60) {
        return 0;
    }
    let n = plain_ident_len_at(b, p + 1);
    if n > 0 && byte_is_at(b, p + 1 + n, 0x60) {
        n + 2
    } else {
        0
    }
}

pub fn variable_len_at(b: &[u8], p: usize) -> (r: usize)
    requires
        p <= b@.len(),
    ensures
        r == variable_len(b@, p as int),
        p + r <= b@.len(),
{
    proof {
        lemma_slice_len(b);
    }
    if !byte_is_at(b, p, 0x24) {
        return 0;
    }
    let n = plain_ident_len_at(b, p + 1);
    if n > 0 {
        1 + n
    } else {
        0
    }
}

pub fn regex_close_at(b: &[u8], j0: usize) -> (r: usize)
    ensures
        r == regex_close(b@, j0 as int),
        r > 0 ==> j0 <= r && r + 2 <= b@.len(),
{
    proof {
        lemma_slice_len(b);
    }
    let ghost len = b.len();
    let mut j = j0;
    loop
        invariant
            len == b@.len(),
            j0 <= j,
            regex_close(b@, j0 as int) == regex_close(b@, j as int),
        decreases b@.len() - j,
    {
        if !(1 <= j && j < b.len()) {
            return 0;
        }
        if b[j - 1] == 0x0d || b[j - 1] == 0x0a {
            return 0;
        }
        if byte_is_at(b, j, 0x2f) && byte_is_at(b, j + 1, 0x2f) {
            return j;
        }
        j = j + 1;
    }
}

pub fn regex_body_end_at(b: &[u8], p: usize) -> (r: usize)
    requires
        p <= b@.len(),
    ensures
        r == regex_body_end(b@, p as int),
        r > 0 ==> p + 3 <= r && r + 2 <= b@.len(),
{
    proof {
        lemma_slice_len(b);
    }
    if byte_is_at(b, p, 0x2f) && byte_is_at(b, p + 1, 0x2f) {
        if b.len() - p < 3 {
            return 0;
        }
        regex_close_at(b, p + 3)
    } else {
        0
    }
}

pub fn regex_len_at(b: &[u8], p: usize) -> (r: usize)
    requires
        p <= b@.len(),
    ensures
        r == regex_len(b@, p as int),
        p + r <= b@.len(),
{
    proof {
        lemma_slice_len(b);
    }
    let e = regex_body_end_at(b, p);
    if e > 0 {
        e + 2 + flags_run_at(b, e + 2) - p
    } else {
        0
    }
}

pub fn radix_len_at(b: &[u8], p: usize, m: u8, radix: u8) -> (r: usize)
    requires
        p <= b@.len(),
    ensures
        r == radix_len(b@, p as int, m, radix),
        p + r <= b@.len(),
{
    proof {
        lemma_slice_len(b);
    }
    if byte_is_at(b, p, 0x30) && byte_is_at(b, p + 1, m) {
        let n = radix_digits_at(b, p + 2, radix);
        if n > 0 {
            return 2 + n;
        }
    }
    0
}

pub fn exponent_len_at(b: &[u8], p: usize) -> (r: usize)
    requires
        p <= b@.len(),
    ensures
        r == exponent_len(b@, p as int),
        p + r <= b@.len(),
{
    proof {
        lemma_slice_len(b);
    }
    if byte_is_at(b, p, 0x65) || byte_is_at(b, p, 0x45) {
        if byte_is_at(b, p + 1, 0x2b) || byte_is_at(b, p + 1, 0x2d) {
            let n = digits_at(b, p + 2);
            if n > 0 {
                return 2 + n;
            }
        }
        let n = digits_at(b, p + 1);
        if n > 0 {
            return 1 + n;
        }
    }
    0
}

pub fn float_excluded_at(b: &[u8], p: usize) -> (r: bool)
    requires
        p <= b@.len(),
    ensures
        r == float_excluded(b@, p as int),
{
    proof {
        lemma_slice_len(b);
    }
    let n = digits_at(b, p);
    n > 0 && byte_is_at(b, p + n, 0x2e) && b.len() - (p + n) > 1 && (b[p + n + 1] == 0x5f || (0x41
        <= b[p + n + 1] && b[p + n + 1] <= 0x5a) || (0x61 <= b[p + n + 1] && b[p + n + 1] <= 0x7a)
        || b[p + n + 1] == 0x2e)
}

pub fn float_pattern_len_at(b: &[u8], p: usize) -> (r: usize)
    requires
        p <= b@.len(),
    ensures
        r == float_pattern_len(b@, p as int),
        p + r <= b@.len(),
{
    proof {
        lemma_slice_len(b);
    }
    let n = digits_at(b, p);
    if byte_is_at(b, p, 0x2e) {
        let d = digits_at(b, p + 1);
        if d > 0 {
            let f = p + 1 + d;
            return f + exponent_len_at(b, f) - p;
        }
    }
    if n > 0 && byte_is_at(b, p + n, 0x2e) {
        let q = p + n + 1;
        let d = digits_at(b, q);
        if d > 0 {
            let f = q + d;
            return f + exponent_len_at(b, f) - p;
        } else {
            return q - p;
        }
    }
    if n > 0 {
        let e = exponent_len_at(b, p + n);
        if e > 0 {
            return n + e;
        }
    }
    0
}

pub fn float_len_at(b: &[u8], p: usize) -> (r: usize)
    requires
        p <= b@.len(),
    ensures
        r == float_len(b@, p as int),
        p + r <= b@.len(),
{
    proof {
        lemma_slice_len(b);
    }
    if float_excluded_at(b, p) {
        0
    } else {
        float_pattern_len_at(b, p)
    }
}

/// `end` or `END` starts at `k`.
pub open spec fn end_word_at(b: Seq<u8>, k: int) -> bool {
    (byte_is(b, k, 0x65) && byte_is(b, k + 1, 0x6e) && byte_is(b, k + 2, 0x64)) || (byte_is(
        b,
        k,
        0x45,
    ) && byte_is(b, k + 1, 0x4e) && byte_is(b, k + 2, 0x44))
}

/// The start of the character whose encoding covers the byte at `j`, looking back no further
/// than `c`.
pub open spec fn char_start_before(b: Seq<u8>, c: int, j: int) -> int
    decreases j - c,
{
    if j > c && 0 <= j < b.len() && 0x80 <= b[j] <= 0xbf {
        char_start_before(b, c, j - 1)
    } else {
        j
    }
}

/// The character that ends at `k` (and starts no earlier than `c`) is a word character.
pub open spec fn word_before(b: Seq<u8>, c: int, k: int) -> bool {
    let j = char_start_before(b, c, k - 1);
    let w = k - j;
    regex_word_char(code_point(b, j, if 1 <= w <= 4 { w } else { 1 }))
}

/// A word character starts at `q`.
pub open spec fn word_at(b: Seq<u8>, q: int) -> bool {
    0 <= q < b.len() && {
        let w = lead_width(b[q]);
        regex_word_char(code_point(b, q, if q + w <= b.len() { w } else { 1 }))
    }
}

/// The end of the first `end` or `END` at or after `k` (and after `c`) that is a whole word:
/// no word character right before it or right after it. 0 when there is none.
pub open spec fn module_block_end(b: Seq<u8>, c: int, k: int) -> int
    decreases b.len() - k,
{
    if !(c < k && k + 3 <= b.len()) {
        0
    } else if end_word_at(b, k) && !word_before(b, c, k) && !word_at(b, k + 3) {
        k + 3
    } else {
        module_block_end(b, c, k + 1)
    }
}

/// `.+?\b(end|END)\b`, with `.` matching any character: the block up to and including the
/// first whole word `end` or `END` that follows at least one character.
pub open spec fn module_block_len(b: Seq<u8>, c: int) -> int {
    let e = module_block_end(b, c, c + 1);
    if e > 0 {
        e - c
    } else {
        0
    }
}

fn end_word_at_exec(b: &[u8], k: usize) -> (r: bool)
    ensures
        r == end_word_at(b@, k as int),
{
    proof {
        lemma_slice_len(b);
    }
    if b.len() < 3 || k > b.len() - 3 {
        return false;
    }
    (b[k] == 0x65 && b[k + 1] == 0x6e && b[k + 2] == 0x64) || (b[k] == 0x45 && b[k + 1] == 0x4e
        && b[k + 2] == 0x44)
}

fn word_before_at(b: &[u8], c: usize, k: usize) -> (r: bool)
    requires
        c < k <= b@.len(),
    ensures
        r == word_before(b@, c as int, k as int),
{
    let mut j = k - 1;
    while j > c && 0x80 <= b[j] && b[j] <= 0xbf
        invariant
            c <= j < k <= b@.len(),
            char_start_before(b@, c as int, k - 1) == char_start_before(b@, c as int, j as int),
        decreases j,
    {
        j = j - 1;
    }
    let w = k - j;
    let w2 = if w <= 4 {
        w
    } else {
        1
    };
    is_word_code_point(code_point_at(b, j, w2))
}

fn word_at_exec(b: &[u8], q: usize) -> (r: bool)
    ensures
        r == word_at(b@, q as int),
{
    proof {
        lemma_slice_len(b);
    }
    if q >= b.len() {
        return false;
    }
    let c0 = b[q];
    let w: usize = if c0 <= 0x7f {
        1
    } else if 0xc0 <= c0 && c0 <= 0xdf {
        2
    } else if 0xe0 <= c0 && c0 <= 0xef {
        3
    } else {
        4
    };
    let w2 = if w <= b.len() - q {
        w
    } else {
        1
    };
    is_word_code_point(code_point_at(b, q, w2))
}

pub fn module_block_len_at(b: &[u8], c: usize) -> (r: usize)
    requires
        c <= b@.len(),
    ensures
        r == module_block_len(b@, c as int),
        c + r <= b@.len(),
{
    proof {
        lemma_slice_len(b);
    }
    if b.len() - c < 4 {
        return 0;
    }
    let mut k = c + 1;
    while k <= b.len() && b.len() - k >= 3
        invariant
            c < k <= b@.len() + 1,
            b@.len() <= usize::MAX,
            module_block_end(b@, c as int, c + 1) == module_block_end(b@, c as int, k as int),
        decreases b@.len() + 1 - k,
    {
        if end_word_at_exec(b, k) && !word_before_at(b, c, k) && !word_at_exec(b, k + 3) {
            return k + 3 - c;
        }
        k = k + 1;
    }
    0
}

/// White space is stepped over by whole characters.
pub proof fn lemma_ws_run_whole(b: Seq<u8>, p: int)
    requires
        0 <= p <= b.len(),
    ensures
        p + ws_run(b, p) <= b.len(),
        whole_chars(b, p, p + ws_run(b, p)),
    decreases b.len() - p,
{
    if ws_len(b, p) > 0 {
        lemma_ws_len_width(b, p);
        lemma_ws_run_whole(b, p + ws_len(b, p));
    }
}

/// The digits of `(_?\d)*` are stepped over by whole characters.
pub proof fn lemma_digits_tail_whole(b: Seq<u8>, p: int)
    requires
        0 <= p <= b.len(),
    ensures
        p + digits_tail(b, p) <= b.len(),
        whole_chars(b, p, p + digits_tail(b, p)),
    decreases b.len() - p,
{
    if digit_len(b, p) > 0 {
        lemma_digit_len_width(b, p);
        lemma_digits_tail_whole(b, p + digit_len(b, p));
    } else if byte_is(b, p, 0x5f) && digit_len(b, p + 1) > 0 {
        lemma_digit_len_width(b, p + 1);
        let e = p + 1 + digit_len(b, p + 1);
        lemma_digits_tail_whole(b, e);
        assert(whole_chars(b, p + 1, e + digits_tail(b, e)));
        assert(lead_width(b[p]) == 1);
    }
}

/// The digits of `\d(_?\d)*` are stepped over by whole characters.
pub proof fn lemma_digits_whole(b: Seq<u8>, p: int)
    requires
        0 <= p <= b.len(),
    ensures
        p + digits(b, p) <= b.len(),
        whole_chars(b, p, p + digits(b, p)),
{
    if digit_len(b, p) > 0 {
        lemma_digit_len_width(b, p);
        lemma_digits_tail_whole(b, p + digit_len(b, p));
    }
}

/// An exponent is stepped over by whole characters.
pub proof fn lemma_exponent_whole(b: Seq<u8>, p: int)
    requires
        0 <= p <= b.len(),
    ensures
        p + exponent_len(b, p) <= b.len(),
        whole_chars(b, p, p + exponent_len(b, p)),
{
    if byte_is(b, p, 0x65) || byte_is(b, p, 0x45) {
        if (byte_is(b, p + 1, 0x2b) || byte_is(b, p + 1, 0x2d)) && digits(b, p + 2) > 0 {
            lemma_digits_whole(b, p + 2);
            assert(lead_width(b[p]) == 1);
            assert(lead_width(b[p + 1]) == 1);
            assert(whole_chars(b, p + 1, p + 2 + digits(b, p + 2)));
        } else if digits(b, p + 1) > 0 {
            lemma_digits_whole(b, p + 1);
            assert(lead_width(b[p]) == 1);
        }
    }
}

/// A float literal is stepped over by whole characters.
pub proof fn lemma_float_whole(b: Seq<u8>, p: int)
    requires
        0 <= p <= b.len(),
    ensures
        p + float_pattern_len(b, p) <= b.len(),
        whole_chars(b, p, p + float_pattern_len(b, p)),
{
    let n = digits(b, p);
    lemma_digits_whole(b, p);
    if byte_is(b, p, 0x2e) && digits(b, p + 1) > 0 {
        let f = p + 1 + digits(b, p + 1);
        lemma_digits_whole(b, p + 1);
        lemma_exponent_whole(b, f);
        lemma_whole_chars_trans(b, p + 1, f, f + exponent_len(b, f));
        assert(lead_width(b[p]) == 1);
    } else if n > 0 && byte_is(b, p + n, 0x2e) {
        let q = p + n + 1;
        assert(lead_width(b[p + n]) == 1);
        lemma_ascii_whole_chars(b, p + n, q);
        lemma_whole_chars_trans(b, p, p + n, q);
        if digits(b, q) > 0 {
            let f = q + digits(b, q);
            lemma_digits_whole(b, q);
            lemma_exponent_whole(b, f);
            lemma_whole_chars_trans(b, q, f, f + exponent_len(b, f));
            lemma_whole_chars_trans(b, p, q, f + exponent_len(b, f));
        }
    } else if n > 0 && exponent_len(b, p + n) > 0 {
        lemma_exponent_whole(b, p + n);
        lemma_whole_chars_trans(b, p, p + n, p + n + exponent_len(b, p + n));
    }
}

/// The last byte of a non-empty identifier run is an identifier character.
pub proof fn lemma_ident_run_last(b: Seq<u8>, p: int)
    requires
        0 <= p,
        ident_run(b, p) > 0,
    ensures
        p + ident_run(b, p) <= b.len(),
        is_ident_char(b[p + ident_run(b, p) - 1]),
    decreases b.len() - p,
{
    if ident_run(b, p + 1) > 0 {
        lemma_ident_run_last(b, p + 1);
    }
}

/// The last byte of a non-empty flags run is a flag letter.
pub proof fn lemma_flags_run_last(b: Seq<u8>, p: int)
    requires
        0 <= p,
        flags_run(b, p) > 0,
    ensures
        p + flags_run(b, p) <= b.len(),
        b[p + flags_run(b, p) - 1] <= 0x7f,
    decreases b.len() - p,
{
    if flags_run(b, p + 1) > 0 {
        lemma_flags_run_last(b, p + 1);
    }
}

/// The last byte of a non-empty run of base-`radix` digits is such a digit.
pub proof fn lemma_radix_tail_last(b: Seq<u8>, p: int, radix: u8)
    requires
        0 <= p,
        radix_tail(b, p, radix) > 0,
    ensures
        p + radix_tail(b, p, radix) <= b.len(),
        b[p + radix_tail(b, p, radix) - 1] <= 0x7f,
    decreases b.len() - p,
{
    if 0 <= p < b.len() && is_radix_digit(b[p], radix) {
        if radix_tail(b, p + 1, radix) > 0 {
            lemma_radix_tail_last(b, p + 1, radix);
        }
    } else {
        if radix_tail(b, p + 2, radix) > 0 {
            lemma_radix_tail_last(b, p + 2, radix);
        }
    }
}

/// The last byte of a closed string body is the quote.
pub proof fn lemma_str_body_last(b: Seq<u8>, i: int, q: u8)
    requires
        0 <= i,
        str_body(b, i, q) > 0,
    ensures
        i + str_body(b, i, q) <= b.len(),
        b[i + str_body(b, i, q) - 1] == q,
    decreases b.len() - i,
{
    if b[i] == q {
    } else if b[i] == 0x5c {
        lemma_str_body_last(b, i + 2, q);
    } else {
        lemma_str_body_last(b, i + 1, q);
    }
}

/// A run of horizontal space ends at a byte below 0x80 or at the end.
pub proof fn lemma_hspace_run_end(b: Seq<u8>, p: int)
    requires
        0 <= p <= b.len(),
    ensures
        0 <= hspace_run(b, p),
        p + hspace_run(b, p) <= b.len(),
        forall|k: int| p <= k < p + hspace_run(b, p) ==> b[k] <= 0x7f,
    decreases b.len() - p,
{
    if 0 <= p < b.len() && (b[p] == 0x20 || b[p] == 0x09) {
        lemma_hspace_run_end(b, p + 1);
    }
}

/// A run without line breaks ends at a line break or at the end.
pub proof fn lemma_line_run_end(b: Seq<u8>, p: int)
    requires
        0 <= p <= b.len(),
    ensures
        p + line_run(b, p) <= b.len(),
        p + line_run(b, p) < b.len() ==> b[p + line_run(b, p)] <= 0x7f,
    decreases b.len() - p,
{
    if 0 <= p < b.len() && b[p] != 0x0d && b[p] != 0x0a {
        lemma_line_run_end(b, p + 1);
    }
}

/// A flags run is never negative.
pub proof fn lemma_flags_run_nonneg(b: Seq<u8>, p: int)
    ensures
        0 <= flags_run(b, p),
    decreases b.len() - p,
{
    if 0 <= p < b.len() && (b[p] == 0x67 || b[p] == 0x69 || b[p] == 0x6d || b[p] == 0x73 || b[p]
        == 0x75 || b[p] == 0x78) {
        lemma_flags_run_nonneg(b, p + 1);
    }
}

/// The close of a regular expression literal is `//`.
pub proof fn lemma_regex_close(b: Seq<u8>, j: int)
    requires
        regex_close(b, j) > 0,
    ensures
        j <= regex_close(b, j),
        byte_is(b, regex_close(b, j), 0x2f),
        byte_is(b, regex_close(b, j) + 1, 0x2f),
    decreases b.len() - j,
{
    if !(byte_is(b, j, 0x2f) && byte_is(b, j + 1, 0x2f)) {
        lemma_regex_close(b, j + 1);
    }
}

/// The block found by the module block search ends with `end` or `END` after its start.
pub proof fn lemma_module_block_end(b: Seq<u8>, c: int, k: int)
    requires
        module_block_end(b, c, k) > 0,
    ensures
        c < module_block_end(b, c, k) - 3,
        module_block_end(b, c, k) <= b.len(),
        end_word_at(b, module_block_end(b, c, k) - 3),
    decreases b.len() - k,
{
    if !(end_word_at(b, k) && !word_before(b, c, k) && !word_at(b, k + 3)) {
        lemma_module_block_end(b, c, k + 1);
    }
}

} // verus!

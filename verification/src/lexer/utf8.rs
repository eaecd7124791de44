//! Facts about character boundaries in UTF-8 text that the lexer relies on when it slices its input.

use vstd::prelude::*;
use vstd::utf8::*;
use vstd::string::*;

verus! {

/// The number of bytes of the character whose encoding starts with the byte `x`.
pub open spec fn lead_width(x: u8) -> int {
    if x <= 0x7f {
        1
    } else if 0xc0 <= x <= 0xdf {
        2
    } else if 0xe0 <= x <= 0xef {
        3
    } else {
        4
    }
}

/// `q` is reached from `p` by stepping over whole characters.
pub open spec fn whole_chars(b: Seq<u8>, p: int, q: int) -> bool
    decreases q - p,
{
    if p >= q {
        p == q
    } else {
        0 <= p < b.len() && p + lead_width(b[p]) <= q && whole_chars(b, p + lead_width(b[p]), q)
    }
}

/// Stepping over the character that starts at a boundary lands on a boundary.
pub proof fn lemma_boundary_step(b: Seq<u8>, i: int)
    requires
        valid_utf8(b),
        is_char_boundary(b, i),
        0 <= i < b.len(),
    ensures
        i + lead_width(b[i]) <= b.len(),
        is_char_boundary(b, i + lead_width(b[i])),
    decreases b.len(),
{
    let l = length_of_first_scalar(b);
    assert(valid_first_scalar(b));
    let pop = pop_first_scalar(b);
    assert(valid_utf8(pop));
    if i == 0 {
        assert(l == lead_width(b[0]));
        assert(is_char_boundary(pop, 0));
    } else {
        let j = i - l;
        assert(j >= 0) by {
            if j < 0 {
                assert(!is_char_boundary(pop, j));
            }
        }
        assert(is_char_boundary(pop, j));
        assert(pop[j] == b[i]);
        lemma_boundary_step(pop, j);
        assert(is_char_boundary(pop, j + lead_width(b[i])));
    }
}

/// Stepping over whole characters from a boundary lands on a boundary.
pub proof fn lemma_whole_chars_boundary(b: Seq<u8>, p: int, q: int)
    requires
        valid_utf8(b),
        is_char_boundary(b, p),
        0 <= p <= b.len(),
        whole_chars(b, p, q),
    ensures
        q <= b.len(),
        is_char_boundary(b, q),
    decreases q - p,
{
    if p < q {
        lemma_boundary_step(b, p);
        lemma_whole_chars_boundary(b, p + lead_width(b[p]), q);
    }
}

/// Whole characters can be stepped over one after the other.
pub proof fn lemma_whole_chars_trans(b: Seq<u8>, p: int, q: int, r: int)
    requires
        whole_chars(b, p, q),
        whole_chars(b, q, r),
    ensures
        whole_chars(b, p, r),
    decreases q - p,
{
    if p < q {
        lemma_whole_chars_trans(b, p + lead_width(b[p]), q, r);
    }
}

/// A run of bytes below 0x80 consists of whole characters.
pub proof fn lemma_ascii_whole_chars(b: Seq<u8>, p: int, q: int)
    requires
        0 <= p <= q <= b.len(),
        forall|k: int| p <= k < q ==> b[k] <= 0x7f,
    ensures
        whole_chars(b, p, q),
    decreases q - p,
{
    if p < q {
        lemma_ascii_whole_chars(b, p + 1, q);
        assert(lead_width(b[p]) == 1);
    }
}

/// A byte below 0x80, and the end of the text, are character boundaries.
pub proof fn lemma_ascii_boundary(b: Seq<u8>, i: int)
    requires
        valid_utf8(b),
        0 <= i <= b.len(),
        i < b.len() ==> b[i] <= 0x7f,
    ensures
        is_char_boundary(b, i),
{
    is_char_boundary_start_end_of_seq(b);
    if i < b.len() {
        is_char_boundary_iff_not_is_continuation_byte(b, i);
    }
}

/// The position right after a byte below 0x80 is a character boundary.
pub proof fn lemma_after_ascii(b: Seq<u8>, k: int)
    requires
        valid_utf8(b),
        0 <= k < b.len(),
        b[k] <= 0x7f,
    ensures
        is_char_boundary(b, k + 1),
{
    lemma_ascii_boundary(b, k);
    lemma_boundary_step(b, k);
}

/// Slices `s` between two character boundaries, given as byte offsets.
pub fn str_slice<'a>(s: &'a str, start: usize, end: usize) -> (r: &'a str)
    requires
        start <= end <= s.spec_bytes().len(),
        is_char_boundary(s.spec_bytes(), start as int),
        is_char_boundary(s.spec_bytes(), end as int),
    ensures
        r.spec_bytes() == s.spec_bytes().subrange(start as int, end as int),
{
    let ghost b = s.spec_bytes();
    proof {
        encode_utf8_valid_utf8(s@);
        valid_utf8_split(b, start as int);
    }
    let (_, tail) = s.split_at(start);
    let ghost t = tail.spec_bytes();
    assert(t =~= b.subrange(start as int, b.len() as int));
    proof {
        is_char_boundary_start_end_of_seq(t);
        if end < b.len() {
            is_char_boundary_iff_not_is_continuation_byte(b, end as int);
            is_char_boundary_iff_not_is_continuation_byte(t, (end - start) as int);
        }
    }
    let (mid, _) = tail.split_at(end - start);
    assert(mid.spec_bytes() =~= b.subrange(start as int, end as int));
    mid
}

} // verus!

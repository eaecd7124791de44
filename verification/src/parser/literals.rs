//! Conversion of the text of integer literals into values.

use vstd::prelude::*;

use super::errors::ParserError;

verus! {

/// `s` with each occurrence of `from` replaced by `to`.
pub open spec fn replaced_chars(s: Seq<char>, from: char, to: Seq<char>) -> Seq<char>
    decreases s.len(),
{
    if s.len() == 0 {
        Seq::empty()
    } else {
        (if s[0] == from {
            to
        } else {
            seq![s[0]]
        }) + replaced_chars(s.drop_first(), from, to)
    }
}

/// The value of `c` as a digit in base `radix`: `0`-`9`, then `a`-`z` or `A`-`Z` for 10 to 35.
pub open spec fn digit_of(c: char, radix: u32) -> Option<nat> {
    let d: int = if '0' <= c && c <= '9' {
        c as int - '0' as int
    } else if 'a' <= c && c <= 'z' {
        c as int - 'a' as int + 10
    } else if 'A' <= c && c <= 'Z' {
        c as int - 'A' as int + 10
    } else {
        -1
    };
    if 0 <= d && d < radix {
        Some(d as nat)
    } else {
        None
    }
}

/// The value of the digits `s` in base `radix`, if each of them is a digit.
pub open spec fn digits_value(s: Seq<char>, radix: u32) -> Option<nat>
    decreases s.len(),
{
    if s.len() == 0 {
        Some(0)
    } else {
        match (digits_value(s.drop_last(), radix), digit_of(s.last(), radix)) {
            (Some(v), Some(d)) => Some(v * (radix as nat) + d),
            _ => None,
        }
    }
}

/// The value of `s` read as an unsigned integer in base `radix`: an optional `+` sign followed
/// by at least one digit, with a value that fits in a `u128`.
pub open spec fn int_literal_value(s: Seq<char>, radix: u32) -> Option<u128> {
    let body = if s.len() > 0 && s[0] == '+' {
        s.drop_first()
    } else {
        s
    };
    if body.len() > 0 && digits_value(body, radix) is Some && digits_value(body, radix).unwrap()
        <= u128::MAX {
        Some(digits_value(body, radix).unwrap() as u128)
    } else {
        None
    }
}

/// Calls `str::replace` with a character pattern: the result is `s` with each occurrence of
/// `from` replaced by `to`, as its documentation states.
#[verifier::external_body]
fn str_replace_char(s: &str, from: char, to: &str) -> (r: String)
    ensures
        r@ == replaced_chars(s@, from, to@),
{
    s.replace(from, to)
}

/// Calls `u128::from_str_radix`. As its documentation states, the text is an optional `+` sign
/// followed by digits of the radix (`0`-`9`, `a`-`z`, `A`-`Z`), and the call fails on any other
/// text and on a value that does not fit; it panics on a radix outside 2 to 36.
#[verifier::external_body]
fn u128_from_str_radix(s: &str, radix: u32) -> (r: Result<u128, core::num::ParseIntError>)
    requires
        2 <= radix <= 36,
    ensures
        match r {
            Ok(v) => int_literal_value(s@, radix) == Some(v),
            Err(_) => int_literal_value(s@, radix) is None,
        },
{
    u128::from_str_radix(s, radix)
}

/// Converts the text of an integer literal in base `radix` into its value; underscores between
/// digits are ignored. The error holds the text without its underscores.
pub fn convert_string_to_int(str: &str, radix: u32) -> (r: Result<u128, ParserError>)
    requires
        2 <= radix <= 36,
    ensures
        match r {
            Ok(v) => int_literal_value(replaced_chars(str@, '_', Seq::empty()), radix) == Some(v),
            Err(ParserError::InvalidIntegerLiteral(_, cleaned)) => {
                &&& cleaned@ == replaced_chars(str@, '_', Seq::empty())
                &&& int_literal_value(cleaned@, radix) is None
            },
            Err(_) => false,
        },
{
    let empty = "";
    proof {
        reveal_strlit("");
        assert(empty@ =~= Seq::<char>::empty());
    }
    let cleaned = str_replace_char(str, '_', empty);
    match u128_from_str_radix(cleaned.as_str(), radix) {
        Ok(v) => Ok(v),
        Err(e) => Err(ParserError::InvalidIntegerLiteral(e, cleaned)),
    }
}

} // verus!

//! The lexer's Unicode classes agree with those of the regular expression engine, on every
//! character.

use regex::Regex;
use zeroql::lexer::{Lexer, Token, TokenKind};

#[test]
fn test_decimal_digits_match_unicode_class() {
    let digit = Regex::new(r"^\d$").unwrap();
    for cp in 0u32..=0x10ffff {
        let c = match char::from_u32(cp) {
            Some(c) => c,
            None => continue,
        };
        let s = c.to_string();
        let mut lexer = Lexer::from(s.as_str());
        let is_digit = matches!(
            lexer.next(),
            Some(Ok(Token { kind: TokenKind::DecIntegerLiteral(_), .. }))
        );
        assert_eq!(is_digit, digit.is_match(&s), "code point {:x}", cp);
    }
}

#[test]
fn test_white_space_matches_unicode_class() {
    let space = Regex::new(r"^\s$").unwrap();
    for cp in 0u32..=0x10ffff {
        let c = match char::from_u32(cp) {
            Some(c) => c,
            None => continue,
        };
        let s = format!("({})", c);
        let mut lexer = Lexer::from(s.as_str());
        lexer.next();
        let close = 1 + c.len_utf8();
        let skipped = matches!(lexer.next(), Some(Ok(t)) if t == Token::new(close..close + 1, TokenKind::OpCloseParen));
        assert_eq!(skipped, space.is_match(&c.to_string()), "code point {:x}", cp);
    }
}

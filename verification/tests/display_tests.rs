use zeroql::lexer::{Bracket, RegexFlags, TokenKind};

#[test]
fn test_token_kind_to_string() {
    assert_eq!(TokenKind::Terminator.to_string(), ";");
    assert_eq!(TokenKind::PlainIdentifier("foo").to_string(), "foo");
    assert_eq!(TokenKind::EscapedIdentifier("foo").to_string(), "`foo`");
    assert_eq!(TokenKind::Variable("x").to_string(), "$x");
    assert_eq!(TokenKind::BinIntegerLiteral("101").to_string(), "0b101");
    assert_eq!(TokenKind::OctIntegerLiteral("17").to_string(), "0o17");
    assert_eq!(TokenKind::HexIntegerLiteral("ff").to_string(), "0xff");
    assert_eq!(TokenKind::DecIntegerLiteral("42").to_string(), "42");
    assert_eq!(TokenKind::FloatLiteral("1.5e3").to_string(), "1.5e3");
    assert_eq!(TokenKind::StringLiteral("hi").to_string(), "'hi'");
    assert_eq!(TokenKind::ByteStringLiteral("hi").to_string(), "b'hi'");
    assert_eq!(TokenKind::ModuleBlock(" x ").to_string(), " x ");
    assert_eq!(TokenKind::OpOpenBrace.to_string(), "{");
    assert_eq!(TokenKind::OpCloseBrace.to_string(), "}");
    assert_eq!(TokenKind::OpOpenSquareBracket.to_string(), "[");
    assert_eq!(TokenKind::OpAssignMul.to_string(), "×=");
    assert_eq!(TokenKind::OpContainsAnyLexer.to_string(), "⊃");
    assert_eq!(TokenKind::OpSafeNav.to_string(), "??.");
    assert_eq!(TokenKind::OpRangeIncl.to_string(), "..=");
}

#[test]
fn test_regex_literal_to_string() {
    let flags = RegexFlags::from_bits(RegexFlags::G_GLOBAL | RegexFlags::X_EXTENDED);
    assert_eq!(TokenKind::RegexLiteral("a+", flags).to_string(), "//a+//gx");
    assert_eq!(TokenKind::RegexLiteral("a+", RegexFlags::empty()).to_string(), "//a+//");
}

#[test]
fn test_regex_flags() {
    let flags = RegexFlags::from("xmig");
    assert_eq!(
        flags,
        RegexFlags::from_bits(
            RegexFlags::G_GLOBAL
                | RegexFlags::I_IGNORE_CASE
                | RegexFlags::M_MULTILINE
                | RegexFlags::X_EXTENDED
        )
    );
    assert_eq!(flags.to_string(), "gimx");
    assert_eq!(RegexFlags::from("gimsux").bits(), 63);
    assert_eq!(RegexFlags::from("abc").bits(), 0);
    assert!(flags.contains(RegexFlags::from("gi")));
    assert!(!flags.contains(RegexFlags::from("s")));
    let mut f = RegexFlags::empty();
    f.set(RegexFlags::from("su"), true);
    assert_eq!(f.bits(), 24);
    f.set(RegexFlags::from("s"), false);
    assert_eq!(f.bits(), 16);
}

#[test]
fn test_bracket_to_string_and_opposite() {
    assert_eq!(Bracket::OpenParen.to_string(), "(");
    assert_eq!(Bracket::CloseSquareBracket.to_string(), "]");
    assert_eq!(Bracket::OpenBrace.opposite(), Bracket::CloseBrace);
    assert_eq!(Bracket::CloseParen.opposite(), Bracket::OpenParen);
    assert_eq!(Bracket::OpenSquareBracket.opposite().opposite(), Bracket::OpenSquareBracket);
}

#[test]
fn test_regex_flags_round_trip() {
    for bits in 0u8..64 {
        let flags = RegexFlags::from_bits(bits);
        let written = flags.to_string();
        assert_eq!(RegexFlags::from(written.as_str()), flags);
    }
    // Bits beyond the six flags are not written out.
    assert_eq!(RegexFlags::from(RegexFlags::from_bits(64).to_string().as_str()).bits(), 0);
}

#[test]
fn test_regex_flags_default() {
    assert_eq!(RegexFlags::default(), RegexFlags::empty());
}

#[test]
fn test_written_tokens_give_back_their_source() {
    let source = "name `esc` $var 0b1_0 0o17 0xfF 1_000 2.5e3 ∋ x";
    let mut lexer = zeroql::lexer::Lexer::from(source);
    let mut checked = 0;
    while let Some(result) = lexer.next() {
        let token = result.unwrap();
        match token.kind {
            TokenKind::OpContainsLexer => {}
            _ => {
                assert_eq!(token.kind.to_string(), &source[token.span.clone()]);
                checked += 1;
            }
        }
    }
    assert_eq!(checked, 9);
}

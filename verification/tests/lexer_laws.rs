use zeroql::lexer::{Bracket, Lexer, LexerError, Token, TokenKind};
use zeroql::parser::StateCapture;

#[test]
fn test_tokens_advance_and_do_not_overlap() {
    let mut lexer = Lexer::from("alpha  beta\t1.5 ..= $x");
    let mut last_end = 0;
    let mut count = 0;
    while let Some(result) = lexer.next() {
        let token = result.unwrap();
        assert!(token.span.start >= last_end);
        assert!(token.span.start < token.span.end);
        assert_eq!(lexer.state.cursor, token.span.end);
        last_end = token.span.end;
        count += 1;
    }
    assert_eq!(count, 5);
    assert_eq!(lexer.state.cursor, 22);
}

#[test]
fn test_end_is_final() {
    let mut lexer = Lexer::from("name   ");
    assert_eq!(
        lexer.next().unwrap().unwrap(),
        Token::new(0..4, TokenKind::PlainIdentifier("name"))
    );
    assert!(lexer.next().is_none());
    let state = lexer.get_state();
    assert_eq!(state.cursor, 7);
    assert!(lexer.next().is_none());
    assert!(lexer.next_token().unwrap().is_none());
    assert_eq!(lexer.state, state);
}

#[test]
fn test_empty_input() {
    let mut lexer = Lexer::from("");
    assert!(lexer.next().is_none());
    assert_eq!(lexer.state.cursor, 0);
}

#[test]
fn test_closing_bracket_without_opening() {
    let mut lexer = Lexer::from(")");
    match lexer.next().unwrap() {
        Err(LexerError::MismatchedBracket { span, expected, found }) => {
            assert_eq!(span, 0..1);
            assert_eq!(expected, None);
            assert_eq!(found, Bracket::CloseParen);
        }
        other => panic!("unexpected result {:?}", other),
    }
    assert_eq!(lexer.state.cursor, 0);
}

#[test]
fn test_mismatched_bracket_pops_the_stack() {
    let mut lexer = Lexer::from("( ]");
    assert_eq!(lexer.next().unwrap().unwrap(), Token::new(0..1, TokenKind::OpOpenParen));
    assert_eq!(lexer.state.bracket_stack, vec![Bracket::OpenParen]);
    match lexer.next().unwrap() {
        Err(LexerError::MismatchedBracket { span, expected, found }) => {
            assert_eq!(span, 2..3);
            assert_eq!(expected, Some(Bracket::CloseParen));
            assert_eq!(found, Bracket::CloseSquareBracket);
        }
        other => panic!("unexpected result {:?}", other),
    }
    assert!(lexer.state.bracket_stack.is_empty());
    assert_eq!(lexer.state.cursor, 2);
}

#[test]
fn test_matching_brackets_nest() {
    let mut lexer = Lexer::from("{[()]}");
    let mut depths = Vec::new();
    while let Some(result) = lexer.next() {
        result.unwrap();
        depths.push(lexer.state.bracket_stack.len());
    }
    assert_eq!(depths, vec![1, 2, 3, 2, 1, 0]);
}

#[test]
fn test_unexpected_character_after_skipping() {
    let mut lexer = Lexer::from("  #");
    match lexer.next().unwrap() {
        Err(LexerError::UnexpectedCharacter { span, character }) => {
            assert_eq!(span, 2..3);
            assert_eq!(character, '#');
        }
        other => panic!("unexpected result {:?}", other),
    }
    assert_eq!(lexer.state.cursor, 2);
}

#[test]
fn test_module_block_without_end() {
    let mut lexer = Lexer::from("define module tools with body");
    for _ in 0..4 {
        lexer.next().unwrap().unwrap();
    }
    assert_eq!(lexer.state.module_block_precedent, 4);
    match lexer.next().unwrap() {
        Err(LexerError::UnableToLexModuleBlock { span }) => assert_eq!(span, 24..25),
        other => panic!("unexpected result {:?}", other),
    }
    assert_eq!(lexer.state.module_block_precedent, 0);
}

#[test]
fn test_module_block_is_followed_by_end() {
    let mut lexer = Lexer::from("define module m with x = 1 end");
    for _ in 0..4 {
        lexer.next().unwrap().unwrap();
    }
    let block = lexer.next().unwrap().unwrap();
    assert_eq!(block, Token::new(20..27, TokenKind::ModuleBlock(" x = 1 ")));
    assert_eq!(&"define module m with x = 1 end"[27..30], "end");
    assert_eq!(
        lexer.next().unwrap().unwrap(),
        Token::new(27..30, TokenKind::PlainIdentifier("end"))
    );
}

#[test]
fn test_module_block_end_must_be_a_word() {
    let mut lexer = Lexer::from("define module m with sender END");
    for _ in 0..4 {
        lexer.next().unwrap().unwrap();
    }
    assert_eq!(
        lexer.next().unwrap().unwrap(),
        Token::new(20..28, TokenKind::ModuleBlock(" sender "))
    );
}

#[test]
fn test_state_round_trip_replays_token() {
    let mut lexer = Lexer::from("first second");
    let saved = lexer.get_state();
    let a = lexer.next().unwrap().unwrap();
    lexer.set_state(saved.clone());
    assert_eq!(lexer.get_state(), saved);
    let b = lexer.next().unwrap().unwrap();
    assert_eq!(a, b);
    assert_eq!(b, Token::new(0..5, TokenKind::PlainIdentifier("first")));
}

#[test]
fn test_continuation_flag_cleared_by_newline() {
    let mut lexer = Lexer::from("a +=\n b");
    lexer.next().unwrap().unwrap();
    assert_eq!(lexer.next().unwrap().unwrap(), Token::new(2..4, TokenKind::OpAssignPlus));
    assert!(lexer.state.continuation_precedent);
    assert_eq!(
        lexer.next().unwrap().unwrap(),
        Token::new(6..7, TokenKind::PlainIdentifier("b"))
    );
    assert!(!lexer.state.continuation_precedent);
}

#[test]
fn test_newline_without_continuation_is_terminator() {
    let mut lexer = Lexer::from("a\nb");
    lexer.next().unwrap().unwrap();
    assert_eq!(lexer.next().unwrap().unwrap(), Token::new(1..2, TokenKind::Terminator));
}

#[test]
fn test_multibyte_text_is_sliced_at_boundaries() {
    let mut lexer = Lexer::from("'héllo' ∋ `name`");
    assert_eq!(
        lexer.next().unwrap().unwrap(),
        Token::new(0..8, TokenKind::StringLiteral("héllo"))
    );
    assert_eq!(lexer.next().unwrap().unwrap(), Token::new(9..12, TokenKind::OpContainsLexer));
    assert_eq!(
        lexer.next().unwrap().unwrap(),
        Token::new(13..19, TokenKind::EscapedIdentifier("name"))
    );
    assert!(lexer.next().is_none());
}

#[test]
fn test_unexpected_non_ascii_character() {
    let mut lexer = Lexer::from("é");
    match lexer.next().unwrap() {
        Err(LexerError::UnexpectedCharacter { span, character }) => {
            assert_eq!(span, 0..1);
            assert_eq!(character, 'é');
        }
        other => panic!("unexpected result {:?}", other),
    }
}

#[test]
fn test_module_block_end_after_non_ascii_letter_is_not_a_word() {
    let mut lexer = Lexer::from("define module m with ñend END");
    for _ in 0..4 {
        lexer.next().unwrap().unwrap();
    }
    assert_eq!(
        lexer.next().unwrap().unwrap(),
        Token::new(20..27, TokenKind::ModuleBlock(" ñend "))
    );
}

#[test]
fn test_module_block_end_after_symbol_is_a_word() {
    let mut lexer = Lexer::from("define module m with ∋end END");
    for _ in 0..4 {
        lexer.next().unwrap().unwrap();
    }
    assert_eq!(lexer.next().unwrap().unwrap(), Token::new(20..24, TokenKind::ModuleBlock(" ∋")));
    assert_eq!(
        lexer.next().unwrap().unwrap(),
        Token::new(24..27, TokenKind::PlainIdentifier("end"))
    );
}

#[test]
fn test_unicode_digits_and_spaces() {
    // U+0663 ARABIC-INDIC DIGIT THREE is a decimal digit; U+00A0 is white space, which is skipped
    // inside brackets.
    let mut lexer = Lexer::from("(1\u{663}\u{a0}x)");
    assert_eq!(lexer.next().unwrap().unwrap(), Token::new(0..1, TokenKind::OpOpenParen));
    assert_eq!(
        lexer.next().unwrap().unwrap(),
        Token::new(1..4, TokenKind::DecIntegerLiteral("1\u{663}"))
    );
    assert_eq!(
        lexer.next().unwrap().unwrap(),
        Token::new(6..7, TokenKind::PlainIdentifier("x"))
    );
    assert_eq!(lexer.next().unwrap().unwrap(), Token::new(7..8, TokenKind::OpCloseParen));
}

#[test]
fn test_unexpected_character_is_the_one_at_the_span() {
    // Outside brackets, U+00A0 is neither skipped nor a token; it is the reported character.
    let mut lexer = Lexer::from("1\u{663}\u{a0}x");
    lexer.next().unwrap().unwrap();
    match lexer.next().unwrap() {
        Err(LexerError::UnexpectedCharacter { span, character }) => {
            assert_eq!(span, 3..4);
            assert_eq!(character, '\u{a0}');
        }
        other => panic!("unexpected result {:?}", other),
    }
}

#[test]
fn test_progress_beyond_module_block_is_kept() {
    let mut lexer = Lexer::from("(1)");
    let mut state = lexer.get_state();
    state.module_block_precedent = 7;
    lexer.set_state(state);
    assert_eq!(lexer.next().unwrap().unwrap(), Token::new(0..1, TokenKind::OpOpenParen));
    assert_eq!(lexer.state.module_block_precedent, 7);
}

#[test]
fn test_unexpected_character_after_multibyte_token() {
    let mut lexer = Lexer::from("∋ @");
    assert_eq!(lexer.next().unwrap().unwrap(), Token::new(0..3, TokenKind::OpContainsLexer));
    match lexer.next().unwrap() {
        Err(LexerError::UnexpectedCharacter { span, character }) => {
            assert_eq!(span, 4..5);
            assert_eq!(character, '@');
        }
        other => panic!("unexpected result {:?}", other),
    }
}

#[test]
fn test_both_spellings_of_null_operators() {
    let mut lexer = Lexer::from("a ?? b ??. c ?: d ?. e ? f");
    let kinds: Vec<TokenKind> = std::iter::from_fn(|| lexer.next()).map(|r| r.unwrap().kind).collect();
    assert_eq!(
        kinds,
        vec![
            TokenKind::PlainIdentifier("a"),
            TokenKind::OpNullCoalesce,
            TokenKind::PlainIdentifier("b"),
            TokenKind::OpSafeNav,
            TokenKind::PlainIdentifier("c"),
            TokenKind::OpNullCoalesce,
            TokenKind::PlainIdentifier("d"),
            TokenKind::OpSafeNav,
            TokenKind::PlainIdentifier("e"),
            TokenKind::OpOptional,
            TokenKind::PlainIdentifier("f"),
        ]
    );
}

#[test]
fn test_cursor_beyond_the_end_gives_the_end() {
    let mut lexer = Lexer::from("abc");
    lexer.state.cursor = 10;
    assert_eq!(lexer.next_token(), Ok(None));
    assert_eq!(lexer.state.cursor, 10);
}

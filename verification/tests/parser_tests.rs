use std::collections::{BTreeMap, HashSet};

use zeroql::ast::{AnalysisTag, Direction, RelateArrow, UpdateAssign};
use zeroql::lexer::{Bracket, LexerError};
use zeroql::parser::{convert_string_to_int, permute, Choice, Combinator, ParserError, StateCapture};

struct CharParser {
    input: Vec<char>,
    cursor: usize,
}

impl CharParser {
    fn new(input: &str) -> Self {
        CharParser { input: input.chars().collect(), cursor: 0 }
    }
}

impl StateCapture for CharParser {
    type State = usize;

    fn get_state(&self) -> usize {
        self.cursor
    }

    fn set_state(&mut self, state: usize) {
        self.cursor = state;
    }
}

type Func = Box<dyn Fn(&mut CharParser) -> Result<Option<Combinator<char>>, String>>;

fn expect(c: char) -> Func {
    Box::new(move |p: &mut CharParser| {
        if p.input.get(p.cursor) == Some(&'!') {
            return Err(format!("bad input at {}", p.cursor));
        }
        if p.input.get(p.cursor) == Some(&c) {
            p.cursor += 1;
            Ok(Some(Combinator::Single(c)))
        } else {
            Ok(None)
        }
    })
}

fn funcs(chars: &[char]) -> BTreeMap<usize, Func> {
    let mut map = BTreeMap::new();
    for (i, c) in chars.iter().enumerate() {
        map.insert(i, expect(*c));
    }
    map
}

fn indexed(i: usize, c: char) -> Box<Combinator<char>> {
    Box::new(Combinator::Indexed(i, Box::new(Combinator::Single(c))))
}

#[test]
fn test_permute_any_order() {
    let mut parser = CharParser::new("cab");
    let (map, passed) = permute(3, &mut parser, funcs(&['a', 'b', 'c'])).unwrap();
    assert_eq!(map.len(), 3);
    assert_eq!(map[&0], indexed(1, 'a'));
    assert_eq!(map[&1], indexed(2, 'b'));
    assert_eq!(map[&2], indexed(0, 'c'));
    assert_eq!(passed, HashSet::from([0, 1, 2]));
    assert_eq!(parser.cursor, 3);
}

#[test]
fn test_permute_optional_rule_missing() {
    let mut parser = CharParser::new("b");
    let (map, passed) = permute(3, &mut parser, funcs(&['c', 'b', 'a'])).unwrap();
    assert_eq!(map[&0], Box::new(Combinator::Void));
    assert_eq!(map[&1], indexed(0, 'b'));
    assert_eq!(map[&2], Box::new(Combinator::Void));
    assert_eq!(passed, HashSet::from([1]));
}

#[test]
fn test_permute_stops_at_first_place_without_match() {
    let mut parser = CharParser::new("axb");
    let (map, passed) = permute(2, &mut parser, funcs(&['a', 'b'])).unwrap();
    assert_eq!(map[&0], indexed(0, 'a'));
    assert_eq!(map[&1], Box::new(Combinator::Void));
    assert_eq!(passed, HashSet::from([0]));
    assert_eq!(parser.cursor, 1);
}

#[test]
fn test_permute_error_is_returned() {
    let mut parser = CharParser::new("a!");
    let result = permute(2, &mut parser, funcs(&['a', 'b']));
    assert_eq!(result.err(), Some("bad input at 1".to_string()));
}

#[test]
fn test_permute_with_no_places() {
    let mut parser = CharParser::new("a");
    let (map, passed) = permute(0, &mut parser, funcs(&['a'])).unwrap();
    assert!(map.is_empty());
    assert!(passed.is_empty());
    assert_eq!(parser.get_state(), 0);
}

#[test]
fn test_combinator_unwraps() {
    assert_eq!(Combinator::Single(7).unwrap_single(), 7);
    let choice = Combinator::Choice(Choice::B(Box::new(Combinator::Single(1))));
    assert_eq!(choice.unwrap_choice(), Choice::B(Box::new(Combinator::Single(1))));
    let many = Combinator::Many(vec![Combinator::Single(1), Combinator::Void]);
    assert_eq!(many.unwrap_many(), vec![Combinator::Single(1), Combinator::Void]);
    let (i, inner) = Combinator::Indexed(3, Box::new(Combinator::Single(2))).unwrap_indexed();
    assert_eq!(i, 3);
    assert_eq!(*inner, Combinator::Single(2));
    let b = |x: i32| Box::new(Combinator::Single(x));
    let (x, y) = Combinator::Seq2(b(1), b(2)).unwrap_seq2();
    assert_eq!((*x, *y), (Combinator::Single(1), Combinator::Single(2)));
    let (_, _, z) = Combinator::Seq3(b(1), b(2), b(3)).unwrap_seq3();
    assert_eq!(*z, Combinator::Single(3));
    let (_, _, _, w) = Combinator::Seq4(b(1), b(2), b(3), b(4)).unwrap_seq4();
    assert_eq!(*w, Combinator::Single(4));
    let (_, _, _, _, v) = Combinator::Seq5(b(1), b(2), b(3), b(4), b(5)).unwrap_seq5();
    assert_eq!(*v, Combinator::Single(5));
    let (_, _, _, _, _, u) = Combinator::Seq6(b(1), b(2), b(3), b(4), b(5), b(6)).unwrap_seq6();
    assert_eq!(*u, Combinator::Single(6));
    let (_, _, _, _, _, _, t) =
        Combinator::Seq7(b(1), b(2), b(3), b(4), b(5), b(6), b(7)).unwrap_seq7();
    assert_eq!(*t, Combinator::Single(7));
    let (s, _, _, _, _, _, _, r) =
        Combinator::Seq8(b(1), b(2), b(3), b(4), b(5), b(6), b(7), b(8)).unwrap_seq8();
    assert_eq!((*s, *r), (Combinator::Single(1), Combinator::Single(8)));
}

#[test]
fn test_convert_string_to_int() {
    assert_eq!(convert_string_to_int("1_000", 10).unwrap(), 1000);
    assert_eq!(convert_string_to_int("ff", 16).unwrap(), 255);
    assert_eq!(convert_string_to_int("FF", 16).unwrap(), 255);
    assert_eq!(convert_string_to_int("1010_1010", 2).unwrap(), 170);
    assert_eq!(convert_string_to_int("777", 8).unwrap(), 511);
    assert_eq!(convert_string_to_int("+12", 10).unwrap(), 12);
    assert_eq!(
        convert_string_to_int("340282366920938463463374607431768211455", 10).unwrap(),
        u128::MAX
    );
}

#[test]
fn test_convert_string_to_int_errors() {
    match convert_string_to_int("1_2x", 10) {
        Err(ParserError::InvalidIntegerLiteral(_, cleaned)) => assert_eq!(cleaned, "12x"),
        other => panic!("unexpected result {:?}", other),
    }
    match convert_string_to_int("340282366920938463463374607431768211456", 10) {
        Err(ParserError::InvalidIntegerLiteral(_, cleaned)) => {
            assert_eq!(cleaned, "340282366920938463463374607431768211456")
        }
        other => panic!("unexpected result {:?}", other),
    }
    match convert_string_to_int("__", 10) {
        Err(ParserError::InvalidIntegerLiteral(_, cleaned)) => assert_eq!(cleaned, ""),
        other => panic!("unexpected result {:?}", other),
    }
    assert!(convert_string_to_int("9", 8).is_err());
    assert!(convert_string_to_int("-1", 10).is_err());
}

#[test]
fn test_parser_error_from_lexer_error() {
    let e = LexerError::UnableToLexModuleBlock { span: 3..4 };
    match ParserError::from(e) {
        ParserError::LexerError(LexerError::UnableToLexModuleBlock { span }) => {
            assert_eq!(span, 3..4)
        }
        other => panic!("unexpected result {:?}", other),
    }
    let e = LexerError::MismatchedBracket { span: 0..1, expected: None, found: Bracket::CloseBrace };
    assert!(matches!(ParserError::from(e), ParserError::LexerError(_)));
}

#[test]
fn test_analysis_tag() {
    let mut tag: AnalysisTag<Vec<String>, u32> = AnalysisTag::default();
    assert!(tag.get_symbols().is_none());
    assert!(tag.get_schema().is_none());
    tag.set_symbols(vec!["x".to_string()]);
    assert_eq!(tag.get_symbols(), Some(&vec!["x".to_string()]));
    assert!(tag.get_schema().is_none());
    tag.set_schema(7);
    assert_eq!(tag.get_schema(), Some(&7));
    tag.set_symbols(vec![]);
    assert_eq!(tag.get_symbols(), Some(&vec![]));
    assert_eq!(tag.get_schema(), Some(&7));
}

#[test]
fn test_syntax_enums() {
    assert_ne!(Direction::Ascending, Direction::Descending);
    assert_ne!(RelateArrow::Left, RelateArrow::MultiLeft);
    assert_eq!(UpdateAssign::Shr, UpdateAssign::Shr);
    assert_ne!(UpdateAssign::Direct, UpdateAssign::Plus);
}

#[test]
fn test_permute_optional_rules_around_a_missing_required_one() {
    // Rules c, b and a; c and a optional. On "ca", c passes first, then a; b never passes.
    let mut parser = CharParser::new("ca");
    let (map, passed) = permute(3, &mut parser, funcs(&['c', 'b', 'a'])).unwrap();
    assert_eq!(passed, HashSet::from([0, 2]));
    assert_eq!(map[&0], indexed(0, 'c'));
    assert_eq!(map[&1], Box::new(Combinator::Void));
    assert_eq!(map[&2], indexed(1, 'a'));
    assert_eq!(parser.cursor, 2);
    // The required rule at position 1 did not pass.
    assert!(!passed.contains(&1));
}

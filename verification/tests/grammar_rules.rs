use zeroql::ast::{Ast, AstKind, TypeSig};
use zeroql::lexer::{LexerError, RegexFlags, TokenKind};
use zeroql::parser::{Parser, ParserError};

fn temp(start: usize, end: usize) -> Ast<'static> {
    Ast { span: start..end, kind: AstKind::Temp(None) }
}

#[test]
fn test_keyword_in_either_case() {
    let p = &mut Parser::new("CREATE");
    assert_eq!(p.parse_kw_create().unwrap(), Some(temp(0, 6)));
    assert_eq!(p.lexer.state.cursor, 6);

    let p = &mut Parser::new("create");
    assert_eq!(p.parse_kw_create().unwrap(), Some(temp(0, 6)));
}

#[test]
fn test_keyword_in_mixed_case_is_no_match() {
    let p = &mut Parser::new("Create");
    assert_eq!(p.parse_kw_create().unwrap(), None);
    assert_eq!(p.lexer.state.cursor, 0);

    let p = &mut Parser::new("delete");
    assert_eq!(p.parse_kw_create().unwrap(), None);
    assert_eq!(p.lexer.state.cursor, 0);
}

#[test]
fn test_keyword_after_white_space() {
    let p = &mut Parser::new("  select");
    assert_eq!(p.parse_kw_select().unwrap(), Some(temp(2, 8)));
}

#[test]
fn test_two_keywords() {
    let p = &mut Parser::new("not in");
    assert_eq!(p.parse_op_not_in().unwrap(), Some(temp(0, 6)));

    let p = &mut Parser::new("NOT x");
    assert_eq!(p.parse_op_not_in().unwrap(), None);
    assert_eq!(p.lexer.state.cursor, 0);
}

#[test]
fn test_operator_by_token_or_keyword() {
    let p = &mut Parser::new("*");
    assert_eq!(p.parse_op_mul().unwrap(), Some(temp(0, 1)));

    let p = &mut Parser::new("\u{d7}");
    assert_eq!(p.parse_op_mul().unwrap(), Some(temp(0, 2)));

    let p = &mut Parser::new("&&");
    assert_eq!(p.parse_op_and().unwrap(), Some(temp(0, 2)));

    let p = &mut Parser::new("AND");
    assert_eq!(p.parse_op_and().unwrap(), Some(temp(0, 3)));

    let p = &mut Parser::new("+");
    assert_eq!(p.parse_op_mul().unwrap(), None);
    assert_eq!(p.lexer.state.cursor, 0);
}

#[test]
fn test_terminator() {
    let p = &mut Parser::new(";");
    assert_eq!(p.parse_terminator().unwrap(), Some(temp(0, 1)));

    let p = &mut Parser::new("x");
    assert_eq!(p.parse_terminator().unwrap(), None);
}

#[test]
fn test_identifiers_and_variables() {
    let p = &mut Parser::new("`a_b`");
    assert_eq!(
        p.parse_identifier().unwrap(),
        Some(Ast { span: 0..5, kind: AstKind::Identifier("a_b") })
    );

    let p = &mut Parser::new("name");
    assert_eq!(p.parse_identifier().unwrap(), Some(Ast { span: 0..4, kind: AstKind::Identifier("name") }));

    let p = &mut Parser::new("$age");
    assert_eq!(p.parse_variable().unwrap(), Some(Ast { span: 0..4, kind: AstKind::Variable("age") }));

    let p = &mut Parser::new("$age");
    assert_eq!(p.parse_identifier().unwrap(), None);
    assert_eq!(p.lexer.state.cursor, 0);
}

#[test]
fn test_raw_literals() {
    let cases: Vec<(&str, AstKind)> = vec![
        ("42", AstKind::IntegerLiteral(42)),
        ("1_000", AstKind::IntegerLiteral(1000)),
        ("0x1F", AstKind::IntegerLiteral(31)),
        ("0b101", AstKind::IntegerLiteral(5)),
        ("0o17", AstKind::IntegerLiteral(15)),
        ("1.5", AstKind::FloatLiteral("1.5")),
        ("'hi'", AstKind::StringLiteral("hi")),
        ("b'hi'", AstKind::ByteStringLiteral("hi")),
        ("TRUE", AstKind::BooleanLiteral(true)),
        ("false", AstKind::BooleanLiteral(false)),
        ("none", AstKind::NoneLiteral),
    ];
    for (input, kind) in cases {
        let p = &mut Parser::new(input);
        let ast = p.parse_raw_lit().unwrap().unwrap();
        assert_eq!(ast.kind, kind, "{}", input);
        assert_eq!(ast.span, 0..input.len(), "{}", input);
        assert_eq!(p.lexer.state.cursor, input.len(), "{}", input);
    }
}

#[test]
fn test_regex_literal() {
    let p = &mut Parser::new("//a+//gi");
    let ast = p.parse_raw_lit().unwrap().unwrap();
    match ast.kind {
        AstKind::RegexLiteral { pattern, flags } => {
            assert_eq!(pattern, "a+");
            assert_eq!(flags, RegexFlags::from("gi"));
        }
        other => panic!("{:?}", other),
    }
}

#[test]
fn test_raw_literal_no_match_keeps_the_state() {
    let p = &mut Parser::new("foo");
    assert_eq!(p.parse_raw_lit().unwrap(), None);
    assert_eq!(p.lexer.state.cursor, 0);

    let p = &mut Parser::new("   ");
    assert_eq!(p.parse_raw_lit().unwrap(), None);
    assert_eq!(p.lexer.state.cursor, 0);
}

#[test]
fn test_integer_literal_too_large() {
    let p = &mut Parser::new("340282366920938463463374607431768211456");
    match p.parse_raw_lit() {
        Err(ParserError::InvalidIntegerLiteral(_, text)) => {
            assert_eq!(text, "340282366920938463463374607431768211456")
        }
        other => panic!("{:?}", other),
    }
}

#[test]
fn test_lexer_error_is_passed_on() {
    let p = &mut Parser::new("\u{a0}");
    match p.parse_identifier() {
        Err(ParserError::LexerError(LexerError::UnexpectedCharacter { span, character })) => {
            assert_eq!(span, 0..1);
            assert_eq!(character, '\u{a0}');
        }
        other => panic!("{:?}", other),
    }
}

#[test]
fn test_if_not_exists() {
    let p = &mut Parser::new("IF NOT EXISTS");
    assert_eq!(p.parse_partial_if_not_exists().unwrap(), Some(temp(0, 13)));

    let p = &mut Parser::new("if not exist");
    assert_eq!(p.parse_partial_if_not_exists().unwrap(), Some(temp(0, 12)));

    let p = &mut Parser::new("IF NOT x");
    assert_eq!(p.parse_partial_if_not_exists().unwrap(), None);
    assert_eq!(p.lexer.state.cursor, 0);
}

fn namespace(span: std::ops::Range<usize>, name: &'static str, name_span: std::ops::Range<usize>, flag: bool) -> Ast<'static> {
    Ast {
        span,
        kind: AstKind::DefineNamespace {
            name: Box::new(Ast { span: name_span, kind: AstKind::Identifier(name) }),
            if_not_exists: flag,
        },
    }
}

#[test]
fn test_define_namespace_clauses_in_either_order() {
    let p = &mut Parser::new("DEFINE NAMESPACE IF NOT EXISTS test");
    assert_eq!(p.parse_define_namespace_stmt().unwrap(), Some(namespace(0..35, "test", 31..35, true)));

    let p = &mut Parser::new("DEFINE NS test IF NOT EXISTS");
    assert_eq!(p.parse_define_namespace_stmt().unwrap(), Some(namespace(0..28, "test", 10..14, true)));

    let p = &mut Parser::new("define namespace test");
    assert_eq!(p.parse_define_namespace_stmt().unwrap(), Some(namespace(0..21, "test", 17..21, false)));
}

#[test]
fn test_define_namespace_without_a_name() {
    let p = &mut Parser::new("DEFINE NAMESPACE IF NOT EXISTS");
    assert_eq!(p.parse_define_namespace_stmt().unwrap(), None);
    assert_eq!(p.lexer.state.cursor, 0);

    let p = &mut Parser::new("DEFINE TABLE test");
    assert_eq!(p.parse_define_namespace_stmt().unwrap(), None);
    assert_eq!(p.lexer.state.cursor, 0);
}

#[test]
fn test_use_statement() {
    let p = &mut Parser::new("USE DB shop");
    assert_eq!(
        p.parse_use_stmt().unwrap(),
        Some(Ast {
            span: 0..11,
            kind: AstKind::Use { database: Box::new(Ast { span: 7..11, kind: AstKind::Identifier("shop") }) },
        })
    );
    assert_eq!(p.lexer.state.cursor, 11);

    let p = &mut Parser::new("use database");
    assert_eq!(p.parse_use_stmt().unwrap(), None);
    assert_eq!(p.lexer.state.cursor, 0);
}

fn ident(name: &'static str, span: std::ops::Range<usize>) -> Box<Ast<'static>> {
    Box::new(Ast { span, kind: AstKind::Identifier(name) })
}

#[test]
fn test_define_database_first_form() {
    let p = &mut Parser::new("DEFINE DATABASE IF NOT EXISTS shop ON NAMESPACE main");
    assert_eq!(
        p.parse_define_database_stmt().unwrap(),
        Some(Ast {
            span: 0..52,
            kind: AstKind::DefineDatabase {
                name: ident("shop", 30..34),
                if_not_exists: true,
                namespace: Some(ident("main", 48..52)),
            },
        })
    );

    // Without a namespace the statement ends where `if not exists` ends.
    let p = &mut Parser::new("DEFINE DATABASE IF NOT EXISTS shop");
    assert_eq!(
        p.parse_define_database_stmt().unwrap(),
        Some(Ast {
            span: 0..29,
            kind: AstKind::DefineDatabase { name: ident("shop", 30..34), if_not_exists: true, namespace: None },
        })
    );
    assert_eq!(p.lexer.state.cursor, 34);
}

#[test]
fn test_define_database_second_form_in_any_order() {
    let p = &mut Parser::new("DEFINE DB shop ON NS main IF NOT EXISTS");
    assert_eq!(
        p.parse_define_database_stmt().unwrap(),
        Some(Ast {
            span: 0..39,
            kind: AstKind::DefineDatabase {
                name: ident("shop", 10..14),
                if_not_exists: true,
                namespace: Some(ident("main", 21..25)),
            },
        })
    );

    let p = &mut Parser::new("define database shop");
    assert_eq!(
        p.parse_define_database_stmt().unwrap(),
        Some(Ast {
            span: 0..20,
            kind: AstKind::DefineDatabase { name: ident("shop", 16..20), if_not_exists: false, namespace: None },
        })
    );
}

#[test]
fn test_define_database_without_a_name() {
    let p = &mut Parser::new("DEFINE DATABASE 42");
    assert_eq!(p.parse_define_database_stmt().unwrap(), None);
    assert_eq!(p.lexer.state.cursor, 0);

    // Keywords are not reserved: without a name after `if not exists`, the second form reads
    // `IF` as the name and leaves the rest.
    let p = &mut Parser::new("DEFINE DATABASE IF NOT EXISTS");
    assert_eq!(
        p.parse_define_database_stmt().unwrap(),
        Some(Ast {
            span: 0..18,
            kind: AstKind::DefineDatabase { name: ident("IF", 16..18), if_not_exists: false, namespace: None },
        })
    );
    assert_eq!(p.lexer.state.cursor, 18);
}

#[test]
fn test_on_namespace() {
    let p = &mut Parser::new("ON NS main");
    assert_eq!(p.parse_partial_on_namespace().unwrap(), Some(temp(0, 10)));

    let p = &mut Parser::new("ON TABLE main");
    assert_eq!(p.parse_partial_on_namespace().unwrap(), None);
    assert_eq!(p.lexer.state.cursor, 0);
}

#[test]
fn test_remove_namespace() {
    let p = &mut Parser::new("REMOVE NS main IF EXISTS");
    assert_eq!(
        p.parse_remove_namespace_exp().unwrap(),
        Some(Ast { span: 0..24, kind: AstKind::RemoveNamespace { subject: ident("main", 10..14), if_exists: true } })
    );

    let p = &mut Parser::new("remove namespace if exist main");
    assert_eq!(
        p.parse_remove_namespace_exp().unwrap(),
        Some(Ast { span: 0..30, kind: AstKind::RemoveNamespace { subject: ident("main", 26..30), if_exists: true } })
    );

    // `IF NOT EXISTS` is the flag of a definition, not of a removal.
    let p = &mut Parser::new("REMOVE NAMESPACE IF NOT EXISTS main");
    assert_eq!(
        p.parse_remove_namespace_exp().unwrap(),
        Some(Ast { span: 0..19, kind: AstKind::RemoveNamespace { subject: ident("IF", 17..19), if_exists: false } })
    );
    assert_eq!(p.lexer.state.cursor, 19);
}

#[test]
fn test_remove_database() {
    let p = &mut Parser::new("REMOVE DATABASE IF EXISTS shop ON NS main");
    assert_eq!(
        p.parse_remove_database_exp().unwrap(),
        Some(Ast {
            span: 0..41,
            kind: AstKind::RemoveDatabase {
                subject: ident("shop", 26..30),
                if_exists: true,
                namespace: Some(ident("main", 37..41)),
            },
        })
    );
}

#[test]
fn test_remove_table_edge_type_enum_module() {
    let p = &mut Parser::new("REMOVE TABLE person ON DB shop IF EXISTS");
    assert_eq!(
        p.parse_remove_table_exp().unwrap(),
        Some(Ast {
            span: 0..40,
            kind: AstKind::RemoveTable {
                subject: ident("person", 13..19),
                if_exists: true,
                database: Some(ident("shop", 26..30)),
            },
        })
    );

    let p = &mut Parser::new("remove edge likes");
    assert_eq!(
        p.parse_remove_edge_exp().unwrap(),
        Some(Ast { span: 0..17, kind: AstKind::RemoveEdge { subject: ident("likes", 12..17), if_exists: false, database: None } })
    );

    let p = &mut Parser::new("REMOVE TYPE point");
    assert_eq!(
        p.parse_remove_type_exp().unwrap(),
        Some(Ast { span: 0..17, kind: AstKind::RemoveType { subject: ident("point", 12..17), if_exists: false, database: None } })
    );

    let p = &mut Parser::new("REMOVE ENUM color ON DATABASE shop");
    assert_eq!(
        p.parse_remove_enum_exp().unwrap(),
        Some(Ast {
            span: 0..34,
            kind: AstKind::RemoveEnum { subject: ident("color", 12..17), if_exists: false, database: Some(ident("shop", 30..34)) },
        })
    );

    let p = &mut Parser::new("REMOVE MODULE IF EXISTS tools");
    assert_eq!(
        p.parse_remove_module_exp().unwrap(),
        Some(Ast { span: 0..23, kind: AstKind::RemoveModule { subject: ident("tools", 24..29), if_exists: true, database: None } })
    );

    let p = &mut Parser::new("REMOVE TABLE person");
    assert_eq!(p.parse_remove_edge_exp().unwrap(), None);
    assert_eq!(p.lexer.state.cursor, 0);
}

#[test]
fn test_remove_param_takes_a_variable() {
    let p = &mut Parser::new("REMOVE PARAM $limit ON DB shop");
    assert_eq!(
        p.parse_remove_param_exp().unwrap(),
        Some(Ast {
            span: 0..30,
            kind: AstKind::RemoveParam {
                subject: Box::new(Ast { span: 13..19, kind: AstKind::Variable("limit") }),
                if_exists: false,
                database: Some(ident("shop", 26..30)),
            },
        })
    );

    let p = &mut Parser::new("REMOVE PARAM limit");
    assert_eq!(p.parse_remove_param_exp().unwrap(), None);
    assert_eq!(p.lexer.state.cursor, 0);
}

#[test]
fn test_remove_index_first_form() {
    let p = &mut Parser::new("REMOVE INDEX IF EXISTS idx ON TABLE person ON DB shop");
    assert_eq!(
        p.parse_remove_index_exp().unwrap(),
        Some(Ast {
            span: 0..53,
            kind: AstKind::RemoveIndex {
                subject: ident("idx", 23..26),
                if_exists: true,
                table: ident("person", 36..42),
                database: Some(ident("shop", 49..53)),
            },
        })
    );
    assert_eq!(p.lexer.state.cursor, 53);
}

#[test]
fn test_remove_index_clauses_in_any_order() {
    let p = &mut Parser::new("REMOVE INDEX idx ON DB shop IF EXISTS ON TABLE person");
    assert_eq!(
        p.parse_remove_index_exp().unwrap(),
        Some(Ast {
            span: 0..53,
            kind: AstKind::RemoveIndex {
                subject: ident("idx", 13..16),
                if_exists: true,
                table: ident("person", 47..53),
                database: Some(ident("shop", 23..27)),
            },
        })
    );

    let p = &mut Parser::new("remove index idx on table person");
    assert_eq!(
        p.parse_remove_index_exp().unwrap(),
        Some(Ast {
            span: 0..32,
            kind: AstKind::RemoveIndex {
                subject: ident("idx", 13..16),
                if_exists: false,
                table: ident("person", 26..32),
                database: None,
            },
        })
    );
}

#[test]
fn test_remove_index_needs_a_table() {
    let p = &mut Parser::new("REMOVE INDEX idx ON DB shop");
    assert_eq!(p.parse_remove_index_exp().unwrap(), None);
    assert_eq!(p.lexer.state.cursor, 0);
}

#[test]
fn test_remove_expression_of_each_kind() {
    let p = &mut Parser::new("REMOVE PARAM $x");
    assert_eq!(
        p.parse_remove_exp().unwrap(),
        Some(Ast {
            span: 0..15,
            kind: AstKind::RemoveParam {
                subject: Box::new(Ast { span: 13..15, kind: AstKind::Variable("x") }),
                if_exists: false,
                database: None,
            },
        })
    );

    let p = &mut Parser::new("REMOVE NS main");
    assert_eq!(
        p.parse_remove_exp().unwrap(),
        Some(Ast { span: 0..14, kind: AstKind::RemoveNamespace { subject: ident("main", 10..14), if_exists: false } })
    );

    let p = &mut Parser::new("REMOVE INDEX i ON TABLE t");
    assert!(matches!(p.parse_remove_exp().unwrap(), Some(Ast { kind: AstKind::RemoveIndex { .. }, .. })));

    let p = &mut Parser::new("REMOVE x");
    assert_eq!(p.parse_remove_exp().unwrap(), None);
    assert_eq!(p.lexer.state.cursor, 0);
}

#[test]
fn test_describe_expressions() {
    let p = &mut Parser::new("DESCRIBE NS main");
    assert_eq!(
        p.parse_describe_exp().unwrap(),
        Some(Ast { span: 0..16, kind: AstKind::DescribeNamespace { subject: ident("main", 12..16), if_exists: false } })
    );

    let p = &mut Parser::new("DESCRIBE TABLE IF EXISTS person ON DB shop");
    assert_eq!(
        p.parse_describe_table_exp().unwrap(),
        Some(Ast {
            span: 0..42,
            kind: AstKind::DescribeTable {
                subject: ident("person", 25..31),
                if_exists: true,
                database: Some(ident("shop", 38..42)),
            },
        })
    );

    let p = &mut Parser::new("describe index idx on table person");
    assert_eq!(
        p.parse_describe_exp().unwrap(),
        Some(Ast {
            span: 0..34,
            kind: AstKind::DescribeIndex {
                subject: ident("idx", 15..18),
                if_exists: false,
                table: ident("person", 28..34),
                database: None,
            },
        })
    );

    let p = &mut Parser::new("DESCRIBE PARAM $p");
    assert!(matches!(p.parse_describe_exp().unwrap(), Some(Ast { kind: AstKind::DescribeParam { .. }, .. })));

    let p = &mut Parser::new("REMOVE TABLE t");
    assert_eq!(p.parse_describe_exp().unwrap(), None);
    assert_eq!(p.lexer.state.cursor, 0);
}

#[test]
fn test_transaction_expressions() {
    let p = &mut Parser::new("BEGIN TRANSACTION");
    assert_eq!(p.parse_begin_exp().unwrap(), Some(Ast { span: 0..17, kind: AstKind::BeginTransaction }));

    let p = &mut Parser::new("commit");
    assert_eq!(p.parse_commit_exp().unwrap(), Some(Ast { span: 0..6, kind: AstKind::CommitTransaction }));

    let p = &mut Parser::new("CANCEL x");
    assert_eq!(p.parse_cancel_exp().unwrap(), Some(Ast { span: 0..6, kind: AstKind::CancelTransaction }));
    assert_eq!(p.lexer.state.cursor, 6);

    let p = &mut Parser::new("BEGIN");
    assert_eq!(p.parse_commit_exp().unwrap(), None);
    assert_eq!(p.lexer.state.cursor, 0);
}

#[test]
fn test_identifier_scope() {
    let p = &mut Parser::new("a::b::c");
    assert_eq!(
        p.parse_identifier_scope_op().unwrap(),
        Some(Ast {
            span: 0..7,
            kind: AstKind::ScopedIdentifier(vec![
                Ast { span: 0..1, kind: AstKind::Identifier("a") },
                Ast { span: 3..4, kind: AstKind::Identifier("b") },
                Ast { span: 6..7, kind: AstKind::Identifier("c") },
            ]),
        })
    );

    let p = &mut Parser::new("name");
    assert_eq!(p.parse_identifier_scope_op().unwrap(), Some(Ast { span: 0..4, kind: AstKind::Identifier("name") }));

    // A scope without an identifier after it is left unread.
    let p = &mut Parser::new("a::b::$x");
    assert_eq!(
        p.parse_identifier_scope_op().unwrap(),
        Some(Ast {
            span: 0..4,
            kind: AstKind::ScopedIdentifier(vec![
                Ast { span: 0..1, kind: AstKind::Identifier("a") },
                Ast { span: 3..4, kind: AstKind::Identifier("b") },
            ]),
        })
    );
    assert_eq!(p.lexer.state.cursor, 4);

    let p = &mut Parser::new("$x");
    assert_eq!(p.parse_identifier_scope_op().unwrap(), None);
    assert_eq!(p.lexer.state.cursor, 0);
}

#[test]
fn test_token_with_other_regex_flags_is_no_match() {
    let p = &mut Parser::new("//a+//gi");
    assert_eq!(p.parse_tok(TokenKind::RegexLiteral("a+", RegexFlags::from("g"))).unwrap(), None);
    assert_eq!(p.lexer.state.cursor, 0);
    assert_eq!(p.parse_tok(TokenKind::RegexLiteral("a+", RegexFlags::from("gi"))).unwrap(), Some(temp(0, 8)));
}

#[test]
fn test_define_enum_clauses_in_any_order() {
    let p = &mut Parser::new("DEFINE ENUM color VARIANTS red, green ON DB shop IF NOT EXISTS");
    assert_eq!(
        p.parse_define_enum_stmt().unwrap(),
        Some(Ast {
            span: 0..62,
            kind: AstKind::DefineEnum {
                name: ident("color", 12..17),
                if_not_exists: true,
                database: Some(ident("shop", 44..48)),
                variants: vec![
                    Ast { span: 27..30, kind: AstKind::Identifier("red") },
                    Ast { span: 32..37, kind: AstKind::Identifier("green") },
                ],
            },
        })
    );

    // In the first form the flag does not set the end.
    let p = &mut Parser::new("define enum if not exists color variants red");
    assert_eq!(
        p.parse_define_enum_stmt().unwrap(),
        Some(Ast {
            span: 0..44,
            kind: AstKind::DefineEnum {
                name: ident("color", 26..31),
                if_not_exists: true,
                database: None,
                variants: vec![Ast { span: 41..44, kind: AstKind::Identifier("red") }],
            },
        })
    );

    let p = &mut Parser::new("DEFINE ENUM color");
    assert_eq!(
        p.parse_define_enum_stmt().unwrap(),
        Some(Ast {
            span: 0..17,
            kind: AstKind::DefineEnum { name: ident("color", 12..17), if_not_exists: false, database: None, variants: vec![] },
        })
    );

    let p = &mut Parser::new("VARIANTS a, b,");
    assert_eq!(p.parse_partial_enum_variants().unwrap(), Some(temp(0, 13)));
    assert_eq!(p.lexer.state.cursor, 13);

    let p = &mut Parser::new("DEFINE ENUM 1");
    assert_eq!(p.parse_define_enum_stmt().unwrap(), None);
    assert_eq!(p.lexer.state.cursor, 0);
}

fn basic(name: &'static str, span: std::ops::Range<usize>) -> TypeSig<'static> {
    TypeSig::Basic(Box::new(Ast { span, kind: AstKind::Identifier(name) }))
}

#[test]
fn test_type_signatures() {
    let p = &mut Parser::new("u8");
    assert_eq!(p.parse_type_sig().unwrap(), Some((basic("u8", 0..2), 0, 2)));

    let p = &mut Parser::new("person? ?");
    assert_eq!(
        p.parse_type_sig().unwrap(),
        Some((TypeSig::Option(Box::new(TypeSig::Option(Box::new(basic("person", 0..6))))), 0, 9))
    );

    let p = &mut Parser::new("[u8 16]");
    assert_eq!(
        p.parse_type_sig().unwrap(),
        Some((
            TypeSig::Array {
                type_sig: Box::new(basic("u8", 1..3)),
                length: Box::new(Ast { span: 4..6, kind: AstKind::IntegerLiteral(16) }),
            },
            0,
            7
        ))
    );

    let p = &mut Parser::new("[string]?");
    assert_eq!(
        p.parse_type_sig().unwrap(),
        Some((TypeSig::Option(Box::new(TypeSig::List(Box::new(basic("string", 1..7))))), 0, 9))
    );

    let p = &mut Parser::new("(u8, bool,)");
    assert_eq!(
        p.parse_type_sig().unwrap(),
        Some((TypeSig::Tuple(vec![basic("u8", 1..3), basic("bool", 5..9)]), 0, 11))
    );

    let p = &mut Parser::new("map[string, [u8]]");
    assert_eq!(
        p.parse_type_sig().unwrap(),
        Some((
            TypeSig::Generic {
                name: Box::new(Ast { span: 0..3, kind: AstKind::Identifier("map") }),
                parameters: vec![basic("string", 4..10), TypeSig::List(Box::new(basic("u8", 13..15)))],
            },
            0,
            17
        ))
    );

    let p = &mut Parser::new("std::string");
    let (sig, _, _) = p.parse_type_sig().unwrap().unwrap();
    assert!(matches!(sig, TypeSig::Basic(n) if matches!(n.kind, AstKind::ScopedIdentifier(_))));

    let p = &mut Parser::new("[u8");
    assert_eq!(p.parse_type_sig().unwrap(), None);
    assert_eq!(p.lexer.state.cursor, 0);

    let p = &mut Parser::new("[u8 340282366920938463463374607431768211456]");
    assert!(matches!(p.parse_type_sig(), Err(ParserError::InvalidIntegerLiteral(_, _))));

    let p = &mut Parser::new("[u8]?");
    assert_eq!(p.parse_partial_type_sig().unwrap(), Some(temp(0, 5)));
}

#[test]
fn test_define_type_with_fields() {
    let p = &mut Parser::new("DEFINE TYPE point FIELDS x TYPE i32, y TYPE i32? ON DB geo");
    assert_eq!(
        p.parse_define_type_stmt().unwrap(),
        Some(Ast {
            span: 0..58,
            kind: AstKind::DefineType {
                name: ident("point", 12..17),
                if_not_exists: false,
                database: Some(ident("geo", 55..58)),
                fields: vec![
                    (Ast { span: 25..26, kind: AstKind::Identifier("x") }, basic("i32", 32..35)),
                    (
                        Ast { span: 37..38, kind: AstKind::Identifier("y") },
                        TypeSig::Option(Box::new(basic("i32", 44..47))),
                    ),
                ],
            },
        })
    );

    let p = &mut Parser::new("FIELDS a TYPE u8,");
    assert_eq!(p.parse_partial_type_fields().unwrap(), Some(temp(0, 16)));
    assert_eq!(p.lexer.state.cursor, 16);

    let p = &mut Parser::new("DEFINE TYPE IF NOT EXISTS t");
    assert_eq!(
        p.parse_define_type_stmt().unwrap(),
        Some(Ast {
            span: 0..27,
            kind: AstKind::DefineType { name: ident("t", 26..27), if_not_exists: true, database: None, fields: vec![] },
        })
    );
}

#[test]
fn test_define_module() {
    let p = &mut Parser::new("DEFINE MODULE m WITH x END");
    assert_eq!(
        p.parse_define_module_stmt().unwrap(),
        Some(Ast {
            span: 0..26,
            kind: AstKind::DefineModule {
                name: ident("m", 14..15),
                if_not_exists: false,
                database: None,
                block: Box::new(Ast { span: 20..23, kind: AstKind::ModuleBlock(" x ") }),
            },
        })
    );

    let p = &mut Parser::new("DEFINE MOD m ON DB shop WITH x END");
    assert_eq!(p.parse_define_module_stmt().unwrap(), None);
    assert_eq!(p.lexer.state.cursor, 0);

    let p = &mut Parser::new("DEFINE MODULE m ON DB shop WITH x END");
    assert_eq!(
        p.parse_define_module_stmt().unwrap(),
        Some(Ast {
            span: 0..37,
            kind: AstKind::DefineModule {
                name: ident("m", 14..15),
                if_not_exists: false,
                database: Some(ident("shop", 22..26)),
                block: Box::new(Ast { span: 31..34, kind: AstKind::ModuleBlock(" x ") }),
            },
        })
    );
}

#[test]
fn test_field_and_index_partials() {
    let p = &mut Parser::new("TYPE [u8]?");
    assert_eq!(p.parse_partial_field_type().unwrap(), Some(temp(0, 10)));

    let p = &mut Parser::new("age TYPE u8");
    assert_eq!(p.parse_partial_type_field().unwrap(), Some(temp(0, 11)));

    let p = &mut Parser::new("age u8");
    assert_eq!(p.parse_partial_type_field().unwrap(), None);
    assert_eq!(p.lexer.state.cursor, 0);

    let p = &mut Parser::new("FIELDS a, b");
    assert_eq!(p.parse_partial_index_fields().unwrap(), Some(temp(0, 11)));

    let p = &mut Parser::new("FIELDS");
    assert_eq!(p.parse_partial_index_fields().unwrap(), None);
    assert_eq!(p.lexer.state.cursor, 0);
}

#[test]
fn test_ast_helpers() {
    let a = Ast::new(3..5, AstKind::Identifier("x"));
    assert_eq!(a.get_span(), 3..5);
    let program = AstKind::Program(vec![Ast::new(0..1, AstKind::NoneLiteral)]);
    assert_eq!(program.unwrap_program(), vec![Ast::new(0..1, AstKind::NoneLiteral)]);
}

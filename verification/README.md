# zeroql

The front end of the `zeroql` query language, verified with Verus: the lexer, the parser
combinators, the syntax tree, and the rules of the grammar for tokens, keywords, operators,
literals, identifiers with scopes, type signatures, `USE`, the definitions of namespaces,
databases, enums, types and modules, the `REMOVE` and `DESCRIBE` expressions of every kind, and
the transaction expressions. The rules for operations and the expressions built on them
(`SELECT`, `CREATE`, `UPDATE`, `RELATE`, `LET`, `IF`, ...), the definitions of tables, edges,
indices and parameters (whose clauses hold operations), and the program rule are not part of
this crate.

- `src/lexer/`: the lexer. The lexical grammar is written as functions on the bytes of the
  input (`scan.rs`, `classes.rs`, `rules.rs`), each with a specification; `lexer.rs` holds the
  lexer state machine, whose step is specified by `lex_step`; `laws.rs` states what holds of
  every step; `display.rs` writes tokens out.
- `src/parser/`: the recursive descent parser. `parser.rs` holds the parser, its rule outcomes
  (`RuleOutcome`: a tree over a span and the state after it, no match with the state unchanged,
  or an error) and the combinators of rule specifications (`token_rule`, `alt_rule`,
  `then_rule`); each `parse_*` method is specified by a spec function of its grammar rule over
  the steps of the lexer. `parse_keywords.rs`, `parse_operators.rs`, `parse_literals.rs`,
  `parse_statements.rs`, `parse_objects.rs`, `parse_index.rs`, `parse_remove.rs`,
  `parse_transactions.rs`, `parse_operations.rs`, `parse_types.rs`, `parse_clauses.rs` and
  `parse_define.rs` hold the rules, written by hand with backtracking over the saved
  state; `parser.rs` also states that the rules read forward; `combinator.rs` holds the values
  that parser combinators produce and the permutation combinator with the course of its calls.
- `src/ast/`: the syntax tree, the operator kinds recorded in it, and the analysis tag attached
  to its nodes. Float literals keep their text.
- `app/`: the conversion of float literals, which needs floating point.
- `tests/`: the lexer's scenarios, the grammar rules on concrete statements, tests of the laws,
  the combinators and the conversions, and comparisons of the lexer with the regular expression
  engine.

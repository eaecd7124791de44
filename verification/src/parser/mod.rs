//! Parser module for zeroql compiler: the combinators that the parser is built from, and its
//! errors.

mod capture;
mod combinator;
mod errors;
mod literals;
#[allow(clippy::module_inception)]
mod laws;
mod parser;
mod parse_clauses;
mod parse_define;
mod parse_index;
mod parse_keywords;
mod parse_literals;
mod parse_objects;
mod parse_operations;
mod parse_operators;
mod parse_remove;
mod parse_statements;
mod parse_transactions;
mod parse_types;

pub use capture::StateCapture;
pub use combinator::{
    funcs_callable, made_on, may_give, pass_order, permutation_result, permute, place_of, placed, Choice,
    Combinator, PermutationOk, ascending_keys, lemma_permute_no_places, perm_output, perm_over, perm_run,
    perm_start, perm_step, perm_traced, PermState,
};
pub use errors::{ParserError, ParserResult};
pub use literals::{
    convert_string_to_int, digit_of, digits_value, int_literal_value, replaced_chars,
};
pub use parser::{
    alt_rule, bytes_eq, eaten_agrees, lemma_alt_rule_forward, lemma_then_rule_forward,
    lemma_token_rule_forward, reads_forward, next_token_of, rule_step, then_rule, outcome_agrees, token_either, token_is, token_rule, Parser, RuleOutcome,
    TokenTest,
};
pub use parse_keywords::{ascii_case_of, ascii_keyword_test, lemma_ascii_case_unique, keyword_rule, keyword_test, keywords2_rule, lower_case, upper_case};
pub use parse_literals::{
    boolean_rule, int_digits, is_raw_token, next_text, radix_of, raw_lit_kind, raw_lit_rule,
};
pub use parse_statements::{
    database_kw_rule, namespace_parts_agree, namespace_stmt_perm, namespace_stmt_rule,
    flag_and_name_rule, identifier_rule, identifier_span, if_not_exists_rule, max_int,
    namespace_kw_rule, on_database_rule, on_namespace_rule, on_table_rule, perm_stop,
    terminator_rule, use_kind, use_name_from, use_rule, PermOutcome,
};
pub use parse_objects::{
    define_database_form, flag_and_owner_rule, flag_rule, if_exists_rule, object_end,
    object_head, object_parts_agree, object_rule, object_step, object_tail, object_tail_a,
    object_tail_b, on_from, on_rule, parts_agree, remove_database_form, remove_edge_form,
    remove_enum_form, remove_module_form, remove_param_form, remove_table_form,
    remove_type_form, subject_kind, subject_rule, tail_step, FlagKind, ObjectForm, ObjectParts,
    describe_database_form, describe_edge_form, describe_enum_form, describe_module_form,
    describe_param_form, describe_table_form, describe_type_form,
    ObjectTail, OnKind, OptPairOutcome,
};
pub use parse_index::{
    acc_agrees, index_end, index_form, index_parts_agree, index_perm, index_round, index_start,
    index_stmt_parts_agree, index_stmt_rule, index_tail, index_tail_a, index_tail_b,
    index_tail_step, owner_ident, IndexAcc, IndexParts, IndexPerm, IndexRound, IndexTail,
};
pub use parse_remove::{describe_kind, describe_rule, remove_kind, remove_rule};
pub use parse_transactions::transaction_rule;
pub use parse_operations::{
    ident_at, identifier_scope_kind, identifier_scope_rule, idents_at, sep_after, sep_ident_from,
    sep_list, sep_run, sep_step_rule,
};
pub use parse_clauses::{
    block_at, clause_perm, clause_round_from, clause_rule, err_agrees, module_block_from,
    module_block_rule, clause_start, value_agrees, value_end,
    values_agree, variants_from, variants_rule, Clause, ClausePerm, ClauseRound, ClauseValue,
};
pub use parse_define::{
    define_enum_kind, define_enum_rule, define_type_kind, define_type_rule, enum_clauses_a,
    enum_clauses_b, named_head, type_clauses_a, type_clauses_b, define_module_kind,
    define_module_rule, module_clauses_a, module_clauses_b, required_read,
    named_parts_agree, named_rule, named_tail, named_tail_a, named_tail_b, perm_end, NamedParts,
    NamedTail,
};
pub use parse_types::{
    field_list, field_type_rule, fields_after, fields_agree, index_fields_rule, integer_lit_at, integer_lit_rule, list_after, name_at,
    opts_after, opts_run, sig_agrees, sig_alt_a, sig_alt_b, sig_alt_c, sig_alt_d, sig_alt_e,
    sig_as_rule, sig_list, sig_result, sig_rule, sig_seq, sig_stop, sigs_agree, tok,
    type_field_rule, type_fields_from, type_fields_rule, type_sig_rule, with_opts, wrap_opts,
    FieldList, SigList, SigOutcome, SigView,
};
pub use laws::{lemma_object_first_form, lemma_opt_wraps_signature, lemma_sig_takes_every_opt, lemma_clauses_in_order, lemma_first_form_reads_all_clauses, lemma_second_form_reads_all_clauses, perm_in_order, lemma_flag_then_owner, lemma_object_second_form, lemma_owner_then_flag, lemma_use_either_keyword};

//! The `REMOVE` and `DESCRIBE` expressions of any kind.

use vstd::prelude::*;

use crate::ast::{Ast, AstKind};
use crate::lexer::LexView;

use super::parse_index::{index_stmt_parts_agree, index_stmt_rule};
use super::parse_objects::{
    describe_database_form, describe_edge_form, describe_enum_form, describe_module_form,
    describe_param_form, describe_table_form, describe_type_form, object_parts_agree,
    object_rule, remove_database_form, remove_edge_form, remove_enum_form, remove_module_form,
    remove_param_form, remove_table_form, remove_type_form, FlagKind,
};
use super::parse_statements::{namespace_parts_agree, namespace_stmt_rule};
use super::parser::{alt_rule, rule_step, Parser, RuleOutcome};
use super::ParserResult;

verus! {

/// A `REMOVE` expression of any kind, from the state `st` of the input `b`: the first of
/// the kinds, in the order of the grammar, that matches.
pub open spec fn remove_rule(b: Seq<u8>, st: LexView) -> RuleOutcome {
    alt_rule(
        namespace_stmt_rule(b, st, "remove"@, FlagKind::IfExists),
        alt_rule(
        object_rule(b, st, remove_database_form()),
        alt_rule(
        object_rule(b, st, remove_table_form()),
        alt_rule(
        object_rule(b, st, remove_edge_form()),
        alt_rule(
        object_rule(b, st, remove_type_form()),
        alt_rule(
        object_rule(b, st, remove_enum_form()),
        alt_rule(
        index_stmt_rule(b, st, "remove"),
        alt_rule(
        object_rule(b, st, remove_module_form()),
        object_rule(b, st, remove_param_form()),
    ),
    ),
    ),
    ),
    ),
    ),
    ),
    )
}

/// The tree of a `REMOVE` expression read from `st` has the kind `kind`: that of the
/// first kind of expression that matches, holding what it read.
pub open spec fn remove_kind<'a>(b: Seq<u8>, st: LexView, kind: AstKind<'a>) -> bool {
    if namespace_stmt_rule(b, st, "remove"@, FlagKind::IfExists) is Matched {
        match kind {
            AstKind::RemoveNamespace { subject, if_exists } => namespace_parts_agree(b, st, "remove"@, FlagKind::IfExists, *subject, if_exists),
            _ => false,
        }
    } else if object_rule(b, st, remove_database_form()) is Matched {
        match kind {
            AstKind::RemoveDatabase { subject, if_exists, namespace } => object_parts_agree(b, st, remove_database_form(), *subject, if_exists, namespace),
            _ => false,
        }
    } else if object_rule(b, st, remove_table_form()) is Matched {
        match kind {
            AstKind::RemoveTable { subject, if_exists, database } => object_parts_agree(b, st, remove_table_form(), *subject, if_exists, database),
            _ => false,
        }
    } else if object_rule(b, st, remove_edge_form()) is Matched {
        match kind {
            AstKind::RemoveEdge { subject, if_exists, database } => object_parts_agree(b, st, remove_edge_form(), *subject, if_exists, database),
            _ => false,
        }
    } else if object_rule(b, st, remove_type_form()) is Matched {
        match kind {
            AstKind::RemoveType { subject, if_exists, database } => object_parts_agree(b, st, remove_type_form(), *subject, if_exists, database),
            _ => false,
        }
    } else if object_rule(b, st, remove_enum_form()) is Matched {
        match kind {
            AstKind::RemoveEnum { subject, if_exists, database } => object_parts_agree(b, st, remove_enum_form(), *subject, if_exists, database),
            _ => false,
        }
    } else if index_stmt_rule(b, st, "remove") is Matched {
        match kind {
            AstKind::RemoveIndex { subject, if_exists, table, database } => index_stmt_parts_agree(b, st, "remove", *subject, if_exists, *table, database),
            _ => false,
        }
    } else if object_rule(b, st, remove_module_form()) is Matched {
        match kind {
            AstKind::RemoveModule { subject, if_exists, database } => object_parts_agree(b, st, remove_module_form(), *subject, if_exists, database),
            _ => false,
        }
    } else if object_rule(b, st, remove_param_form()) is Matched {
        match kind {
            AstKind::RemoveParam { subject, if_exists, database } => object_parts_agree(b, st, remove_param_form(), *subject, if_exists, database),
            _ => false,
        }
    } else {
        false
    }
}

/// A `DESCRIBE` expression of any kind, from the state `st` of the input `b`: the first of
/// the kinds, in the order of the grammar, that matches.
pub open spec fn describe_rule(b: Seq<u8>, st: LexView) -> RuleOutcome {
    alt_rule(
        namespace_stmt_rule(b, st, "describe"@, FlagKind::IfExists),
        alt_rule(
        object_rule(b, st, describe_database_form()),
        alt_rule(
        object_rule(b, st, describe_table_form()),
        alt_rule(
        object_rule(b, st, describe_edge_form()),
        alt_rule(
        object_rule(b, st, describe_type_form()),
        alt_rule(
        object_rule(b, st, describe_enum_form()),
        alt_rule(
        index_stmt_rule(b, st, "describe"),
        alt_rule(
        object_rule(b, st, describe_module_form()),
        object_rule(b, st, describe_param_form()),
    ),
    ),
    ),
    ),
    ),
    ),
    ),
    )
}

/// The tree of a `DESCRIBE` expression read from `st` has the kind `kind`: that of the
/// first kind of expression that matches, holding what it read.
pub open spec fn describe_kind<'a>(b: Seq<u8>, st: LexView, kind: AstKind<'a>) -> bool {
    if namespace_stmt_rule(b, st, "describe"@, FlagKind::IfExists) is Matched {
        match kind {
            AstKind::DescribeNamespace { subject, if_exists } => namespace_parts_agree(b, st, "describe"@, FlagKind::IfExists, *subject, if_exists),
            _ => false,
        }
    } else if object_rule(b, st, describe_database_form()) is Matched {
        match kind {
            AstKind::DescribeDatabase { subject, if_exists, namespace } => object_parts_agree(b, st, describe_database_form(), *subject, if_exists, namespace),
            _ => false,
        }
    } else if object_rule(b, st, describe_table_form()) is Matched {
        match kind {
            AstKind::DescribeTable { subject, if_exists, database } => object_parts_agree(b, st, describe_table_form(), *subject, if_exists, database),
            _ => false,
        }
    } else if object_rule(b, st, describe_edge_form()) is Matched {
        match kind {
            AstKind::DescribeEdge { subject, if_exists, database } => object_parts_agree(b, st, describe_edge_form(), *subject, if_exists, database),
            _ => false,
        }
    } else if object_rule(b, st, describe_type_form()) is Matched {
        match kind {
            AstKind::DescribeType { subject, if_exists, database } => object_parts_agree(b, st, describe_type_form(), *subject, if_exists, database),
            _ => false,
        }
    } else if object_rule(b, st, describe_enum_form()) is Matched {
        match kind {
            AstKind::DescribeEnum { subject, if_exists, database } => object_parts_agree(b, st, describe_enum_form(), *subject, if_exists, database),
            _ => false,
        }
    } else if index_stmt_rule(b, st, "describe") is Matched {
        match kind {
            AstKind::DescribeIndex { subject, if_exists, table, database } => index_stmt_parts_agree(b, st, "describe", *subject, if_exists, *table, database),
            _ => false,
        }
    } else if object_rule(b, st, describe_module_form()) is Matched {
        match kind {
            AstKind::DescribeModule { subject, if_exists, database } => object_parts_agree(b, st, describe_module_form(), *subject, if_exists, database),
            _ => false,
        }
    } else if object_rule(b, st, describe_param_form()) is Matched {
        match kind {
            AstKind::DescribeParam { subject, if_exists, database } => object_parts_agree(b, st, describe_param_form(), *subject, if_exists, database),
            _ => false,
        }
    } else {
        false
    }
}

impl<'a> Parser<'a> {
    /// Parses a `REMOVE` expression.
    ///
    /// ```txt
    /// remove_exp =
    ///     | remove_namespace_exp
    ///     | remove_database_exp
    ///     | remove_table_exp
    ///     | remove_edge_exp
    ///     | remove_type_exp
    ///     | remove_enum_exp
    ///     | remove_index_exp
    ///     | remove_module_exp
    ///     | remove_param_exp
    /// ```
    pub fn parse_remove_exp(&mut self) -> (r: ParserResult<Option<Ast<'a>>>)
        requires
            old(self).wf(),
        ensures
            rule_step(*old(self), *final(self), r, remove_rule(old(self).bytes(), old(self).state())),
            r matches Ok(Some(a)) ==> remove_kind(old(self).bytes(), old(self).state(), a.kind),
    {
        let r = self.parse_remove_namespace_exp();
        if !(r matches Ok(None)) {
            return r;
        }
        let r = self.parse_remove_database_exp();
        if !(r matches Ok(None)) {
            return r;
        }
        let r = self.parse_remove_table_exp();
        if !(r matches Ok(None)) {
            return r;
        }
        let r = self.parse_remove_edge_exp();
        if !(r matches Ok(None)) {
            return r;
        }
        let r = self.parse_remove_type_exp();
        if !(r matches Ok(None)) {
            return r;
        }
        let r = self.parse_remove_enum_exp();
        if !(r matches Ok(None)) {
            return r;
        }
        let r = self.parse_remove_index_exp();
        if !(r matches Ok(None)) {
            return r;
        }
        let r = self.parse_remove_module_exp();
        if !(r matches Ok(None)) {
            return r;
        }
        self.parse_remove_param_exp()
    }

    /// Parses a `DESCRIBE` expression.
    ///
    /// ```txt
    /// describe_exp =
    ///     | describe_namespace_exp
    ///     | describe_database_exp
    ///     | describe_table_exp
    ///     | describe_edge_exp
    ///     | describe_type_exp
    ///     | describe_enum_exp
    ///     | describe_index_exp
    ///     | describe_module_exp
    ///     | describe_param_exp
    /// ```
    pub fn parse_describe_exp(&mut self) -> (r: ParserResult<Option<Ast<'a>>>)
        requires
            old(self).wf(),
        ensures
            rule_step(*old(self), *final(self), r, describe_rule(old(self).bytes(), old(self).state())),
            r matches Ok(Some(a)) ==> describe_kind(old(self).bytes(), old(self).state(), a.kind),
    {
        let r = self.parse_describe_namespace_exp();
        if !(r matches Ok(None)) {
            return r;
        }
        let r = self.parse_describe_database_exp();
        if !(r matches Ok(None)) {
            return r;
        }
        let r = self.parse_describe_table_exp();
        if !(r matches Ok(None)) {
            return r;
        }
        let r = self.parse_describe_edge_exp();
        if !(r matches Ok(None)) {
            return r;
        }
        let r = self.parse_describe_type_exp();
        if !(r matches Ok(None)) {
            return r;
        }
        let r = self.parse_describe_enum_exp();
        if !(r matches Ok(None)) {
            return r;
        }
        let r = self.parse_describe_index_exp();
        if !(r matches Ok(None)) {
            return r;
        }
        let r = self.parse_describe_module_exp();
        if !(r matches Ok(None)) {
            return r;
        }
        self.parse_describe_param_exp()
    }
}

} // verus!

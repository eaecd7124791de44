//! Semantic analysis information attached to syntax tree nodes.

use vstd::prelude::*;

verus! {

/// Semantic analysis information that can be associated with an AST node: the symbols of type
/// `S` and the schema of type `V` that analysis found for it, each when it has been set.
#[derive(Debug, Clone, PartialEq)]
pub struct AnalysisTag<S, V> {
    symbols: Option<S>,
    schema: Option<V>,
}

impl<S, V> AnalysisTag<S, V> {
    /// The symbols, when they have been set.
    pub closed spec fn symbols_spec(&self) -> Option<S> {
        self.symbols
    }

    /// The schema, when it has been set.
    pub closed spec fn schema_spec(&self) -> Option<V> {
        self.schema
    }

    /// Sets the symbols for the analysis tag.
    pub fn set_symbols(&mut self, symbols: S)
        ensures
            final(self).symbols_spec() == Some(symbols),
            final(self).schema_spec() == old(self).schema_spec(),
    {
        self.symbols = Some(symbols);
    }

    /// Sets the schema for the analysis tag.
    pub fn set_schema(&mut self, schema: V)
        ensures
            final(self).schema_spec() == Some(schema),
            final(self).symbols_spec() == old(self).symbols_spec(),
    {
        self.schema = Some(schema);
    }

    /// Gets the symbols for the analysis tag.
    pub fn get_symbols(&self) -> (r: Option<&S>)
        ensures
            match r {
                Some(s) => self.symbols_spec() == Some(*s),
                None => self.symbols_spec() is None,
            },
    {
        match &self.symbols {
            Some(s) => Some(s),
            None => None,
        }
    }

    /// Gets the schema for the analysis tag.
    pub fn get_schema(&self) -> (r: Option<&V>)
        ensures
            match r {
                Some(v) => self.schema_spec() == Some(*v),
                None => self.schema_spec() is None,
            },
    {
        match &self.schema {
            Some(v) => Some(v),
            None => None,
        }
    }
}

impl<S, V> Default for AnalysisTag<S, V> {
    /// A tag with neither symbols nor schema.
    fn default() -> (t: Self)
        ensures
            t.symbols_spec() is None,
            t.schema_spec() is None,
    {
        AnalysisTag { symbols: None, schema: None }
    }
}

} // verus!

//! Per-clause validation, one trait implemented by each supported clause.

pub mod select;

use vstd::prelude::*;

use crate::schema::TablesAndColumns;

verus! {

/// A clause that can be checked against a schema, yielding diagnostic
/// descriptions in a stable order.
pub trait ClauseValidation {
    /// The descriptions this clause yields against the given mapping.
    spec fn spec_validate(&self, schema: Map<Seq<char>, Set<Seq<char>>>) -> Seq<Seq<char>>;

    /// Check the clause against the schema.
    fn validate(&self, schema: &TablesAndColumns) -> (r: Vec<String>)
        ensures
            crate::text::string_views(r@) == self.spec_validate(schema@),
    ;
}

} // verus!

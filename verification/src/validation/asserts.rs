//! Checks on single table references.

use vstd::prelude::*;

use crate::ast::{dotted_name, join_dotted, last_name, Relation};
use crate::schema::TablesAndColumns;
use crate::validation::table_not_found_msg;

verus! {

/// The table error, if any, for one relation: a named table whose last
/// name part is not a key of the schema yields its full dotted name.
pub open spec fn relation_table_error(
    rel: Relation,
    schema: Map<Seq<char>, Set<Seq<char>>>,
) -> Seq<Seq<char>> {
    match rel {
        Relation::Table { name, alias: _ } => if name@.len() > 0 && !schema.contains_key(
            last_name(name@),
        ) {
            seq![table_not_found_msg(dotted_name(name@))]
        } else {
            Seq::empty()
        },
        Relation::Other => Seq::empty(),
    }
}

/// The full dotted name of a named table that is not in the schema, or
/// nothing when the relation is known or is not a plain table.
pub fn is_relation_in_schema(relation: &Relation, tables: &TablesAndColumns) -> (r: Option<
    String,
>)
    ensures
        match r {
            Some(full) => relation_table_error(*relation, tables@) == seq![
                table_not_found_msg(full@),
            ],
            None => relation_table_error(*relation, tables@) == Seq::<Seq<char>>::empty(),
        },
{
    match relation {
        Relation::Table { name, alias: _ } => {
            if name.len() == 0 {
                return None;
            }
            let table_name = &name[name.len() - 1];
            if tables.contains_table(table_name.as_str()) {
                None
            } else {
                Some(join_dotted(name))
            }
        },
        Relation::Other => None,
    }
}

} // verus!

//! Loading a schema from SQL DDL text.

use vstd::prelude::*;

use crate::parsing::{decode_lossy, lossy_utf8, parse_sql_text, parsed_sql};
use crate::schema::{schema_from_statements, schema_of_statements, TablesAndColumns};

verus! {

/// Load a schema from the raw bytes of an SQL DDL file: every top-level
/// `CREATE TABLE` registers its last name part with its column names, and
/// unparseable DDL is an error.
pub fn load_schema(schema: &[u8]) -> (r: Result<TablesAndColumns, String>)
    ensures
        match parsed_sql(lossy_utf8(schema@)) {
            Some(stmts) => r is Ok && r->Ok_0@ == schema_of_statements(stmts),
            None => r is Err && r->Err_0@ == "Could not parse schema file"@,
        },
{
    let text = decode_lossy(schema);
    match parse_sql_text(text.as_str()) {
        Some(stmts) => Ok(schema_from_statements(&stmts)),
        None => Err(String::from_str("Could not parse schema file")),
    }
}

} // verus!

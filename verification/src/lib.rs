//! A static analyzer that finds SQL query string literals embedded in
//! host-language source files, parses them, and checks each query against
//! a relational schema, reporting every table or column reference that the
//! schema (extended by the query's own CTEs) does not declare.

pub mod ast;
pub mod finder;
pub mod parsing;
pub mod schema;
pub mod syntax;
pub mod text;
pub mod validation;

use vstd::prelude::*;

use crate::ast::SqlStatement;
use crate::finder::{find_queries_in_code, found_node, lang_of_ext, query_views, QueryInCode};
use crate::parsing::{parse_sql_text, parsed_sql};
use crate::schema::{schema_from_statements, schema_of_statements, TablesAndColumns};
use crate::syntax::parsed_tree;
use crate::text::{dec_str, string_views};
use crate::validation::{
    code_errors, spec_statements_errors, validate_queries_in_code, validate_statements_with_schema,
    SqlValidationError,
};

verus! {

/// The view of a diagnostic list: each location and description.
pub open spec fn diag_views(s: Seq<SqlValidationError>) -> Seq<(Seq<char>, Seq<char>)> {
    s.map_values(|e: SqlValidationError| (e.location@, e.description@))
}

/// The per-line diagnostics for found queries from index `i` on, stated
/// over the queries' views.
pub open spec fn tagged_errors(
    found: Seq<(usize, Seq<SqlStatement>)>,
    schema: Map<Seq<char>, Set<Seq<char>>>,
    i: int,
) -> Seq<(usize, Seq<char>)>
    decreases found.len() - i,
{
    if i < 0 || i >= found.len() {
        Seq::empty()
    } else {
        spec_statements_errors(found[i].1, schema).map_values(
            |d: Seq<char>| (found[i].0, d),
        ) + tagged_errors(found, schema, i + 1)
    }
}

proof fn lemma_code_errors_by_views(
    queries: Seq<QueryInCode>,
    schema: Map<Seq<char>, Set<Seq<char>>>,
    i: int,
)
    ensures
        code_errors(queries, schema, i) == tagged_errors(query_views(queries), schema, i),
    decreases queries.len() - i,
{
    if 0 <= i < queries.len() {
        lemma_code_errors_by_views(queries, schema, i + 1);
    }
}

/// Per-line diagnostics from index `i` on, each given its
/// `<path>:<line>` location.
pub open spec fn located_errors(
    path: Seq<char>,
    entries: Seq<(usize, Seq<char>)>,
    i: int,
) -> Seq<(Seq<char>, Seq<char>)>
    decreases entries.len() - i,
{
    if i < 0 || i >= entries.len() {
        Seq::empty()
    } else {
        seq![(path + ":"@ + dec_str(entries[i].0 as nat), entries[i].1)] + located_errors(
            path,
            entries,
            i + 1,
        )
    }
}

/// The diagnostics of one source file, over the model of its syntax tree:
/// each found query's descriptions, each tagged `<path>:<line>`.
pub open spec fn spec_file_diagnostics(
    path: Seq<char>,
    found: Seq<(usize, Seq<SqlStatement>)>,
    schema: Map<Seq<char>, Set<Seq<char>>>,
) -> Seq<(Seq<char>, Seq<char>)> {
    located_errors(path, tagged_errors(found, schema, 0), 0)
}

/// Analyze the contents of one source file: find its embedded queries,
/// validate each against the schema, and tag every description with
/// `<path>:<line>`. A file whose syntax tree cannot be produced yields
/// nothing.
pub fn validate_code_file(
    file_path: &str,
    code: &[u8],
    file_extension: &str,
    schema: &TablesAndColumns,
) -> (r: Vec<SqlValidationError>)
    requires
        file_extension@ == "py"@ || file_extension@ == "rs"@ || file_extension@ == "js"@,
    ensures
        match parsed_tree(lang_of_ext(file_extension@), code@) {
            Some(root) => diag_views(r@) == spec_file_diagnostics(
                file_path@,
                found_node(root, lang_of_ext(file_extension@)),
                schema@,
            ),
            None => r@ == Seq::<SqlValidationError>::empty(),
        },
{
    let mut validation_errors: Vec<SqlValidationError> = Vec::new();
    match find_queries_in_code(code, file_extension) {
        Ok(queries) => {
            let query_errors_list = validate_queries_in_code(&queries, schema);
            let ghost found = query_views(queries@);
            let ghost tagged = tagged_errors(found, schema@, 0);
            proof {
                lemma_code_errors_by_views(queries@, schema@, 0);
                assert(tagged == crate::validation::query_error_views(query_errors_list@));
                assert(tagged.len() == query_errors_list@.len());
                assert(diag_views(validation_errors@) + located_errors(file_path@, tagged, 0)
                    =~= located_errors(file_path@, tagged, 0));
            }
            let n = query_errors_list.len();
            let mut i: usize = 0;
            while i < n
                invariant
                    n == query_errors_list@.len(),
                    i <= n,
                    tagged == crate::validation::query_error_views(query_errors_list@),
                    tagged.len() == n,
                    diag_views(validation_errors@) + located_errors(file_path@, tagged, i as int)
                        == located_errors(file_path@, tagged, 0),
                decreases n - i,
            {
                let e = &query_errors_list[i];
                let tagged_error = SqlValidationError::new(
                    file_path,
                    e.line,
                    e.description.clone(),
                );
                let ghost before = validation_errors@;
                validation_errors.push(tagged_error);
                i = i + 1;
                proof {
                    assert(tagged[i - 1] == (e.line, e.description@));
                    assert(diag_views(validation_errors@) =~= diag_views(before).push(
                        (tagged_error.location@, tagged_error.description@),
                    ));
                    assert(diag_views(validation_errors@) + located_errors(
                        file_path@,
                        tagged,
                        i as int,
                    ) =~= diag_views(before) + (seq![
                        (
                            file_path@ + ":"@ + dec_str(tagged[i - 1].0 as nat),
                            tagged[i - 1].1,
                        ),
                    ] + located_errors(file_path@, tagged, i as int)));
                }
            }
            proof {
                assert(diag_views(validation_errors@) + located_errors(
                    file_path@,
                    tagged,
                    n as int,
                ) =~= diag_views(validation_errors@));
            }
        },
        Err(_) => {},
    }
    validation_errors
}

/// Validate one SQL query text against schema DDL text, bypassing
/// extraction. Both texts must parse as SQL; `try_validate_query` checks
/// that first.
pub fn validate_query(query: String, schema: String) -> (r: Vec<String>)
    requires
        parsed_sql(query@) is Some,
        parsed_sql(schema@) is Some,
    ensures
        string_views(r@) == spec_statements_errors(
            parsed_sql(query@)->Some_0,
            schema_of_statements(parsed_sql(schema@)->Some_0),
        ),
{
    let statements = parse_sql_text(query.as_str());
    let schema_statements = parse_sql_text(schema.as_str());
    match (statements, schema_statements) {
        (Some(stmts), Some(schema_stmts)) => {
            let loaded_schema = schema_from_statements(&schema_stmts);
            validate_statements_with_schema(&stmts, &loaded_schema)
        },
        _ => Vec::new(),
    }
}

/// Validate one SQL query text against schema DDL text, or report that
/// one of the two texts does not parse as SQL.
pub fn try_validate_query(query: String, schema: String) -> (r: Option<Vec<String>>)
    ensures
        match r {
            Some(v) => parsed_sql(query@) is Some && parsed_sql(schema@) is Some && string_views(
                v@,
            ) == spec_statements_errors(
                parsed_sql(query@)->Some_0,
                schema_of_statements(parsed_sql(schema@)->Some_0),
            ),
            None => parsed_sql(query@) is None || parsed_sql(schema@) is None,
        },
{
    let query_parses = parse_sql_text(query.as_str()).is_some();
    let schema_parses = parse_sql_text(schema.as_str()).is_some();
    if query_parses && schema_parses {
        Some(validate_query(query, schema))
    } else {
        None
    }
}

} // verus!

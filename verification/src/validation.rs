//! The SQL semantic validator: resolves tables, CTEs, joins, aliases and
//! column references against a schema, and produces the diagnostic strings
//! in a fixed order: CTE errors, then table errors, then column errors.

pub mod asserts;
pub mod clauses;

use vstd::prelude::*;

use crate::ast::{CteDef, ProjectionItem, QueryBody, SqlQuery, SqlStatement};
use crate::finder::QueryInCode;
use crate::schema::{name_set, TablesAndColumns};
use crate::text::{dec_str, string_views};
use crate::validation::clauses::ClauseValidation;
use crate::validation::clauses::select::spec_select_errors;

verus! {

/// The message for a table reference that is neither a schema table nor a
/// CTE alias.
pub open spec fn table_not_found_msg(full: Seq<char>) -> Seq<char> {
    "Table `"@ + full + "` not found in schema nor subqueries"@
}

/// The message for a column missed in exactly one candidate table.
pub open spec fn column_not_found_msg(col: Seq<char>, table: Seq<char>) -> Seq<char> {
    "Column `"@ + col + "` not found in table `"@ + table + "`"@
}

/// Table names joined with commas, no spaces, in order.
pub open spec fn comma_joined(ts: Seq<Seq<char>>) -> Seq<char>
    decreases ts.len(),
{
    if ts.len() == 0 {
        Seq::empty()
    } else if ts.len() == 1 {
        ts[0]
    } else {
        comma_joined(ts.drop_last()) + ","@ + ts.last()
    }
}

/// The message for a column missed in several candidate tables.
pub open spec fn column_not_found_any_msg(col: Seq<char>, tables: Seq<Seq<char>>) -> Seq<char> {
    "Column `"@ + col + "` not found in none of the tables: "@ + comma_joined(tables)
}

/// Build the table-not-found message.
pub fn table_error(full: &str) -> (r: String)
    ensures
        r@ == table_not_found_msg(full@),
{
    let mut m = String::from_str("Table `");
    m.append(full);
    m.append("` not found in schema nor subqueries");
    m
}

/// Build the single-table column message.
pub fn column_error(col: &str, table: &str) -> (r: String)
    ensures
        r@ == column_not_found_msg(col@, table@),
{
    let mut m = String::from_str("Column `");
    m.append(col);
    m.append("` not found in table `");
    m.append(table);
    m.append("`");
    m
}

/// Join table names with commas.
pub fn join_commas(parts: &Vec<String>) -> (r: String)
    ensures
        r@ == comma_joined(string_views(parts@)),
{
    let mut out = String::new();
    let n = parts.len();
    proof {
        assert(string_views(parts@).subrange(0, 0) =~= Seq::<Seq<char>>::empty());
        assert(out@ =~= comma_joined(string_views(parts@).subrange(0, 0)));
    }
    let mut i: usize = 0;
    while i < n
        invariant
            n == parts@.len(),
            i <= n,
            out@ == comma_joined(string_views(parts@).subrange(0, i as int)),
        decreases n - i,
    {
        if i > 0 {
            out.append(",");
        }
        out.append(parts[i].as_str());
        i = i + 1;
        proof {
            let sub = string_views(parts@).subrange(0, i as int);
            assert(sub.drop_last() =~= string_views(parts@).subrange(0, i - 1));
            assert(sub.last() == parts@[i - 1]@);
            if i == 1 {
                assert(out@ =~= comma_joined(sub));
            } else {
                assert(out@ =~= comma_joined(sub.drop_last()) + ","@ + sub.last());
            }
        }
    }
    proof {
        assert(string_views(parts@).subrange(0, n as int) =~= string_views(parts@));
    }
    out
}

/// Build the many-tables column message.
pub fn column_error_many(col: &str, tables: &Vec<String>) -> (r: String)
    ensures
        r@ == column_not_found_any_msg(col@, string_views(tables@)),
{
    let mut m = String::from_str("Column `");
    m.append(col);
    m.append("` not found in none of the tables: ");
    let joined = join_commas(tables);
    m.append(joined.as_str());
    m
}

/// The exposed column names of a CTE, read off its top-level `SELECT`
/// projection, from item `i` on.
pub open spec fn proj_cte_cols(proj: Seq<ProjectionItem>, i: int) -> Seq<Seq<char>>
    decreases proj.len() - i,
{
    if i < 0 || i >= proj.len() {
        Seq::empty()
    } else {
        let this = match proj[i] {
            ProjectionItem::UnnamedIdent(n) => seq![n@],
            ProjectionItem::UnnamedCompound(ids) => if ids@.len() > 0 {
                seq![ids@.last()@]
            } else {
                Seq::empty()
            },
            ProjectionItem::WithAlias(a) => seq![a@],
            ProjectionItem::Other => Seq::empty(),
        };
        this + proj_cte_cols(proj, i + 1)
    }
}

/// The exposed column names of a CTE body.
pub open spec fn cte_columns_seq(q: SqlQuery) -> Seq<Seq<char>> {
    match q.body {
        QueryBody::Select(sel) => proj_cte_cols(sel.projection@, 0),
        QueryBody::Other => Seq::empty(),
    }
}

/// The schema after processing the first `i` CTEs of `q`: each CTE whose
/// shortcut `FROM` identifier, if any, is a key of the base schema inserts
/// its alias with its exposed columns; a CTE with an unknown shortcut
/// inserts nothing.
pub open spec fn ext_after(
    q: SqlQuery,
    schema: Map<Seq<char>, Set<Seq<char>>>,
    i: int,
) -> Map<Seq<char>, Set<Seq<char>>>
    decreases i,
{
    if i <= 0 {
        schema
    } else {
        let prev = ext_after(q, schema, i - 1);
        if i - 1 < q.ctes@.len() {
            let cte = q.ctes@[i - 1];
            match cte.from {
                Some(f) => if schema.contains_key(f@) {
                    prev.insert(cte.alias@, name_set(cte_columns_seq(*cte.query)))
                } else {
                    prev
                },
                None => prev.insert(cte.alias@, name_set(cte_columns_seq(*cte.query))),
            }
        } else {
            prev
        }
    }
}

/// The diagnostics of the CTEs of `q` from index `i` on, validated against
/// the base schema: a CTE with an unknown shortcut `FROM` identifier yields
/// one table error and is not examined further; any other CTE yields the
/// diagnostics of its inner query.
pub open spec fn cte_errors(
    q: SqlQuery,
    schema: Map<Seq<char>, Set<Seq<char>>>,
    i: int,
) -> Seq<Seq<char>>
    decreases q, 0nat, q.ctes@.len() - i,
{
    if i < 0 || i >= q.ctes@.len() {
        Seq::empty()
    } else {
        let cte = q.ctes@[i];
        let this = match cte.from {
            Some(f) => if !schema.contains_key(f@) {
                seq![table_not_found_msg(f@)]
            } else {
                query_errors(*cte.query, schema)
            },
            None => query_errors(*cte.query, schema),
        };
        this + cte_errors(q, schema, i + 1)
    }
}

/// The diagnostics of one query against a schema: its CTE errors first,
/// then, for a `SELECT` body, the body's errors against the schema
/// extended with the CTE aliases.
pub open spec fn query_errors(q: SqlQuery, schema: Map<Seq<char>, Set<Seq<char>>>) -> Seq<
    Seq<char>,
>
    decreases q, 1nat, 0nat,
{
    cte_errors(q, schema, 0) + match q.body {
        QueryBody::Select(sel) => spec_select_errors(sel, ext_after(q, schema, q.ctes@.len() as int)),
        QueryBody::Other => Seq::empty(),
    }
}

/// The diagnostics of a statement list from index `i` on: only queries are
/// inspected.
pub open spec fn statements_errors(
    stmts: Seq<SqlStatement>,
    schema: Map<Seq<char>, Set<Seq<char>>>,
    i: int,
) -> Seq<Seq<char>>
    decreases stmts.len() - i,
{
    if i < 0 || i >= stmts.len() {
        Seq::empty()
    } else {
        let this = match stmts[i] {
            SqlStatement::Query(q) => query_errors(q, schema),
            _ => Seq::empty(),
        };
        this + statements_errors(stmts, schema, i + 1)
    }
}

/// The diagnostics of a statement list against a schema.
pub open spec fn spec_statements_errors(
    stmts: Seq<SqlStatement>,
    schema: Map<Seq<char>, Set<Seq<char>>>,
) -> Seq<Seq<char>> {
    statements_errors(stmts, schema, 0)
}

/// A diagnostic: where, and what.
#[derive(Debug, PartialEq)]
pub struct SqlValidationError {
    pub location: String,
    pub description: String,
}

impl SqlValidationError {
    /// Tag a description with its `<path>:<line>` location.
    pub fn new(file_path: &str, line_number: usize, description: String) -> (r: Self)
        ensures
            r.location@ == file_path@ + ":"@ + dec_str(line_number as nat),
            r.description == description,
    {
        let mut location = String::from_str(file_path);
        location.append(":");
        let line_str = crate::text::to_decimal_string(line_number);
        location.append(line_str.as_str());
        SqlValidationError { location, description }
    }

    /// The one-line display form; color may style `error:` elsewhere but
    /// never changes this text.
    pub fn display_string(&self) -> (r: String)
        ensures
            r@ == self.location@ + ": error: "@ + self.description@,
    {
        let mut m = self.location.clone();
        m.append(": error: ");
        m.append(self.description.as_str());
        m
    }
}

/// Whether a CTE's shortcut `FROM` identifier, if it has one, is a key of
/// the base schema.
pub open spec fn cte_source_known(cte: CteDef, schema: Map<Seq<char>, Set<Seq<char>>>) -> bool {
    match cte.from {
        Some(f) => schema.contains_key(f@),
        None => true,
    }
}

/// Whether every table reference of a query resolves against the schema
/// (or, in the body, against the schema extended with the query's own CTE
/// aliases) and every attempted column match finds its column, through
/// every nested CTE.
pub open spec fn query_resolves(q: SqlQuery, schema: Map<Seq<char>, Set<Seq<char>>>) -> bool
    decreases q,
{
    &&& forall|i: int|
        0 <= i < q.ctes@.len() ==> cte_source_known(#[trigger] q.ctes@[i], schema)
    &&& forall|i: int|
        0 <= i < q.ctes@.len() ==> query_resolves(*(#[trigger] q.ctes@[i]).query, schema)
    &&& match q.body {
        QueryBody::Select(sel) => crate::validation::clauses::select::select_resolves(
            sel,
            ext_after(q, schema, q.ctes@.len() as int),
        ),
        QueryBody::Other => true,
    }
}

proof fn lemma_resolved_ctes_no_errors(q: SqlQuery, schema: Map<Seq<char>, Set<Seq<char>>>, i: int)
    requires
        query_resolves(q, schema),
    ensures
        cte_errors(q, schema, i) == Seq::<Seq<char>>::empty(),
    decreases q, 0nat, q.ctes@.len() - i,
{
    if 0 <= i < q.ctes@.len() {
        lemma_resolved_no_diagnostics(*q.ctes@[i].query, schema);
        lemma_resolved_ctes_no_errors(q, schema, i + 1);
        assert(cte_errors(q, schema, i) =~= Seq::<Seq<char>>::empty());
    } else {
        assert(cte_errors(q, schema, i) =~= Seq::<Seq<char>>::empty());
    }
}

/// A query whose every table reference is a schema key or a CTE alias of
/// its own `WITH` clause, and whose every attempted column match finds its
/// column, yields no diagnostics.
pub proof fn lemma_resolved_no_diagnostics(q: SqlQuery, schema: Map<Seq<char>, Set<Seq<char>>>)
    requires
        query_resolves(q, schema),
    ensures
        query_errors(q, schema) == Seq::<Seq<char>>::empty(),
    decreases q, 1nat, 0nat,
{
    lemma_resolved_ctes_no_errors(q, schema, 0);
    match q.body {
        QueryBody::Select(sel) => {
            crate::validation::clauses::select::lemma_select_resolves_no_errors(
                sel,
                ext_after(q, schema, q.ctes@.len() as int),
            );
        },
        QueryBody::Other => {},
    }
    assert(query_errors(q, schema) =~= Seq::<Seq<char>>::empty());
}

/// Whether `loc` is `path`, a colon, and a decimal number without leading
/// zero: the shape every emitted location has.
pub open spec fn is_location_of(loc: Seq<char>, path: Seq<char>) -> bool {
    &&& loc.len() > path.len() + 1
    &&& loc.subrange(0, path.len() as int) == path
    &&& loc[path.len() as int] == ':'
    &&& (forall|i: int| path.len() + 1 <= i < loc.len() ==> '0' <= #[trigger] loc[i] <= '9')
    &&& loc[path.len() as int + 1] != '0'
}

/// Every emitted diagnostic location matches `<path>:<line>` with a
/// positive line number: the location `SqlValidationError::new` builds for
/// any line of at least one is the path, a colon, and digits whose first
/// is not zero.
pub proof fn lemma_location_format(path: Seq<char>, line: usize)
    requires
        line >= 1,
    ensures
        is_location_of(path + ":"@ + dec_str(line as nat), path),
{
    reveal_strlit(":");
    crate::text::lemma_dec_str_digits(line as nat);
    let loc = path + ":"@ + dec_str(line as nat);
    assert(loc.subrange(0, path.len() as int) =~= path);
    assert(loc[path.len() as int] == ':');
    assert(loc[path.len() as int + 1] == dec_str(line as nat)[0]);
    assert forall|i: int| path.len() + 1 <= i < loc.len() implies '0' <= #[trigger] loc[i]
        <= '9' by {
        assert(loc[i] == dec_str(line as nat)[i - path.len() - 1]);
    }
}

/// Round trip: the diagnostics of a lone extracted query are exactly the
/// descriptions `validate_query`-style validation yields for its
/// statements, each tagged with the query's line.
pub proof fn lemma_single_query_round_trip(q: QueryInCode, schema: Map<Seq<char>, Set<Seq<char>>>)
    ensures
        code_errors(seq![q], schema, 0) == spec_statements_errors(q.statements@, schema).map_values(
            |d: Seq<char>| (q.line, d),
        ),
{
    assert(code_errors(seq![q], schema, 1) =~= Seq::<(usize, Seq<char>)>::empty());
    assert(code_errors(seq![q], schema, 0) =~= spec_statements_errors(
        q.statements@,
        schema,
    ).map_values(|d: Seq<char>| (q.line, d)));
}

/// Idempotence: two runs over the same extracted queries and the same
/// schema produce identical ordered diagnostic lists, because every run's
/// result is pinned to the same function of the inputs.
pub proof fn lemma_runs_identical(
    queries: Seq<QueryInCode>,
    schema: Map<Seq<char>, Set<Seq<char>>>,
    first: Seq<(usize, Seq<char>)>,
    second: Seq<(usize, Seq<char>)>,
)
    requires
        first == code_errors(queries, schema, 0),
        second == code_errors(queries, schema, 0),
    ensures
        first == second,
{
}

/// A diagnostic before it is tagged with a file path.
pub struct SqlQueryError {
    pub line: usize,
    pub description: String,
}

/// The view of a list of per-line diagnostics.
pub open spec fn query_error_views(s: Seq<SqlQueryError>) -> Seq<(usize, Seq<char>)> {
    s.map_values(|e: SqlQueryError| (e.line, e.description@))
}

/// The expected per-line diagnostics for extracted queries from index `i`
/// on: each query's descriptions, each tagged with the query's line.
pub open spec fn code_errors(
    queries: Seq<QueryInCode>,
    schema: Map<Seq<char>, Set<Seq<char>>>,
    i: int,
) -> Seq<(usize, Seq<char>)>
    decreases queries.len() - i,
{
    if i < 0 || i >= queries.len() {
        Seq::empty()
    } else {
        let q = queries[i];
        spec_statements_errors(q.statements@, schema).map_values(|d: Seq<char>| (q.line, d))
            + code_errors(queries, schema, i + 1)
    }
}

/// Validate every extracted query and tag each description with its line.
pub fn validate_queries_in_code(
    queries: &Vec<QueryInCode>,
    schema: &TablesAndColumns,
) -> (r: Vec<SqlQueryError>)
    ensures
        query_error_views(r@) == code_errors(queries@, schema@, 0),
{
    let mut errors: Vec<SqlQueryError> = Vec::new();
    let n = queries.len();
    proof {
        assert(query_error_views(errors@) + code_errors(queries@, schema@, 0) =~= code_errors(
            queries@,
            schema@,
            0,
        ));
    }
    let mut i: usize = 0;
    while i < n
        invariant
            n == queries@.len(),
            i <= n,
            query_error_views(errors@) + code_errors(queries@, schema@, i as int) == code_errors(
                queries@,
                schema@,
                0,
            ),
        decreases n - i,
    {
        let ghost preverrs = query_error_views(errors@);
        let query = &queries[i];
        let query_errors_list = validate_statements_with_schema(&query.statements, schema);
        let ghost descs = string_views(query_errors_list@);
        let m = query_errors_list.len();
        let ghost tagged = spec_statements_errors(query.statements@, schema@).map_values(
            |d: Seq<char>| (query.line, d),
        );
        let mut j: usize = 0;
        while j < m
            invariant
                m == query_errors_list@.len(),
                j <= m,
                descs == string_views(query_errors_list@),
                tagged == descs.map_values(|d: Seq<char>| (query.line, d)),
                query_error_views(errors@) == preverrs + tagged.subrange(0, j as int),
            decreases m - j,
        {
            let description = query_errors_list[j].clone();
            let e = SqlQueryError { line: query.line, description };
            let ghost before = errors@;
            errors.push(e);
            j = j + 1;
            proof {
                assert(query_error_views(errors@) =~= query_error_views(before).push(
                    (e.line, e.description@),
                ));
                assert(e.description@ == descs[j - 1]);
                assert(tagged[j - 1] == (query.line, descs[j - 1]));
                assert(tagged.subrange(0, j as int) =~= tagged.subrange(0, j - 1).push(
                    tagged[j - 1],
                ));
                assert(query_error_views(errors@) =~= preverrs + tagged.subrange(0, j as int));
            }
        }
        i = i + 1;
        proof {
            assert(tagged.subrange(0, tagged.len() as int) =~= tagged);
            assert(query_error_views(errors@) + code_errors(queries@, schema@, i as int)
                =~= preverrs + (tagged + code_errors(queries@, schema@, i as int)));
        }
    }
    proof {
        assert(query_error_views(errors@) + code_errors(queries@, schema@, n as int)
            =~= query_error_views(errors@));
    }
    errors
}

/// Validate each statement of one query text; only `SELECT` queries are
/// inspected.
pub fn validate_statements_with_schema(
    query: &Vec<SqlStatement>,
    schema: &TablesAndColumns,
) -> (r: Vec<String>)
    ensures
        string_views(r@) == spec_statements_errors(query@, schema@),
{
    let mut errors: Vec<String> = Vec::new();
    let n = query.len();
    proof {
        assert(string_views(errors@) + statements_errors(query@, schema@, 0) =~= statements_errors(
            query@,
            schema@,
            0,
        ));
    }
    let mut i: usize = 0;
    while i < n
        invariant
            n == query@.len(),
            i <= n,
            string_views(errors@) + statements_errors(query@, schema@, i as int)
                == statements_errors(query@, schema@, 0),
        decreases n - i,
    {
        let ghost prev = string_views(errors@);
        match &query[i] {
            SqlStatement::Query(q) => {
                let mut qerrs = validate_query_with_schema(q, schema);
                let ghost qdescs = string_views(qerrs@);
                errors.append(&mut qerrs);
                proof {
                    assert(string_views(errors@) =~= prev + qdescs);
                }
            },
            _ => {},
        }
        i = i + 1;
        proof {
            assert(string_views(errors@) + statements_errors(query@, schema@, i as int) =~= prev
                + (statements_errors(query@, schema@, i - 1)));
        }
    }
    proof {
        assert(string_views(errors@) + statements_errors(query@, schema@, n as int)
            =~= string_views(errors@));
    }
    errors
}

/// Validate one query: its CTEs against the base schema, then its body
/// against the schema extended with the CTE aliases.
pub fn validate_query_with_schema(query: &SqlQuery, schema: &TablesAndColumns) -> (r: Vec<String>)
    ensures
        string_views(r@) == query_errors(*query, schema@),
    decreases *query, 1nat,
{
    let mut schema_with_derived = schema.duplicate();
    let mut errors: Vec<String> = Vec::new();
    validate_and_extract_subqueries(query, schema, &mut schema_with_derived, &mut errors);
    let ghost ctepart = string_views(errors@);
    match &query.body {
        QueryBody::Select(sel) => {
            let mut body_errors = sel.validate(&schema_with_derived);
            let ghost bodypart = string_views(body_errors@);
            errors.append(&mut body_errors);
            proof {
                assert(string_views(errors@) =~= ctepart + bodypart);
            }
        },
        QueryBody::Other => {
            proof {
                assert(string_views(errors@) + Seq::<Seq<char>>::empty() =~= string_views(
                    errors@,
                ));
            }
        },
    }
    errors
}

/// Collect the exposed column names of a CTE body.
fn collect_cte_columns(q: &SqlQuery) -> (r: Vec<String>)
    ensures
        string_views(r@) == cte_columns_seq(*q),
{
    let mut out: Vec<String> = Vec::new();
    match &q.body {
        QueryBody::Select(sel) => {
            let n = sel.projection.len();
            proof {
                assert(string_views(out@) + proj_cte_cols(sel.projection@, 0) =~= proj_cte_cols(
                    sel.projection@,
                    0,
                ));
            }
            let mut i: usize = 0;
            while i < n
                invariant
                    n == sel.projection@.len(),
                    i <= n,
                    string_views(out@) + proj_cte_cols(sel.projection@, i as int) == proj_cte_cols(
                        sel.projection@,
                        0,
                    ),
                decreases n - i,
            {
                let ghost prev = string_views(out@);
                match &sel.projection[i] {
                    ProjectionItem::UnnamedIdent(name) => {
                        out.push(name.clone());
                        proof {
                            assert(string_views(out@) =~= prev + seq![name@]);
                        }
                    },
                    ProjectionItem::UnnamedCompound(ids) => {
                        if ids.len() > 0 {
                            out.push(ids[ids.len() - 1].clone());
                            proof {
                                assert(string_views(out@) =~= prev + seq![ids@.last()@]);
                            }
                        }
                    },
                    ProjectionItem::WithAlias(alias) => {
                        out.push(alias.clone());
                        proof {
                            assert(string_views(out@) =~= prev + seq![alias@]);
                        }
                    },
                    ProjectionItem::Other => {},
                }
                i = i + 1;
                proof {
                    assert(string_views(out@) + proj_cte_cols(sel.projection@, i as int) =~= prev
                        + proj_cte_cols(sel.projection@, i - 1));
                }
            }
            proof {
                assert(string_views(out@) + proj_cte_cols(sel.projection@, n as int)
                    =~= string_views(out@));
            }
        },
        QueryBody::Other => {
            proof {
                assert(string_views(out@) =~= Seq::<Seq<char>>::empty());
            }
        },
    }
    out
}

/// First pass over a query's CTEs: check shortcut `FROM` identifiers,
/// validate each CTE's inner query against the base schema, and extend the
/// per-query schema with each CTE's alias and exposed columns.
fn validate_and_extract_subqueries(
    query: &SqlQuery,
    schema: &TablesAndColumns,
    schema_with_derived: &mut TablesAndColumns,
    errors: &mut Vec<String>,
)
    requires
        old(schema_with_derived)@ == schema@,
    ensures
        final(schema_with_derived)@ == ext_after(*query, schema@, query.ctes@.len() as int),
        string_views(final(errors)@) == string_views(old(errors)@) + cte_errors(
            *query,
            schema@,
            0,
        ),
    decreases *query, 0nat,
{
    let n = query.ctes.len();
    proof {
        assert(string_views(errors@) + cte_errors(*query, schema@, 0) == string_views(old(errors)@)
            + cte_errors(*query, schema@, 0));
    }
    let mut i: usize = 0;
    while i < n
        invariant
            n == query.ctes@.len(),
            i <= n,
            schema_with_derived@ == ext_after(*query, schema@, i as int),
            string_views(errors@) + cte_errors(*query, schema@, i as int) == string_views(
                old(errors)@,
            ) + cte_errors(*query, schema@, 0),
        decreases n - i,
    {
        let ghost prev = string_views(errors@);
        let ghost prevmap = schema_with_derived@;
        let cte = &query.ctes[i];
        let mut skip: bool = false;
        match &cte.from {
            Some(f) => {
                if !schema.contains_table(f.as_str()) {
                    let msg = table_error(f.as_str());
                    errors.push(msg);
                    skip = true;
                    proof {
                        assert(string_views(errors@) =~= prev + seq![table_not_found_msg(f@)]);
                    }
                }
            },
            None => {},
        }
        if !skip {
            let mut sub_errors = validate_query_with_schema(&cte.query, schema);
            let ghost subdescs = string_views(sub_errors@);
            errors.append(&mut sub_errors);
            proof {
                assert(string_views(errors@) =~= prev + subdescs);
            }
            let derived_columns = collect_cte_columns(&cte.query);
            let alias = cte.alias.clone();
            schema_with_derived.insert(alias, derived_columns);
        }
        i = i + 1;
        proof {
            let ghost this = if cte.from is Some && !schema@.contains_key(cte.from->0@) {
                seq![table_not_found_msg(cte.from->0@)]
            } else {
                query_errors(*cte.query, schema@)
            };
            assert(cte_errors(*query, schema@, i - 1) == this + cte_errors(
                *query,
                schema@,
                i as int,
            ));
            assert(string_views(errors@) + cte_errors(*query, schema@, i as int) =~= prev + (this
                + cte_errors(*query, schema@, i as int)));
            assert(schema_with_derived@ == ext_after(*query, schema@, i as int));
        }
    }
    proof {
        assert(string_views(errors@) + cte_errors(*query, schema@, n as int) =~= string_views(
            errors@,
        ));
    }
}

} // verus!

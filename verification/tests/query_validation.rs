use sqlshield::schema::load_schema;
use sqlshield::validation::SqlValidationError;
use sqlshield::{try_validate_query, validate_query};

const SCHEMA: &str =
    "CREATE TABLE users(id int, name text); CREATE TABLE receipt(id int, user_id int, content text);";

fn check(query: &str, expected: Vec<&str>) {
    let got = validate_query(query.to_string(), SCHEMA.to_string());
    let expected_strings: Vec<String> = expected.iter().map(|s| s.to_string()).collect();
    assert_eq!(got, expected_strings);
}

#[test]
fn valid_query_yields_no_diagnostics() {
    check("SELECT name FROM users WHERE id=1", vec![]);
}

#[test]
fn missing_column_is_reported() {
    check(
        "SELECT email FROM users WHERE id=1",
        vec!["Column `email` not found in table `users`"],
    );
}

#[test]
fn missing_table_is_reported() {
    check(
        "SELECT name FROM admin WHERE id=1",
        vec!["Table `admin` not found in schema nor subqueries"],
    );
}

#[test]
fn join_reports_both_columns_in_order() {
    check(
        "SELECT r.name, u.content FROM users u JOIN receipt r ON r.user_id=u.id WHERE r.id=1",
        vec![
            "Column `name` not found in table `receipt`",
            "Column `content` not found in table `users`",
        ],
    );
}

#[test]
fn derived_table_resolves() {
    check(
        "WITH sub AS (SELECT user_id, content FROM receipt) SELECT u.id, k.content FROM users u JOIN sub k ON k.user_id=u.id",
        vec![],
    );
}

#[test]
fn derived_table_with_unknown_source() {
    check(
        "WITH sub AS (SELECT user_id, content FROM admin) SELECT k.user_id, u.id FROM users u JOIN sub k ON k.user_id=u.id",
        vec!["Table `admin` not found in schema nor subqueries"],
    );
}

#[test]
fn derived_table_with_wrong_columns() {
    check(
        "WITH sub AS (SELECT user_id, content FROM receipt) SELECT k.id, u.content FROM users u JOIN sub k ON k.user_id=u.id",
        vec![
            "Column `id` not found in table `sub`",
            "Column `content` not found in table `users`",
        ],
    );
}

#[test]
fn quoted_schema_name_registers_last_identifier() {
    let ddl = "CREATE TABLE \"schema\".\"t\" (a int)";
    let ok = validate_query("SELECT a FROM t".to_string(), ddl.to_string());
    assert_eq!(ok, Vec::<String>::new());
    let missing = validate_query("SELECT b FROM t".to_string(), ddl.to_string());
    assert_eq!(missing, vec!["Column `b` not found in table `t`".to_string()]);
}

#[test]
fn unmatched_alias_contributes_no_diagnostic() {
    check("SELECT a.c FROM users u WHERE u.id=1", vec![]);
}

#[test]
fn unqualified_column_skips_aliased_table() {
    check("SELECT email FROM users u", vec![]);
}

#[test]
fn cte_shortcut_from_unknown_is_not_recursed() {
    check(
        "WITH sub (SELECT nope FROM nowhere) FROM admin SELECT name FROM users",
        vec!["Table `admin` not found in schema nor subqueries"],
    );
}

#[test]
fn cte_shortcut_from_known_is_validated_and_registered() {
    check(
        "WITH sub (SELECT user_id FROM receipt) FROM users SELECT user_id FROM sub",
        vec![],
    );
}

#[test]
fn column_missing_from_every_table() {
    check(
        "SELECT nope FROM users, receipt",
        vec!["Column `nope` not found in none of the tables: users,receipt"],
    );
}

#[test]
fn non_query_statements_are_ignored() {
    check("INSERT INTO admin VALUES (1)", vec![]);
}

#[test]
fn schema_kind_is_checked() {
    let r = load_schema(SCHEMA.as_bytes(), "yaml");
    assert_eq!(r.err().unwrap(), "Schema type not supported yaml".to_string());
}

#[test]
fn unparseable_schema_is_an_error() {
    let r = load_schema(b"CREATE TABLE ((", "sql");
    assert_eq!(r.err().unwrap(), "Could not parse schema file".to_string());
}

#[test]
fn try_validate_query_rejects_unparseable_sql() {
    let r = try_validate_query("NOT SQL (".to_string(), SCHEMA.to_string());
    assert!(r.is_none());
}

#[test]
fn try_validate_query_matches_validate_query() {
    let q = "SELECT email FROM users WHERE id=1";
    let direct = validate_query(q.to_string(), SCHEMA.to_string());
    let tried = try_validate_query(q.to_string(), SCHEMA.to_string());
    assert_eq!(tried.unwrap(), direct);
}

#[test]
fn location_is_path_colon_line() {
    let e = SqlValidationError::new("src/app.py", 17, "boom".to_string());
    assert_eq!(e.location, "src/app.py:17".to_string());
    assert_eq!(e.description, "boom".to_string());
    assert_eq!(e.display_string(), "src/app.py:17: error: boom".to_string());
}

#[test]
fn repeated_validation_runs_are_identical() {
    let q = "SELECT r.name, u.content FROM users u JOIN receipt r ON r.user_id=u.id";
    let first = validate_query(q.to_string(), SCHEMA.to_string());
    let second = validate_query(q.to_string(), SCHEMA.to_string());
    assert_eq!(first, second);
}

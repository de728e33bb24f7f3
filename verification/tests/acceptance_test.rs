use sqlshield::schema::load_schema;
use sqlshield::validate_code_file;
use sqlshield::validation::SqlValidationError;

const SCHEMA_SQL: &str = "CREATE TABLE users(id int, name text); CREATE TABLE receipt(id int, user_id int, content text);";

const MAIN_PY: &str = "VALID_QUERY = \"\"\"
    SELECT name
    FROM users
    WHERE id = 1
\"\"\"

INVALID_QUERY_MISSING_COLUMN = \"\"\"
    SELECT email
    FROM users
    WHERE id = 1
\"\"\"

INVALID_QUERY_MISSING_TABLE = \"\"\"
    SELECT name
    FROM admin
    WHERE id = 1
\"\"\"


def query_in_function():
    invalid_query_missing_table_in_fn = \"\"\"
        SELECT name
        FROM admin
        WHERE id = 1
    \"\"\"

def query_in_fstring(user_id):
    invalid_query_missing_table_fstring = f\"\"\"
        SELECT name
        FROM admin
        WHERE id = {user_id}
    \"\"\"


def queries_with_joins():
    valid_query_with_alias_and_join = \"\"\"
        SELECT u.name, r.content
        FROM users u
        JOIN receipt r
        ON r.user_id = u.id
        WHERE r.id = 1
    \"\"\"
    invalid_query_with_alias_and_join = \"\"\"
        SELECT r.name, u.content
        FROM users u
        JOIN receipt r
        ON r.user_id = u.id
        WHERE r.id = 1
    \"\"\"


def queries_with_derived():
    valid_query_with_derived = \"\"\"
        WITH sub as (SELECT user_id, content FROM receipt)
        SELECT u.id, k.content
        FROM users u
        JOIN sub k
        ON k.user_id = u.id
    \"\"\"

    invalid_query_with_derived_no_table = \"\"\"
        WITH sub as (SELECT user_id, content FROM admin)
        SELECT k.user_id, u.id
        FROM users u
        JOIN sub k
        ON k.user_id = u.id
    \"\"\"



    invalid_query_with_shadowed_users = \"\"\"
        WITH users as (SELECT user_id FROM receipt)
        SELECT id, content
        FROM users
    \"\"\"
";

const LANGUAGES_MAIN_PY: &str = "VALID_QUERY = \"\"\"
    SELECT name
    FROM users
    WHERE id = 1
\"\"\"

INVALID_QUERY_MISSING_COLUMN = \"\"\"
    SELECT email
    FROM users
    WHERE id = 1
\"\"\"

INVALID_QUERY_MISSING_TABLE = \"\"\"
    SELECT name
    FROM admin
    WHERE id = 1
\"\"\"


def query_in_function():
    invalid_query_missing_table_in_fn = \"\"\"
        SELECT name
        FROM admin
        WHERE id = 1
    \"\"\"

def query_in_fstring(user_id):
    invalid_query_missing_table_fstring = f\"\"\"
        SELECT name
        FROM admin
        WHERE id = {user_id}
    \"\"\"


def queries_with_joins():
    valid_query_with_alias_and_join = \"\"\"
        SELECT u.name, r.content
        FROM users u
        JOIN receipt r
        ON r.user_id = u.id
        WHERE r.id = 1
    \"\"\"
    invalid_query_with_alias_and_join = \"\"\"
        SELECT r.name, u.content
        FROM users u
        JOIN receipt r
        ON r.user_id = u.id
        WHERE r.id = 1
    \"\"\"


def queries_with_derived():
    valid_query_with_derived = \"\"\"
        WITH sub as (SELECT user_id, content FROM receipt)
        SELECT u.id, k.content
        FROM users u
        JOIN sub k
        ON k.user_id = u.id
    \"\"\"

    invalid_query_with_derived_no_table = \"\"\"
        WITH sub as (SELECT user_id, content FROM admin)
        SELECT k.user_id, u.id
        FROM users u
        JOIN sub k
        ON k.user_id = u.id
    \"\"\"



    invalid_query_with_derived_wrong_columns = \"\"\"
        WITH sub as (SELECT user_id, content FROM receipt)
        SELECT k.id, u.content
        FROM users u
        JOIN sub k
        ON k.user_id = u.id
    \"\"\"
";

const LANGUAGES_MAIN_RS: &str = "#![allow(dead_code)]
#![allow(unused_variables)]

const VALID_QUERY: &str = \"
    SELECT name
    FROM users
    WHERE id = 1
\";

const INVALID_QUERY_MISSING_COLUMN: &str = \"
    SELECT email
    FROM users
    WHERE id = 1
\";

const INVALID_QUERY_MISSING_TABLE: &str = \"
    SELECT name
    FROM admin
    WHERE id = 1
\";

struct Repository;

impl Repository {
    fn new() {
        let id = 1;
        let invalid_query_missing_table_in_method = format!(
            \"
            SELECT name
            FROM admin
            WHERE id = {id}
        \"
        );
    }
}

fn func() {
    let invalid_query_missing_table_in_fn = \"
        SELECT name
        FROM admin
        WHERE id = 1
    \";
}

fn main() {
    let valid_query_with_alias_and_join = \"
        SELECT u.name, r.content
        FROM users u
        JOIN receipt r
        ON r.user_id = u.id
        WHERE r.id = 1
    \";

    let invalid_query_with_alias_and_join = \"
        SELECT r.name, u.content
        FROM users u
        JOIN receipt r
        ON r.user_id = u.id
        WHERE r.id = 1
    \";

    let valid_query_with_derived = \"
        WITH sub as (
            SELECT user_id, content FROM receipt
        )
        SELECT u.id, k.content
        FROM users u
        JOIN sub k
        ON k.user_id = u.id
    \";

    let invalid_query_with_derived_no_table = \"
        WITH sub as (
            SELECT user_id, content FROM admin
        )
        SELECT k.user_id, u.id
        FROM users u
        JOIN sub k
        ON k.user_id = u.id
    \";

    let invalid_query_with_derived_wrong_columns = \"
        WITH sub as (
            SELECT user_id, content FROM receipt
        )
        SELECT k.id, u.content
        FROM users u
        JOIN sub k
        ON k.user_id = u.id
    \";
}
";

fn analyze(path: &str, ext: &str, code: &str, schema_sql: &str) -> Vec<SqlValidationError> {
    let schema = load_schema(schema_sql.as_bytes(), "sql").unwrap();
    validate_code_file(path, code.as_bytes(), ext, &schema)
}

#[test]
fn test_sqlshield_acceptance() {
    let validation_errors = analyze("./tests/main.py", "py", MAIN_PY, SCHEMA_SQL);

    let expected_validation_errors = vec![
        SqlValidationError {
            location: "./tests/main.py:7".to_string(),
            description: "Column `email` not found in table `users`".to_string(),
        },
        SqlValidationError {
            location: "./tests/main.py:13".to_string(),
            description: "Table `admin` not found in schema nor subqueries".to_string(),
        },
        SqlValidationError {
            location: "./tests/main.py:21".to_string(),
            description: "Table `admin` not found in schema nor subqueries".to_string(),
        },
        SqlValidationError {
            location: "./tests/main.py:28".to_string(),
            description: "Table `admin` not found in schema nor subqueries".to_string(),
        },
        SqlValidationError {
            location: "./tests/main.py:43".to_string(),
            description: "Column `name` not found in table `receipt`".to_string(),
        },
        SqlValidationError {
            location: "./tests/main.py:43".to_string(),
            description: "Column `content` not found in table `users`".to_string(),
        },
        SqlValidationError {
            location: "./tests/main.py:61".to_string(),
            description: "Table `admin` not found in schema nor subqueries".to_string(),
        },
        SqlValidationError {
            location: "./tests/main.py:71".to_string(),
            description: "Column `id` not found in table `users`".to_string(),
        },
        SqlValidationError {
            location: "./tests/main.py:71".to_string(),
            description: "Column `content` not found in table `users`".to_string(),
        },
    ];
    assert_eq!(validation_errors, expected_validation_errors);
}

#[test]
fn test_sqlshield_acceptance_python() {
    let validation_errors = analyze(
        "./tests/languages/main.py",
        "py",
        LANGUAGES_MAIN_PY,
        SCHEMA_SQL,
    );

    let expected_validation_errors = vec![
        SqlValidationError {
            location: "./tests/languages/main.py:7".to_string(),
            description: "Column `email` not found in table `users`".to_string(),
        },
        SqlValidationError {
            location: "./tests/languages/main.py:13".to_string(),
            description: "Table `admin` not found in schema nor subqueries".to_string(),
        },
        SqlValidationError {
            location: "./tests/languages/main.py:21".to_string(),
            description: "Table `admin` not found in schema nor subqueries".to_string(),
        },
        SqlValidationError {
            location: "./tests/languages/main.py:28".to_string(),
            description: "Table `admin` not found in schema nor subqueries".to_string(),
        },
        SqlValidationError {
            location: "./tests/languages/main.py:43".to_string(),
            description: "Column `name` not found in table `receipt`".to_string(),
        },
        SqlValidationError {
            location: "./tests/languages/main.py:43".to_string(),
            description: "Column `content` not found in table `users`".to_string(),
        },
        SqlValidationError {
            location: "./tests/languages/main.py:61".to_string(),
            description: "Table `admin` not found in schema nor subqueries".to_string(),
        },
        SqlValidationError {
            location: "./tests/languages/main.py:71".to_string(),
            description: "Column `id` not found in table `sub`".to_string(),
        },
        SqlValidationError {
            location: "./tests/languages/main.py:71".to_string(),
            description: "Column `content` not found in table `users`".to_string(),
        },
    ];
    assert_eq!(validation_errors, expected_validation_errors);
}

#[test]
fn test_sqlshield_acceptance_rust() {
    let validation_errors = analyze(
        "./tests/languages/main.rs",
        "rs",
        LANGUAGES_MAIN_RS,
        SCHEMA_SQL,
    );

    let expected_validation_errors = vec![
        SqlValidationError {
            location: "./tests/languages/main.rs:10".to_string(),
            description: "Column `email` not found in table `users`".to_string(),
        },
        SqlValidationError {
            location: "./tests/languages/main.rs:16".to_string(),
            description: "Table `admin` not found in schema nor subqueries".to_string(),
        },
        SqlValidationError {
            location: "./tests/languages/main.rs:28".to_string(),
            description: "Table `admin` not found in schema nor subqueries".to_string(),
        },
        SqlValidationError {
            location: "./tests/languages/main.rs:38".to_string(),
            description: "Table `admin` not found in schema nor subqueries".to_string(),
        },
        SqlValidationError {
            location: "./tests/languages/main.rs:54".to_string(),
            description: "Column `name` not found in table `receipt`".to_string(),
        },
        SqlValidationError {
            location: "./tests/languages/main.rs:54".to_string(),
            description: "Column `content` not found in table `users`".to_string(),
        },
        SqlValidationError {
            location: "./tests/languages/main.rs:72".to_string(),
            description: "Table `admin` not found in schema nor subqueries".to_string(),
        },
        SqlValidationError {
            location: "./tests/languages/main.rs:82".to_string(),
            description: "Column `id` not found in table `sub`".to_string(),
        },
        SqlValidationError {
            location: "./tests/languages/main.rs:82".to_string(),
            description: "Column `content` not found in table `users`".to_string(),
        },
    ];
    assert_eq!(validation_errors, expected_validation_errors);
}

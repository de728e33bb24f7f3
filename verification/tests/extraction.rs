use sqlshield::finder::{
    find_queries_in_code, is_supported_code_file, is_supported_extension, javascript, python,
    rust,
};
use sqlshield::schema::load_schema;
use sqlshield::syntax::SyntaxNode;
use sqlshield::validation::validate_queries_in_code;

const SCHEMA: &str =
    "CREATE TABLE users(id int, name text); CREATE TABLE receipt(id int, user_id int, content text);";

fn leaf(kind: &str, text: &str) -> SyntaxNode {
    SyntaxNode {
        kind: kind.to_string(),
        text: text.to_string(),
        row: 0,
        children: vec![],
    }
}

#[test]
fn unparseable_literal_yields_no_queries() {
    let code = "x = \"\"\"this is ( not sql\"\"\"\n";
    let queries = find_queries_in_code(code.as_bytes(), "py").unwrap();
    assert_eq!(queries.len(), 0);
}

#[test]
fn replace_substring_opts_out() {
    let code = "q = \"\"\"SELECT REPLACE(name, 'a', 'b') FROM users\"\"\"\n";
    let queries = find_queries_in_code(code.as_bytes(), "py").unwrap();
    assert_eq!(queries.len(), 0);
}

#[test]
fn format_placeholder_is_masked() {
    let code = "q = \"\"\"SELECT name FROM users WHERE id = {user_id}\"\"\"\n";
    let schema = load_schema(SCHEMA.as_bytes(), "sql").unwrap();
    let queries = find_queries_in_code(code.as_bytes(), "py").unwrap();
    assert_eq!(queries.len(), 1);
    let errors = validate_queries_in_code(&queries, &schema);
    assert_eq!(errors.len(), 0);
}

#[test]
fn fstring_interpolation_is_masked() {
    let code = "def f(uid):\n    q = f\"\"\"SELECT name FROM users WHERE id = {uid}\"\"\"\n";
    let schema = load_schema(SCHEMA.as_bytes(), "sql").unwrap();
    let queries = find_queries_in_code(code.as_bytes(), "py").unwrap();
    assert_eq!(queries.len(), 1);
    assert_eq!(queries[0].line, 2);
    let errors = validate_queries_in_code(&queries, &schema);
    assert_eq!(errors.len(), 0);
}

#[test]
fn rust_literal_quotes_are_stripped() {
    let code = "fn main() {\n    let q = \"SELECT name FROM users WHERE id = 1\";\n}\n";
    let schema = load_schema(SCHEMA.as_bytes(), "sql").unwrap();
    let queries = find_queries_in_code(code.as_bytes(), "rs").unwrap();
    assert_eq!(queries.len(), 1);
    assert_eq!(queries[0].line, 2);
    let errors = validate_queries_in_code(&queries, &schema);
    assert_eq!(errors.len(), 0);
}

#[test]
fn javascript_string_is_extracted() {
    let code = "const q = \"SELECT email FROM users WHERE id = 1\";\n";
    let schema = load_schema(SCHEMA.as_bytes(), "sql").unwrap();
    let queries = find_queries_in_code(code.as_bytes(), "js").unwrap();
    assert_eq!(queries.len(), 1);
    let errors = validate_queries_in_code(&queries, &schema);
    assert_eq!(errors.len(), 1);
    assert_eq!(
        errors[0].description,
        "Column `email` not found in table `users`".to_string()
    );
}

#[test]
fn javascript_template_substitution_is_dropped() {
    let code = "const q = `SELECT name FROM users WHERE id = ${uid}`;\n";
    let queries = find_queries_in_code(code.as_bytes(), "js").unwrap();
    assert_eq!(queries.len(), 0);
}

#[test]
fn query_line_is_one_based() {
    let code = "\n\nq = \"\"\"SELECT name FROM users\"\"\"\n";
    let queries = find_queries_in_code(code.as_bytes(), "py").unwrap();
    assert_eq!(queries.len(), 1);
    assert_eq!(queries[0].line, 3);
}

#[test]
fn supported_extensions_are_py_rs_js() {
    assert!(is_supported_extension("py"));
    assert!(is_supported_extension("rs"));
    assert!(is_supported_extension("js"));
    assert!(!is_supported_extension("txt"));
    assert!(!is_supported_extension("pyc"));
}

#[test]
fn supported_code_files_by_suffix() {
    assert!(is_supported_code_file("a/b/c.py"));
    assert!(is_supported_code_file("x.rs"));
    assert!(is_supported_code_file("x.js"));
    assert!(!is_supported_code_file("c.pyc"));
    assert!(!is_supported_code_file("js"));
    assert!(!is_supported_code_file("noext"));
}

#[test]
fn python_node_concatenates_and_masks() {
    let node = SyntaxNode {
        kind: "string".to_string(),
        text: String::new(),
        row: 4,
        children: vec![
            leaf("string_start", "\"\"\""),
            leaf("string_content", "SELECT name FROM users WHERE id = "),
            leaf("interpolation", "{uid}"),
            leaf("string_end", "\"\"\""),
        ],
    };
    let got = python::extract_query_from_node(&node);
    assert_eq!(
        got,
        Some("SELECT name FROM users WHERE id = 1".to_string())
    );
}

#[test]
fn python_non_string_node_is_skipped() {
    let node = leaf("identifier", "query");
    assert_eq!(python::extract_query_from_node(&node), None);
}

#[test]
fn rust_node_strips_quotes_and_masks() {
    let node = leaf("string_literal", "\"SELECT {c} FROM {t}\"");
    let got = rust::extract_query_from_node(&node);
    assert_eq!(got, Some("SELECT 1 FROM 1".to_string()));
}

#[test]
fn placeholder_must_close_on_the_same_line() {
    let node = leaf("string_literal", "\"{a\nb} {c}\"");
    let got = rust::extract_query_from_node(&node);
    assert_eq!(got, Some("{a\nb} 1".to_string()));
}

#[test]
fn javascript_node_keeps_fragments_only() {
    let node = SyntaxNode {
        kind: "template_string".to_string(),
        text: String::new(),
        row: 0,
        children: vec![
            leaf("`", "`"),
            leaf("string_fragment", "SELECT name FROM users"),
            leaf("`", "`"),
        ],
    };
    let got = javascript::extract_query_from_node(&node);
    assert_eq!(got, Some("SELECT name FROM users".to_string()));
}

#[test]
fn repeated_extraction_runs_are_identical() {
    let code = "q = \"\"\"SELECT email FROM users WHERE id = {x}\"\"\"\n";
    let schema = load_schema(SCHEMA.as_bytes(), "sql").unwrap();
    let first = find_queries_in_code(code.as_bytes(), "py").unwrap();
    let second = find_queries_in_code(code.as_bytes(), "py").unwrap();
    let first_errors: Vec<(usize, String)> = validate_queries_in_code(&first, &schema)
        .into_iter()
        .map(|e| (e.line, e.description))
        .collect();
    let second_errors: Vec<(usize, String)> = validate_queries_in_code(&second, &schema)
        .into_iter()
        .map(|e| (e.line, e.description))
        .collect();
    assert_eq!(first_errors.len(), 1);
    assert_eq!(first_errors, second_errors);
}

//! Finding candidate SQL queries in host-language source code: walk the
//! syntax tree, extract string-literal candidates per language, drop any
//! candidate whose text contains `REPLACE`, and keep those that parse.

pub mod javascript;
pub mod python;
pub mod rust;

use vstd::prelude::*;

use crate::ast::SqlStatement;
use crate::parsing::{parse_sql_text, parsed_sql};
use crate::syntax::{parse_host_tree, parsed_tree, HostLanguage, SyntaxNode};
use crate::text::{contains_seq, str_contains, str_eq};

verus! {

/// One SQL query found in source code: the 1-based line of the string
/// literal's first byte, and the parsed statements.
pub struct QueryInCode {
    pub line: usize,
    pub statements: Vec<SqlStatement>,
}

/// The view of a found-query list.
pub open spec fn query_views(s: Seq<QueryInCode>) -> Seq<(usize, Seq<SqlStatement>)> {
    s.map_values(|q: QueryInCode| (q.line, q.statements@))
}

/// The candidate text a node yields under a language's string-literal
/// policy.
pub open spec fn lang_extract(lang: HostLanguage, node: SyntaxNode) -> Option<Seq<char>> {
    match lang {
        HostLanguage::Python => python::spec_extract(node),
        HostLanguage::Rust => rust::spec_extract(node),
        HostLanguage::Javascript => javascript::spec_extract(node),
    }
}

/// The 1-based line for a 0-based row.
pub open spec fn line_of(row: usize) -> usize {
    if row == usize::MAX {
        usize::MAX
    } else {
        (row + 1) as usize
    }
}

/// What one node contributes: its candidate, unless the candidate holds
/// `REPLACE` or does not parse as SQL.
pub open spec fn try_node(lang: HostLanguage, node: SyntaxNode) -> Seq<(usize, Seq<SqlStatement>)> {
    match lang_extract(lang, node) {
        None => Seq::empty(),
        Some(t) => if contains_seq(t, "REPLACE"@) {
            Seq::empty()
        } else {
            match parsed_sql(t) {
                Some(stmts) => seq![(line_of(node.row), stmts)],
                None => Seq::empty(),
            }
        },
    }
}

/// The contributions of a node's children from index `j` on.
pub open spec fn try_children(node: SyntaxNode, lang: HostLanguage, j: int) -> Seq<
    (usize, Seq<SqlStatement>),
>
    decreases node.children@.len() - j,
{
    if j < 0 || j >= node.children@.len() {
        Seq::empty()
    } else {
        try_node(lang, node.children@[j]) + try_children(node, lang, j + 1)
    }
}

/// The queries found under `node`'s children from index `i` on: for each
/// child, first its own children's contributions, then the walk of the
/// child itself.
pub open spec fn found_in_children(node: SyntaxNode, lang: HostLanguage, i: int) -> Seq<
    (usize, Seq<SqlStatement>),
>
    decreases node, 0nat, node.children@.len() - i,
{
    if i < 0 || i >= node.children@.len() {
        Seq::empty()
    } else {
        (try_children(node.children@[i], lang, 0) + found_node(node.children@[i], lang))
            + found_in_children(node, lang, i + 1)
    }
}

/// The queries found by walking the tree rooted at `node`.
pub open spec fn found_node(node: SyntaxNode, lang: HostLanguage) -> Seq<
    (usize, Seq<SqlStatement>),
>
    decreases node, 1nat, 0nat,
{
    found_in_children(node, lang, 0)
}

/// Extract one node's candidate under the given language.
fn extract_for(lang: HostLanguage, node: &SyntaxNode) -> (r: Option<String>)
    ensures
        match r {
            Some(s) => lang_extract(lang, *node) == Some(s@),
            None => lang_extract(lang, *node) is None,
        },
{
    match lang {
        HostLanguage::Python => python::extract_query_from_node(node),
        HostLanguage::Rust => rust::extract_query_from_node(node),
        HostLanguage::Javascript => javascript::extract_query_from_node(node),
    }
}

/// Walk the tree and append every query found, in traversal order.
pub fn find_queries_in_ast(
    node: &SyntaxNode,
    lang: HostLanguage,
    queries: &mut Vec<QueryInCode>,
)
    ensures
        query_views(final(queries)@) == query_views(old(queries)@) + found_node(*node, lang),
    decreases *node,
{
    let n = node.children.len();
    proof {
        assert(query_views(queries@) + found_in_children(*node, lang, 0) == query_views(
            old(queries)@,
        ) + found_in_children(*node, lang, 0));
    }
    let mut i: usize = 0;
    while i < n
        invariant
            n == node.children@.len(),
            i <= n,
            query_views(queries@) + found_in_children(*node, lang, i as int) == query_views(
                old(queries)@,
            ) + found_in_children(*node, lang, 0),
        decreases n - i,
    {
        let ghost prev = query_views(queries@);
        let child = &node.children[i];
        let m = child.children.len();
        proof {
            assert(query_views(queries@) + try_children(node.children@[i as int], lang, 0) =~= prev
                + try_children(node.children@[i as int], lang, 0));
        }
        let mut j: usize = 0;
        while j < m
            invariant
                n == node.children@.len(),
                i < n,
                child == &node.children@[i as int],
                m == child.children@.len(),
                j <= m,
                query_views(queries@) + try_children(node.children@[i as int], lang, j as int)
                    == prev + try_children(node.children@[i as int], lang, 0),
            decreases m - j,
        {
            let ghost prevj = query_views(queries@);
            let component = &child.children[j];
            match extract_for(lang, component) {
                Some(string_content) => {
                    if !str_contains(string_content.as_str(), "REPLACE") {
                        match parse_sql_text(string_content.as_str()) {
                            Some(statements) => {
                                let line: usize = if component.row < usize::MAX {
                                    component.row + 1
                                } else {
                                    usize::MAX
                                };
                                let q = QueryInCode { line, statements };
                                proof {
                                    assert(query_views(queries@.push(q)) =~= prevj + seq![
                                        (q.line, q.statements@),
                                    ]);
                                }
                                queries.push(q);
                            },
                            None => {},
                        }
                    }
                },
                None => {},
            }
            j = j + 1;
            proof {
                assert(query_views(queries@) + try_children(
                    node.children@[i as int],
                    lang,
                    j as int,
                ) =~= prevj + (try_node(lang, node.children@[i as int].children@[j - 1])
                    + try_children(node.children@[i as int], lang, j as int)));
            }
        }
        proof {
            assert(try_children(node.children@[i as int], lang, m as int) =~= Seq::<
                (usize, Seq<SqlStatement>),
            >::empty());
            assert(query_views(queries@) =~= prev + try_children(
                node.children@[i as int],
                lang,
                0,
            ));
        }
        find_queries_in_ast(child, lang, queries);
        i = i + 1;
        proof {
            assert(query_views(queries@) + found_in_children(*node, lang, i as int) =~= prev + ((
            try_children(node.children@[i - 1], lang, 0) + found_node(
                node.children@[i - 1],
                lang,
            )) + found_in_children(*node, lang, i as int)));
        }
    }
    proof {
        assert(query_views(queries@) + found_in_children(*node, lang, n as int) =~= query_views(
            queries@,
        ));
    }
}

/// Whether every entry of a found-query list has a positive line and
/// comes from some candidate text that does not contain `REPLACE` and
/// parses to exactly its statements.
pub open spec fn clean_queries(s: Seq<(usize, Seq<SqlStatement>)>) -> bool {
    forall|k: int|
        0 <= k < s.len() ==> (#[trigger] s[k]).0 >= 1 && exists|t: Seq<char>|
            !contains_seq(t, "REPLACE"@) && parsed_sql(t) == Some(s[k].1)
}

proof fn lemma_clean_concat(a: Seq<(usize, Seq<SqlStatement>)>, b: Seq<(usize, Seq<SqlStatement>)>)
    requires
        clean_queries(a),
        clean_queries(b),
    ensures
        clean_queries(a + b),
{
    assert forall|k: int| 0 <= k < (a + b).len() implies (#[trigger] (a + b)[k]).0 >= 1 && exists|
        t: Seq<char>,
    | !contains_seq(t, "REPLACE"@) && parsed_sql(t) == Some((a + b)[k].1) by {
        if k < a.len() {
            assert((a + b)[k] == a[k]);
        } else {
            assert((a + b)[k] == b[k - a.len()]);
        }
    }
}

proof fn lemma_try_node_clean(lang: HostLanguage, node: SyntaxNode)
    ensures
        clean_queries(try_node(lang, node)),
{
}

proof fn lemma_try_children_clean(node: SyntaxNode, lang: HostLanguage, j: int)
    ensures
        clean_queries(try_children(node, lang, j)),
    decreases node.children@.len() - j,
{
    if 0 <= j < node.children@.len() {
        lemma_try_node_clean(lang, node.children@[j]);
        lemma_try_children_clean(node, lang, j + 1);
        lemma_clean_concat(
            try_node(lang, node.children@[j]),
            try_children(node, lang, j + 1),
        );
    }
}

proof fn lemma_found_in_children_clean(node: SyntaxNode, lang: HostLanguage, i: int)
    ensures
        clean_queries(found_in_children(node, lang, i)),
    decreases node, 0nat, node.children@.len() - i,
{
    if 0 <= i < node.children@.len() {
        lemma_try_children_clean(node.children@[i], lang, 0);
        lemma_found_node_clean(node.children@[i], lang);
        lemma_found_in_children_clean(node, lang, i + 1);
        lemma_clean_concat(
            try_children(node.children@[i], lang, 0),
            found_node(node.children@[i], lang),
        );
        lemma_clean_concat(
            try_children(node.children@[i], lang, 0) + found_node(node.children@[i], lang),
            found_in_children(node, lang, i + 1),
        );
    }
}

/// The extractor never emits a query whose SQL text contains `REPLACE`,
/// and every emitted line is positive: each walk result comes from a
/// candidate text without that substring, parsed to exactly the emitted
/// statements, at the 1-based line of its node.
pub proof fn lemma_found_node_clean(node: SyntaxNode, lang: HostLanguage)
    ensures
        clean_queries(found_node(node, lang)),
    decreases node, 1nat, 0nat,
{
    lemma_found_in_children_clean(node, lang, 0);
}

/// The language selected by a file extension.
pub open spec fn lang_of_ext(ext: Seq<char>) -> HostLanguage {
    if ext == "py"@ {
        HostLanguage::Python
    } else if ext == "rs"@ {
        HostLanguage::Rust
    } else {
        HostLanguage::Javascript
    }
}

/// Find every SQL query embedded in source code of the given extension.
/// The extension must be one of the supported set.
pub fn find_queries_in_code(code: &[u8], file_extension: &str) -> (r: Result<
    Vec<QueryInCode>,
    String,
>)
    requires
        file_extension@ == "py"@ || file_extension@ == "rs"@ || file_extension@ == "js"@,
    ensures
        match parsed_tree(lang_of_ext(file_extension@), code@) {
            Some(root) => r is Ok && query_views(r->Ok_0@) == found_node(
                root,
                lang_of_ext(file_extension@),
            ),
            None => r is Err && r->Err_0@ == "Could not parse code"@,
        },
{
    let lang: HostLanguage = if str_eq(file_extension, "py") {
        HostLanguage::Python
    } else if str_eq(file_extension, "rs") {
        HostLanguage::Rust
    } else {
        HostLanguage::Javascript
    };
    match parse_host_tree(lang, code) {
        Some(root) => {
            let mut queries: Vec<QueryInCode> = Vec::new();
            find_queries_in_ast(&root, lang, &mut queries);
            proof {
                assert(query_views(Seq::<QueryInCode>::empty()) + found_node(root, lang)
                    =~= found_node(root, lang));
            }
            Ok(queries)
        },
        None => Err(String::from_str("Could not parse code")),
    }
}

/// Whether a file extension selects a supported host language.
pub fn is_supported_extension(ext: &str) -> (r: bool)
    ensures
        r == (ext@ == "py"@ || ext@ == "rs"@ || ext@ == "js"@),
{
    str_eq(ext, "py") || str_eq(ext, "rs") || str_eq(ext, "js")
}

/// Whether a path ends in a supported code-file extension.
pub open spec fn spec_supported_path(path: Seq<char>) -> bool {
    path.len() >= 3 && (path.subrange(path.len() - 3, path.len() as int) == ".py"@
        || path.subrange(path.len() - 3, path.len() as int) == ".rs"@ || path.subrange(
        path.len() - 3,
        path.len() as int,
    ) == ".js"@)
}

/// Whether a file path names a supported code file, by its suffix.
pub fn is_supported_code_file(path: &str) -> (r: bool)
    ensures
        r == spec_supported_path(path@),
{
    let n = path.unicode_len();
    if n < 3 {
        return false;
    }
    let c0 = path.get_char(n - 3);
    let c1 = path.get_char(n - 2);
    let c2 = path.get_char(n - 1);
    proof {
        reveal_strlit(".py");
        reveal_strlit(".rs");
        reveal_strlit(".js");
        assert(path@.subrange(n - 3, n as int) =~= seq![c0, c1, c2]);
        assert(".py"@ =~= seq!['.', 'p', 'y']);
        assert(".rs"@ =~= seq!['.', 'r', 's']);
        assert(".js"@ =~= seq!['.', 'j', 's']);
    }
    let dotted = c0 == '.';
    let r = dotted && ((c1 == 'p' && c2 == 'y') || (c1 == 'r' && c2 == 's') || (c1 == 'j' && c2
        == 's'));
    proof {
        if r {
            assert(spec_supported_path(path@));
        } else {
            assert(!spec_supported_path(path@));
        }
    }
    r
}

} // verus!

//! Extracting candidate SQL from Rust string literals: the literal's raw
//! text with every double quote removed and `{...}` format placeholders
//! masked with `1`.

use vstd::prelude::*;

use crate::syntax::SyntaxNode;
use crate::text::{mask_braces, masked, str_eq, strip_quotes, without_quotes};

verus! {

/// The candidate a Rust node yields: for a `string_literal` node, its raw
/// text without quotes and with placeholders masked; nothing otherwise.
pub open spec fn spec_extract(node: SyntaxNode) -> Option<Seq<char>> {
    if node.kind@ == "string_literal"@ {
        Some(masked(without_quotes(node.text@)))
    } else {
        None
    }
}

/// Extract the candidate SQL text carried by a Rust syntax node.
pub fn extract_query_from_node(node: &SyntaxNode) -> (r: Option<String>)
    ensures
        match r {
            Some(s) => spec_extract(*node) == Some(s@),
            None => spec_extract(*node) is None,
        },
{
    if !str_eq(node.kind.as_str(), "string_literal") {
        return None;
    }
    let string_content_without_quotes = strip_quotes(node.text.as_str());
    let clean_string_content = mask_braces(string_content_without_quotes.as_str());
    Some(clean_string_content)
}

} // verus!

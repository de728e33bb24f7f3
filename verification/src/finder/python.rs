//! Extracting candidate SQL from Python string nodes: the contents of all
//! `string_content` children are concatenated, each f-string
//! `interpolation` contributes the literal `1`, and `{...}` format
//! placeholders are masked with `1`.

use vstd::prelude::*;

use crate::syntax::SyntaxNode;
use crate::text::{mask_braces, masked, str_eq};

verus! {

/// The concatenated fragments of a string node's children from index `i`
/// on: text of `string_content` children, `1` for each `interpolation`.
pub open spec fn fragments_from(children: Seq<SyntaxNode>, i: int) -> Seq<char>
    decreases children.len() - i,
{
    if i < 0 || i >= children.len() {
        Seq::empty()
    } else {
        let piece = if children[i].kind@ == "string_content"@ {
            children[i].text@
        } else if children[i].kind@ == "interpolation"@ {
            "1"@
        } else {
            Seq::empty()
        };
        piece + fragments_from(children, i + 1)
    }
}

/// The candidate a Python node yields: for a `string` node, its fragments
/// with placeholders masked; nothing otherwise.
pub open spec fn spec_extract(node: SyntaxNode) -> Option<Seq<char>> {
    if node.kind@ == "string"@ {
        Some(masked(fragments_from(node.children@, 0)))
    } else {
        None
    }
}

/// Extract the candidate SQL text carried by a Python syntax node.
pub fn extract_query_from_node(node: &SyntaxNode) -> (r: Option<String>)
    ensures
        match r {
            Some(s) => spec_extract(*node) == Some(s@),
            None => spec_extract(*node) is None,
        },
{
    if !str_eq(node.kind.as_str(), "string") {
        return None;
    }
    let mut content_as_string = String::new();
    let n = node.children.len();
    proof {
        assert(content_as_string@ + fragments_from(node.children@, 0) =~= fragments_from(
            node.children@,
            0,
        ));
    }
    let mut i: usize = 0;
    while i < n
        invariant
            n == node.children@.len(),
            i <= n,
            content_as_string@ + fragments_from(node.children@, i as int) == fragments_from(
                node.children@,
                0,
            ),
        decreases n - i,
    {
        let ghost prev = content_as_string@;
        let child = &node.children[i];
        if str_eq(child.kind.as_str(), "string_content") {
            content_as_string.append(child.text.as_str());
        } else if str_eq(child.kind.as_str(), "interpolation") {
            content_as_string.append("1");
        }
        i = i + 1;
        proof {
            let piece = if node.children@[i - 1].kind@ == "string_content"@ {
                node.children@[i - 1].text@
            } else if node.children@[i - 1].kind@ == "interpolation"@ {
                "1"@
            } else {
                Seq::<char>::empty()
            };
            assert(content_as_string@ =~= prev + piece);
            assert(content_as_string@ + fragments_from(node.children@, i as int) =~= prev + (piece
                + fragments_from(node.children@, i as int)));
        }
    }
    proof {
        assert(content_as_string@ + fragments_from(node.children@, n as int)
            =~= content_as_string@);
    }
    Some(mask_braces(content_as_string.as_str()))
}

} // verus!

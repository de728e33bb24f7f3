//! Extracting candidate SQL from JavaScript string and template literals:
//! the contents of all `string_fragment` children are concatenated.
//! Template substitutions are not replaced, so a candidate using them will
//! usually fail to parse and be dropped.

use vstd::prelude::*;

use crate::syntax::SyntaxNode;
use crate::text::str_eq;

verus! {

/// The concatenated `string_fragment` children from index `i` on.
pub open spec fn fragments_from(children: Seq<SyntaxNode>, i: int) -> Seq<char>
    decreases children.len() - i,
{
    if i < 0 || i >= children.len() {
        Seq::empty()
    } else {
        let piece = if children[i].kind@ == "string_fragment"@ {
            children[i].text@
        } else {
            Seq::empty()
        };
        piece + fragments_from(children, i + 1)
    }
}

/// The candidate a JavaScript node yields: for a `string` or
/// `template_string` node, its concatenated fragments; nothing otherwise.
pub open spec fn spec_extract(node: SyntaxNode) -> Option<Seq<char>> {
    if node.kind@ == "string"@ || node.kind@ == "template_string"@ {
        Some(fragments_from(node.children@, 0))
    } else {
        None
    }
}

/// Extract the candidate SQL text carried by a JavaScript syntax node.
pub fn extract_query_from_node(node: &SyntaxNode) -> (r: Option<String>)
    ensures
        match r {
            Some(s) => spec_extract(*node) == Some(s@),
            None => spec_extract(*node) is None,
        },
{
    if !str_eq(node.kind.as_str(), "string") && !str_eq(node.kind.as_str(), "template_string") {
        return None;
    }
    let mut content_as_string = String::new();
    let n = node.children.len();
    proof {
        assert(content_as_string@ + fragments_from(node.children@, 0) =~= fragments_from(
            node.children@,
            0,
        ));
    }
    let mut i: usize = 0;
    while i < n
        invariant
            n == node.children@.len(),
            i <= n,
            content_as_string@ + fragments_from(node.children@, i as int) == fragments_from(
                node.children@,
                0,
            ),
        decreases n - i,
    {
        let ghost prev = content_as_string@;
        let child = &node.children[i];
        if str_eq(child.kind.as_str(), "string_fragment") {
            content_as_string.append(child.text.as_str());
        }
        i = i + 1;
        proof {
            let piece = if node.children@[i - 1].kind@ == "string_fragment"@ {
                node.children@[i - 1].text@
            } else {
                Seq::<char>::empty()
            };
            assert(content_as_string@ =~= prev + piece);
            assert(content_as_string@ + fragments_from(node.children@, i as int) =~= prev + (piece
                + fragments_from(node.children@, i as int)));
        }
    }
    proof {
        assert(content_as_string@ + fragments_from(node.children@, n as int)
            =~= content_as_string@);
    }
    Some(content_as_string)
}

} // verus!

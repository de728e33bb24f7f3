//! The model of a host-language syntax tree, and the trusted bridge to the
//! external tree-sitter parser that produces it.

use vstd::prelude::*;

verus! {

/// One node of a host-language syntax tree: its grammar kind, the source
/// text it spans, the 0-based row of its first byte, and its children in
/// syntactic order.
pub struct SyntaxNode {
    pub kind: String,
    pub text: String,
    pub row: usize,
    pub children: Vec<SyntaxNode>,
}

/// The host languages whose string literals are searched for SQL.
#[derive(Clone, Copy, PartialEq, Eq, Structural)]
pub enum HostLanguage {
    Python,
    Rust,
    Javascript,
}

/// What tree-sitter's `Parser::parse` returns for a grammar and source
/// bytes, as a function of both alone: the model of the syntax tree, or
/// nothing when no tree is produced.
pub uninterp spec fn parsed_tree(lang: HostLanguage, code: Seq<u8>) -> Option<SyntaxNode>;

#[verifier::external_type_specification]
#[verifier::external_body]
pub struct ExNode<'a>(tree_sitter::Node<'a>);

/// Relies on `tree_sitter::Parser::parse` with the grammar for `lang`:
/// parsing is a pure function of grammar and bytes.
#[verifier::external_body]
pub(crate) fn parse_host_tree(lang: HostLanguage, code: &[u8]) -> (r: Option<SyntaxNode>)
    ensures
        r == parsed_tree(lang, code@),
{
    let language: tree_sitter::Language = match lang {
        HostLanguage::Python => tree_sitter_python::LANGUAGE.into(),
        HostLanguage::Rust => tree_sitter_rust::LANGUAGE.into(),
        HostLanguage::Javascript => tree_sitter_javascript::LANGUAGE.into(),
    };
    let mut parser = tree_sitter::Parser::new();
    if parser.set_language(&language).is_err() {
        return None;
    }
    match parser.parse(code, None) {
        Some(tree) => Some(convert_node(&tree.root_node(), code)),
        None => None,
    }
}

/// Carries a `tree_sitter::Node` over: kind, spanned text decoded
/// lossily, starting row, and children in order.
#[verifier::external_body]
fn convert_node<'a>(node: &tree_sitter::Node<'a>, code: &[u8]) -> SyntaxNode {
    let mut children = Vec::new();
    let mut i: u32 = 0;
    while i < node.child_count() {
        if let Some(c) = node.child(i) {
            children.push(convert_node(&c, code));
        }
        i += 1;
    }
    let span = code.get(node.start_byte()..node.end_byte()).unwrap_or(&[]);
    SyntaxNode {
        kind: node.kind().to_string(),
        text: String::from_utf8_lossy(span).to_string(),
        row: node.start_position().row,
        children,
    }
}

} // verus!

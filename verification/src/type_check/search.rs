//! Finding a function declaration by its name.

use vstd::prelude::*;
use crate::ast::{nodes_view, DataView, ExtraNodeData, FunctionDeclNode, Node, NodeView};
use crate::text::str_eq;

verus! {

/// Whether a node is a function declaration of the given name.
pub open spec fn is_function_named(node: NodeView, name: Seq<char>) -> bool {
    node matches NodeView::FunctionDecl(decl) && decl.value == DataView::String(name)
}

/// The position at or after `from` of the first function declaration of
/// the given name.
pub open spec fn find_function(nodes: Seq<NodeView>, name: Seq<char>, from: int) -> Option<int>
    decreases nodes.len() - from,
{
    if from < 0 || from >= nodes.len() {
        None
    } else if is_function_named(nodes[from], name) {
        Some(from)
    } else {
        find_function(nodes, name, from + 1)
    }
}

/// What `find_function` finds is a function of that name with none
/// before it; where it finds nothing, there is none.
pub proof fn lemma_find_function(nodes: Seq<NodeView>, name: Seq<char>, from: int)
    requires
        0 <= from,
    ensures
        match find_function(nodes, name, from) {
            Some(at) => {
                &&& from <= at < nodes.len()
                &&& is_function_named(nodes[at], name)
                &&& forall|i: int| from <= i < at ==> !is_function_named(#[trigger] nodes[i], name)
            },
            None => forall|i: int|
                from <= i < nodes.len() ==> !is_function_named(#[trigger] nodes[i], name),
        },
    decreases nodes.len() - from,
{
    if from < nodes.len() && !is_function_named(nodes[from], name) {
        lemma_find_function(nodes, name, from + 1);
    }
}

/// Whether a node is a function declaration of the given name.
pub fn has_name(node: &Node, name: &str) -> (found: bool)
    ensures
        found == is_function_named(node@, name@),
{
    match node {
        Node::FunctionDecl(decl) => match &decl.value {
            ExtraNodeData::String(text) => str_eq(text.as_str(), name),
            _ => false,
        },
        _ => false,
    }
}

/// The position of the first function declaration of the given name.
pub fn position_of_function(name: &str, tree: &Vec<Node>) -> (found: Option<usize>)
    ensures
        match found {
            Some(at) => find_function(nodes_view(tree@), name@, 0) == Some(at as int),
            None => find_function(nodes_view(tree@), name@, 0) is None,
        },
{
    let mut i: usize = 0;
    while i < tree.len()
        invariant
            i <= tree@.len(),
            find_function(nodes_view(tree@), name@, 0) == find_function(
                nodes_view(tree@),
                name@,
                i as int,
            ),
        decreases tree@.len() - i,
    {
        if has_name(&tree[i], name) {
            return Some(i);
        }
        i += 1;
    }
    None
}

/// The first function declaration of the given name among the nodes.
pub fn func_with_name(name: &str, tree: Vec<Node>) -> (found: Option<FunctionDeclNode>)
    ensures
        match found {
            Some(decl) => {
                &&& find_function(nodes_view(tree@), name@, 0) matches Some(at)
                &&& nodes_view(tree@)[at] == NodeView::FunctionDecl(decl@)
            },
            None => find_function(nodes_view(tree@), name@, 0) is None,
        },
{
    let mut tree = tree;
    match position_of_function(name, &tree) {
        None => None,
        Some(at) => {
            proof {
                lemma_find_function(nodes_view(tree@), name@, 0);
            }
            match tree.remove(at) {
                Node::FunctionDecl(decl) => Some(decl),
                _ => None,
            }
        },
    }
}

} // verus!

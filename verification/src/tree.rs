//! The document wrapper: a tree owns a single root node and renders the
//! whole DTS document, version directive included.

use crate::node::node_depth;
use crate::node::node_text;
use crate::node::Node;
use vstd::prelude::*;

verus! {

/// A complete device tree: one root node, conventionally the node with
/// the empty name, which renders as `/`.
pub struct Tree {
    /// The root node; the tree owns the whole node graph under it.
    pub root: Node,
}

/// The full DTS document of tree `t` with the root block at depth `d`:
/// the `/dts-v1/;` directive, a blank line, then the root node's block.
/// The block's own closing line supplies the trailing line break.
pub open spec fn tree_text(t: Tree, d: nat) -> Seq<char> {
    "/dts-v1/;\n"@ + "\n"@ + node_text(t.root, d)
}

/// Rendering has no hidden state: `to_dts` pins its result to
/// `tree_text(*self, indent)`, a pure function of the tree, so any two
/// renders of an unmodified tree yield identical text.
pub proof fn lemma_render_idempotent(t: Tree, d: nat, r1: Seq<char>, r2: Seq<char>)
    requires
        r1 == tree_text(t, d),
        r2 == tree_text(t, d),
    ensures
        r1 == r2,
{
}

impl Tree {
    /// Wraps a fully or partially built root node; the tree takes
    /// ownership and adds no mutation API of its own.
    pub fn new(root: Node) -> (t: Tree)
        ensures
            t.root == root,
    {
        Tree { root }
    }

    /// Renders the whole document with the root block at the given
    /// indentation level (callers normally pass zero). The text is
    /// exactly `tree_text(*self, indent)`, so equal trees always render
    /// to byte-identical documents.
    pub fn to_dts(&self, indent: usize) -> (r: String)
        requires
            indent + node_depth(self.root) <= usize::MAX,
        ensures
            r@ == tree_text(*self, indent as nat),
    {
        let mut s = String::new();
        s.append("/dts-v1/;\n");
        s.append("\n");
        let block = self.root.to_dts(indent);
        s.append(block.as_str());
        proof {
            assert(s@ =~= tree_text(*self, indent as nat));
        }
        s
    }
}

} // verus!

//! Device-tree nodes: a name, an ordered attribute list, an ordered child
//! list, and the recursive rendering of a node as an indented DTS block.

use crate::attribute::attr_fragment;
use crate::attribute::Attribute;
use vstd::prelude::*;

verus! {

/// One node of the device tree.
///
/// Attributes and children are emitted in insertion order, and a node's
/// own attributes always come before any child block. The name may be
/// empty only for the root node, which renders as `/`.
pub struct Node {
    /// The node name; an empty name stands for the root and renders as
    /// `/`.
    pub name: String,
    /// The node's properties, in insertion order.
    pub attributes: Vec<Attribute>,
    /// The node's children, in insertion order.
    pub sub_nodes: Vec<Node>,
}

/// `d` tab characters: the indentation of a line at nesting depth `d`.
pub open spec fn indent_text(d: nat) -> Seq<char>
    decreases d,
{
    if d == 0 {
        Seq::<char>::empty()
    } else {
        indent_text((d - 1) as nat) + "\t"@
    }
}

/// The name as it appears in a node header: `/` when the name is empty
/// (the anonymous root), the name itself otherwise.
pub open spec fn name_text(name: Seq<char>) -> Seq<char> {
    if name.len() == 0 {
        "/"@
    } else {
        name
    }
}

/// The opening line of a node block at depth `d`: indentation, the
/// header name, then ` {` and a line break.
pub open spec fn node_header_text(n: Node, d: nat) -> Seq<char> {
    indent_text(d) + name_text(n.name@) + " {\n"@
}

/// The closing line of a node block at depth `d`: indentation, then
/// `};` and a line break.
pub open spec fn node_close_text(d: nat) -> Seq<char> {
    indent_text(d) + "};\n"@
}

/// The attribute lines of the first `i` attributes of `attrs`, each
/// indented to depth `d` and ended by a line break, in order.
pub open spec fn attr_lines_text(attrs: Seq<Attribute>, i: int, d: nat) -> Seq<char>
    decreases i,
{
    if i <= 0 {
        Seq::<char>::empty()
    } else {
        attr_lines_text(attrs, i - 1, d) + indent_text(d) + attr_fragment(attrs[i - 1]) + "\n"@
    }
}

/// The concatenated blocks of the first `i` nodes of `subs`, each
/// rendered in full at depth `d`, in order: a child's entire block,
/// grandchildren included, stands before the next sibling's.
pub open spec fn subs_text(subs: Seq<Node>, i: int, d: nat) -> Seq<char>
    decreases subs, i,
{
    if i <= 0 || i > subs.len() {
        Seq::<char>::empty()
    } else {
        subs_text(subs, i - 1, d) + node_text(subs[i - 1], d)
    }
}

/// The full DTS block of node `n` at depth `d`: the header line, the
/// attribute lines one level deeper, the child blocks one level deeper,
/// and the closing line.
pub open spec fn node_text(n: Node, d: nat) -> Seq<char>
    decreases n, 0int,
{
    node_header_text(n, d) + attr_lines_text(n.attributes@, n.attributes@.len() as int, d + 1)
        + subs_text(n.sub_nodes@, n.sub_nodes@.len() as int, d + 1) + node_close_text(d)
}

/// The depth of the deepest node among the first `i` of `subs`, counted
/// in nodes; zero when there are none.
pub open spec fn subs_depth(subs: Seq<Node>, i: int) -> nat
    decreases subs, i,
{
    if i <= 0 || i > subs.len() {
        0
    } else {
        let rest = subs_depth(subs, i - 1);
        let here = node_depth(subs[i - 1]);
        if rest < here {
            here
        } else {
            rest
        }
    }
}

/// The depth of the tree under `n`, counted in nodes: one for `n` plus
/// the deepest child. Rendering `n` at indentation level `k` never
/// indents a line past level `k + node_depth(n)`.
pub open spec fn node_depth(n: Node) -> nat
    decreases n, 0int,
{
    1 + subs_depth(n.sub_nodes@, n.sub_nodes@.len() as int)
}

/// Every child counted by `subs_depth` is at most that deep.
pub proof fn lemma_subs_depth_bound(subs: Seq<Node>, i: int, j: int)
    requires
        0 <= i < j <= subs.len(),
    ensures
        node_depth(subs[i]) <= subs_depth(subs, j),
    decreases j,
{
    if i < j - 1 {
        lemma_subs_depth_bound(subs, i, j - 1);
    }
}

/// A node with no attributes and no children renders, at depth zero, to
/// exactly its header line followed by the closing line: no attribute
/// lines and no child blocks appear.
pub proof fn lemma_render_empty_node(n: Node)
    requires
        n.attributes@.len() == 0,
        n.sub_nodes@.len() == 0,
    ensures
        node_text(n, 0) == name_text(n.name@) + " {\n"@ + "};\n"@,
{
    assert(node_text(n, 0) =~= name_text(n.name@) + " {\n"@ + "};\n"@);
}

/// The first `i` attribute lines do not depend on attributes beyond `i`:
/// two attribute sequences that agree on their first `i` entries render
/// the same first `i` lines.
pub proof fn lemma_attr_lines_agree(attrs1: Seq<Attribute>, attrs2: Seq<Attribute>, i: int, d: nat)
    requires
        0 <= i,
        forall|k: int| 0 <= k < i ==> attrs1[k] == attrs2[k],
    ensures
        attr_lines_text(attrs1, i, d) == attr_lines_text(attrs2, i, d),
    decreases i,
{
    if i > 0 {
        lemma_attr_lines_agree(attrs1, attrs2, i - 1, d);
    }
}

/// Appending an attribute appends exactly that attribute's line after
/// all existing lines: the rendered fragment order is the insertion
/// order.
pub proof fn lemma_attr_lines_push(attrs: Seq<Attribute>, a: Attribute, d: nat)
    ensures
        attr_lines_text(attrs.push(a), attrs.len() as int + 1, d) == attr_lines_text(
            attrs,
            attrs.len() as int,
            d,
        ) + indent_text(d) + attr_fragment(a) + "\n"@,
{
    lemma_attr_lines_agree(attrs.push(a), attrs, attrs.len() as int, d);
}

/// The first `i` child blocks do not depend on children beyond `i`: two
/// child sequences that agree on their first `i` entries render the same
/// first `i` blocks.
pub proof fn lemma_subs_agree(subs1: Seq<Node>, subs2: Seq<Node>, i: int, d: nat)
    requires
        0 <= i <= subs1.len(),
        i <= subs2.len(),
        forall|k: int| 0 <= k < i ==> subs1[k] == subs2[k],
    ensures
        subs_text(subs1, i, d) == subs_text(subs2, i, d),
    decreases i,
{
    if i > 0 {
        lemma_subs_agree(subs1, subs2, i - 1, d);
    }
}

/// Appending a child appends exactly that child's complete block, its
/// own children included, after all existing blocks: child blocks
/// appear in insertion order, each closed before the next begins.
pub proof fn lemma_subs_push(subs: Seq<Node>, c: Node, d: nat)
    ensures
        subs_text(subs.push(c), subs.len() as int + 1, d) == subs_text(
            subs,
            subs.len() as int,
            d,
        ) + node_text(c, d),
{
    lemma_subs_agree(subs.push(c), subs, subs.len() as int, d);
    assert(subs.push(c)[subs.len() as int] == c);
}

/// The effect of `add_attr` on the rendered block: the node with `a`
/// appended renders as before, except that `a`'s line stands after the
/// existing attribute lines and before the child blocks.
pub proof fn lemma_add_attr_render(n1: Node, n2: Node, a: Attribute, d: nat)
    requires
        n2.name@ == n1.name@,
        n2.attributes@ == n1.attributes@.push(a),
        n2.sub_nodes@ == n1.sub_nodes@,
    ensures
        node_text(n2, d) == node_header_text(n1, d) + (attr_lines_text(
            n1.attributes@,
            n1.attributes@.len() as int,
            d + 1,
        ) + indent_text(d + 1) + attr_fragment(a) + "\n"@) + subs_text(
            n1.sub_nodes@,
            n1.sub_nodes@.len() as int,
            d + 1,
        ) + node_close_text(d),
{
    lemma_attr_lines_push(n1.attributes@, a, d + 1);
    assert(node_text(n2, d) =~= node_header_text(n1, d) + (attr_lines_text(
        n1.attributes@,
        n1.attributes@.len() as int,
        d + 1,
    ) + indent_text(d + 1) + attr_fragment(a) + "\n"@) + subs_text(
        n1.sub_nodes@,
        n1.sub_nodes@.len() as int,
        d + 1,
    ) + node_close_text(d));
}

/// The effect of `add_sub_node` on the rendered block: the node with
/// child `c` appended renders as before, except that `c`'s complete
/// block stands after the existing child blocks, just before the
/// closing line.
pub proof fn lemma_add_sub_node_render(n1: Node, n2: Node, c: Node, d: nat)
    requires
        n2.name@ == n1.name@,
        n2.attributes@ == n1.attributes@,
        n2.sub_nodes@ == n1.sub_nodes@.push(c),
    ensures
        node_text(n2, d) == node_header_text(n1, d) + attr_lines_text(
            n1.attributes@,
            n1.attributes@.len() as int,
            d + 1,
        ) + (subs_text(n1.sub_nodes@, n1.sub_nodes@.len() as int, d + 1) + node_text(c, d + 1))
            + node_close_text(d),
{
    lemma_subs_push(n1.sub_nodes@, c, d + 1);
    lemma_attr_lines_agree(n2.attributes@, n1.attributes@, n1.attributes@.len() as int, d + 1);
    assert(node_text(n2, d) =~= node_header_text(n1, d) + attr_lines_text(
        n1.attributes@,
        n1.attributes@.len() as int,
        d + 1,
    ) + (subs_text(n1.sub_nodes@, n1.sub_nodes@.len() as int, d + 1) + node_text(c, d + 1))
        + node_close_text(d));
}

/// Appends `d` tab characters to `s`.
fn push_indent(s: &mut String, d: usize)
    ensures
        final(s)@ == old(s)@ + indent_text(d as nat),
{
    let mut k: usize = 0;
    while k < d
        invariant
            k <= d,
            s@ == old(s)@ + indent_text(k as nat),
        decreases d - k,
    {
        s.append("\t");
        k = k + 1;
        proof {
            assert(s@ =~= old(s)@ + indent_text(k as nat));
        }
    }
}

impl Node {
    /// Builds an empty node with the given name. An empty name is the
    /// convention for the root node.
    pub fn new(name: &str) -> (n: Node)
        ensures
            n.name@ == name@,
            n.attributes@.len() == 0,
            n.sub_nodes@.len() == 0,
    {
        Node { name: name.to_owned(), attributes: Vec::new(), sub_nodes: Vec::new() }
    }

    /// Appends an attribute. Nothing else changes: the attributes
    /// already present keep their places, so emission order is insertion
    /// order. Duplicate names are allowed and all emitted.
    pub fn add_attr(&mut self, attr: Attribute)
        ensures
            final(self).name == old(self).name,
            final(self).attributes@ == old(self).attributes@.push(attr),
            final(self).sub_nodes == old(self).sub_nodes,
    {
        self.attributes.push(attr);
    }

    /// Appends a child node, taking ownership of it. Nothing else
    /// changes: earlier children keep their places, so child blocks are
    /// emitted in insertion order.
    pub fn add_sub_node(&mut self, sub_node: Node)
        ensures
            final(self).name == old(self).name,
            final(self).attributes == old(self).attributes,
            final(self).sub_nodes@ == old(self).sub_nodes@.push(sub_node),
    {
        self.sub_nodes.push(sub_node);
    }

    /// Renders this node's full DTS block at the given indentation
    /// level: the header line, one line per attribute one level deeper,
    /// each child block one level deeper, and the closing `};` line.
    /// The text is exactly `node_text(*self, indent)`.
    pub fn to_dts(&self, indent: usize) -> (r: String)
        requires
            indent + node_depth(*self) <= usize::MAX,
        ensures
            r@ == node_text(*self, indent as nat),
        decreases *self,
    {
        let mut s = String::new();
        push_indent(&mut s, indent);
        if self.name.as_str().is_empty() {
            s.append("/");
        } else {
            s.append(self.name.as_str());
        }
        s.append(" {\n");
        proof {
            assert(s@ =~= node_header_text(*self, indent as nat));
        }
        let deeper: usize = indent + 1;
        let mut i: usize = 0;
        while i < self.attributes.len()
            invariant
                i <= self.attributes.len(),
                deeper == indent + 1,
                s@ == node_header_text(*self, indent as nat) + attr_lines_text(
                    self.attributes@,
                    i as int,
                    deeper as nat,
                ),
            decreases self.attributes.len() - i,
        {
            push_indent(&mut s, deeper);
            let frag = self.attributes[i].to_dts();
            s.append(frag.as_str());
            s.append("\n");
            i = i + 1;
            proof {
                assert(s@ =~= node_header_text(*self, indent as nat) + attr_lines_text(
                    self.attributes@,
                    i as int,
                    deeper as nat,
                ));
            }
        }
        let ghost head = s@;
        let mut j: usize = 0;
        while j < self.sub_nodes.len()
            invariant
                j <= self.sub_nodes.len(),
                deeper == indent + 1,
                indent + node_depth(*self) <= usize::MAX,
                head == node_header_text(*self, indent as nat) + attr_lines_text(
                    self.attributes@,
                    self.attributes@.len() as int,
                    deeper as nat,
                ),
                s@ == head + subs_text(self.sub_nodes@, j as int, deeper as nat),
            decreases self.sub_nodes.len() - j,
        {
            proof {
                lemma_subs_depth_bound(self.sub_nodes@, j as int, self.sub_nodes@.len() as int);
            }
            let block = self.sub_nodes[j].to_dts(deeper);
            s.append(block.as_str());
            j = j + 1;
            proof {
                assert(s@ =~= head + subs_text(self.sub_nodes@, j as int, deeper as nat));
            }
        }
        push_indent(&mut s, indent);
        s.append("};\n");
        proof {
            assert(s@ =~= node_text(*self, indent as nat));
        }
        s
    }
}

} // verus!

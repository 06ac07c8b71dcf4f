//! Building the terminal tree from the document tree and the fragment metadata.

use vstd::prelude::*;

use rustc_hash::FxHashMap;

use crate::dom::{LayoutSourceNode, classify_node, spec_classify_node};
use crate::fragments::{
    FragmentMetadata, FragmentSummary, FragmentVisit, collect_fragment_metadata_from_roots,
    fx_map_get, metadata_view, spec_collect_fragment_metadata, visits_valid,
};
use crate::geometry::AppUnitRect;
use crate::terminal::{TerminalCssProperties, TerminalNodeKind};

verus! {

/// A node of the terminal tree.
#[derive(Debug, PartialEq)]
pub struct TerminalLayoutNode {
    pub kind: TerminalNodeKind,
    /// The absolute rectangles of the node's fragments, in app units and in traversal
    /// order, if layout produced any. The node's rectangle is the union of their binary32
    /// CSS-pixel conversions, taken from the first onwards where the tree reaches a front
    /// end.
    pub fragment_rects: Option<Vec<AppUnitRect>>,
    pub style: Option<TerminalCssProperties>,
    pub children: Vec<TerminalLayoutNode>,
}

/// The mathematical value of a terminal tree.
pub struct TerminalTree {
    pub kind: TerminalNodeKind,
    pub fragment_rects: Option<Seq<AppUnitRect>>,
    pub style: Option<TerminalCssProperties>,
    pub children: Seq<TerminalTree>,
}

/// The value of a terminal tree node.
pub open spec fn tree_view(node: TerminalLayoutNode) -> TerminalTree
    decreases node,
{
    TerminalTree {
        kind: node.kind,
        fragment_rects: match node.fragment_rects {
            Some(rects) => Some(rects@),
            None => None,
        },
        style: node.style,
        children: trees_view(node.children@),
    }
}

/// The values of a sequence of terminal tree nodes.
pub open spec fn trees_view(nodes: Seq<TerminalLayoutNode>) -> Seq<TerminalTree>
    decreases nodes,
{
    if nodes.len() == 0 {
        Seq::empty()
    } else {
        let last = nodes.len() - 1;
        trees_view(nodes.subrange(0, last)).push(tree_view(nodes[last]))
    }
}

/// The value of an optional terminal tree node.
pub open spec fn option_tree_view(node: Option<TerminalLayoutNode>) -> Option<TerminalTree> {
    match node {
        Some(n) => Some(tree_view(n)),
        None => None,
    }
}

/// The trees built from a sequence of sibling nodes, in order, skipping those that
/// give none.
pub open spec fn spec_build_children(
    children: Seq<LayoutSourceNode>,
    metadata: Map<usize, FragmentSummary>,
) -> Seq<TerminalTree>
    decreases children,
{
    if children.len() == 0 {
        Seq::empty()
    } else {
        let last = children.len() - 1;
        let before = spec_build_children(children.subrange(0, last), metadata);
        match spec_build_node(children[last], metadata) {
            Some(tree) => before.push(tree),
            None => before,
        }
    }
}

/// The terminal tree of a document node. A node with neither metadata nor kept children
/// is dropped unless it is the document; every other node is kept with its kind, its
/// metadata's fragment rectangles and style (if it has metadata) and its kept children.
pub open spec fn spec_build_node(
    node: LayoutSourceNode,
    metadata: Map<usize, FragmentSummary>,
) -> Option<TerminalTree>
    decreases node,
{
    let children = spec_build_children(node.children@, metadata);
    let kind = spec_classify_node(node);
    let has_metadata = metadata.contains_key(node.opaque_id);
    if !has_metadata && children.len() == 0 {
        match kind {
            TerminalNodeKind::Document => Some(
                TerminalTree { kind, fragment_rects: None, style: None, children },
            ),
            _ => None,
        }
    } else {
        Some(
            TerminalTree {
                kind,
                fragment_rects: if has_metadata { Some(metadata[node.opaque_id].rects) } else { None },
                style: if has_metadata { Some(metadata[node.opaque_id].style) } else { None },
                children,
            },
        )
    }
}

/// Builds the terminal tree of `node`, attaching to each node the metadata stored under
/// its opaque id (its fragments' rectangles and its style).
pub fn build_terminal_layout_node(
    node: &LayoutSourceNode,
    metadata: &FxHashMap<usize, FragmentMetadata>,
) -> (result: Option<TerminalLayoutNode>)
    ensures
        option_tree_view(result) == spec_build_node(*node, metadata_view(metadata@)),
    decreases node,
{
    let mut children: Vec<TerminalLayoutNode> = Vec::new();
    let mut i: usize = 0;
    while i < node.children.len()
        invariant
            i <= node.children@.len(),
            trees_view(children@) == spec_build_children(node.children@.subrange(0, i as int), metadata_view(metadata@)),
        decreases node.children.len() - i,
    {
        proof {
            assert(node.children@.subrange(0, i + 1).subrange(0, i as int) =~= node.children@.subrange(0, i as int));
            assert(node.children@.subrange(0, i + 1)[i as int] == node.children@[i as int]);
        }
        let built = build_terminal_layout_node(&node.children[i], metadata);
        if let Some(child) = built {
            let ghost before = children@;
            children.push(child);
            proof {
                assert(children@.subrange(0, children@.len() - 1) =~= before);
            }
        }
        i = i + 1;
    }
    proof {
        assert(node.children@.subrange(0, node.children@.len() as int) =~= node.children@);
    }

    let entry = fx_map_get(metadata, node.opaque_id);
    let kind = classify_node(node);

    if entry.is_none() && children.len() == 0 {
        return match kind {
            TerminalNodeKind::Text(ref text) if !text.as_str().is_empty() => None,
            TerminalNodeKind::Document => Some(TerminalLayoutNode {
                kind,
                fragment_rects: None,
                style: None,
                children,
            }),
            _ => None,
        };
    }

    let (fragment_rects, style) = match entry {
        Some(entry) => {
            let rects = copy_rects(&entry.rects);
            (Some(rects), Some(entry.style))
        },
        None => (None, None),
    };
    Some(TerminalLayoutNode { kind, fragment_rects, style, children })
}

/// A copy of a list of rectangles.
fn copy_rects(rects: &Vec<AppUnitRect>) -> (result: Vec<AppUnitRect>)
    ensures
        result@ == rects@,
{
    let mut result: Vec<AppUnitRect> = Vec::new();
    let mut i: usize = 0;
    while i < rects.len()
        invariant
            i <= rects@.len(),
            result@ == rects@.subrange(0, i as int),
        decreases rects.len() - i,
    {
        result.push(rects[i]);
        i = i + 1;
        proof {
            assert(result@ =~= rects@.subrange(0, i as int));
        }
    }
    proof {
        assert(rects@.subrange(0, rects@.len() as int) =~= rects@);
    }
    result
}

/// Builds the terminal tree of a document: gathers the metadata of the fragments that
/// layout produced (`visits`, the fragments reached from the root fragments in traversal
/// order, with their containing blocks) and attaches it to the nodes of `root`'s tree.
pub fn build_terminal_layout_tree(
    root: &LayoutSourceNode,
    visits: &[FragmentVisit],
) -> (result: Option<TerminalLayoutNode>)
    requires
        visits_valid(visits@),
    ensures
        option_tree_view(result) == spec_build_node(*root, spec_collect_fragment_metadata(visits@)),
{
    let metadata = collect_fragment_metadata_from_roots(visits);
    build_terminal_layout_node(root, &metadata)
}

} // verus!

verus! {

/// No node of the tree lacks both fragments and kept children unless it is the
/// document, and every node has fragment rectangles exactly when it has a style.
pub open spec fn is_pruned(tree: TerminalTree) -> bool
    decreases tree,
{
    &&& (tree.kind is Document || tree.fragment_rects is Some || tree.children.len() > 0)
    &&& (tree.fragment_rects is Some <==> tree.style is Some)
    &&& forall|i: int| 0 <= i < tree.children.len() ==> is_pruned(#[trigger] tree.children[i])
}

proof fn lemma_children_pruned(children: Seq<LayoutSourceNode>, metadata: Map<usize, FragmentSummary>)
    ensures
        forall|i: int| 0 <= i < spec_build_children(children, metadata).len()
            ==> is_pruned(#[trigger] spec_build_children(children, metadata)[i]),
    decreases children,
{
    if children.len() > 0 {
        let last = children.len() - 1;
        let before = spec_build_children(children.subrange(0, last), metadata);
        lemma_children_pruned(children.subrange(0, last), metadata);
        law_built_tree_is_pruned(children[last], metadata);
        let built = spec_build_children(children, metadata);
        assert forall|i: int| 0 <= i < built.len() implies is_pruned(#[trigger] built[i]) by {
            if i < before.len() {
                assert(built[i] == before[i]);
            }
        }
    }
}

/// Law: every tree the bridge builds is pruned: each node other than a document has
/// fragments or kept children, and a node has fragment rectangles exactly when it has a
/// style.
pub proof fn law_built_tree_is_pruned(node: LayoutSourceNode, metadata: Map<usize, FragmentSummary>)
    ensures
        spec_build_node(node, metadata) matches Some(tree) ==> is_pruned(tree),
    decreases node,
{
    lemma_children_pruned(node.children@, metadata);
    if let Some(tree) = spec_build_node(node, metadata) {
        let children = spec_build_children(node.children@, metadata);
        assert(tree.children == children);
        assert forall|i: int| 0 <= i < tree.children.len() implies is_pruned(#[trigger] tree.children[i]) by {
            assert(children[i] == tree.children[i]);
        }
    }
}

/// Law: the document node is always kept, whatever layout produced.
pub proof fn law_document_is_kept(node: LayoutSourceNode, metadata: Map<usize, FragmentSummary>)
    requires
        node.type_id is None,
    ensures
        spec_build_node(node, metadata) is Some,
{
}

/// Law: a node for which layout produced fragments is kept, with the fragment rectangles
/// and style gathered for it.
pub proof fn law_node_with_fragments_is_kept(node: LayoutSourceNode, metadata: Map<usize, FragmentSummary>)
    requires
        metadata.contains_key(node.opaque_id),
    ensures
        spec_build_node(node, metadata) matches Some(tree) && tree.fragment_rects == Some(metadata[node.opaque_id].rects)
            && tree.style == Some(metadata[node.opaque_id].style),
{
}

/// How many of the sibling nodes give a tree of their own.
pub open spec fn kept_count(children: Seq<LayoutSourceNode>, metadata: Map<usize, FragmentSummary>) -> nat
    decreases children.len(),
{
    if children.len() == 0 {
        0
    } else {
        kept_count(children.drop_last(), metadata) + if spec_build_node(children.last(), metadata) is Some {
            1nat
        } else {
            0nat
        }
    }
}

proof fn lemma_children_positions(children: Seq<LayoutSourceNode>, metadata: Map<usize, FragmentSummary>)
    ensures
        spec_build_children(children, metadata).len() == kept_count(children, metadata),
        forall|i: int| 0 <= i < children.len() && (#[trigger] spec_build_node(children[i], metadata)) is Some ==> {
            let position = kept_count(children.subrange(0, i), metadata);
            &&& position < spec_build_children(children, metadata).len()
            &&& spec_build_children(children, metadata)[position as int]
                == spec_build_node(children[i], metadata).unwrap()
        },
    decreases children.len(),
{
    if children.len() > 0 {
        let last = children.len() - 1;
        let before = children.subrange(0, last);
        assert(before =~= children.drop_last());
        lemma_children_positions(before, metadata);
        let built = spec_build_children(children, metadata);
        let built_before = spec_build_children(before, metadata);
        assert forall|i: int| 0 <= i < children.len() && (#[trigger] spec_build_node(children[i], metadata)) is Some
            implies {
            let position = kept_count(children.subrange(0, i), metadata);
            &&& position < built.len()
            &&& built[position as int] == spec_build_node(children[i], metadata).unwrap()
        } by {
            if i < last {
                assert(children.subrange(0, i) =~= before.subrange(0, i));
                assert(before[i] == children[i]);
            } else {
                assert(children.subrange(0, i) =~= before);
            }
        }
    }
}

/// Law: the children of a built node are exactly the trees of its document children that
/// are kept, in document order: there are as many as there are kept document children,
/// and the tree of every kept document child sits at the position given by the number of
/// kept document children before it.
pub proof fn law_kept_children_appear_in_order(node: LayoutSourceNode, metadata: Map<usize, FragmentSummary>)
    ensures
        spec_build_node(node, metadata) matches Some(tree) ==> {
            &&& tree.children.len() == kept_count(node.children@, metadata)
            &&& forall|i: int| 0 <= i < node.children@.len()
                && (#[trigger] spec_build_node(node.children@[i], metadata)) is Some ==> {
                let position = kept_count(node.children@.subrange(0, i), metadata);
                &&& position < tree.children.len()
                &&& tree.children[position as int] == spec_build_node(node.children@[i], metadata).unwrap()
            }
        },
{
    lemma_children_positions(node.children@, metadata);
}

/// Law: a node is dropped exactly when it has no fragments, none of its document children
/// is kept, and it is not the document.
pub proof fn law_dropped_nodes(node: LayoutSourceNode, metadata: Map<usize, FragmentSummary>)
    ensures
        spec_build_node(node, metadata) is None <==> (!metadata.contains_key(node.opaque_id)
            && kept_count(node.children@, metadata) == 0 && node.type_id is Some),
{
    lemma_children_positions(node.children@, metadata);
}

} // verus!

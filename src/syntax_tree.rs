use vstd::prelude::*;

use crate::text_range::TextRange;

verus! {

/// What a node of the tree is, with the parts of it that a rewrite quotes.
/// A part is `None` where the node lacks it (text that is still being typed).
#[derive(Clone, Debug)]
pub enum NodeShape {
    /// A path such as `a::b::C`: the text of its qualifier (`a::b`), if any,
    /// and of its last segment (`C`, generic arguments included); the span of
    /// its first segment (`a`) in the original source, and the text of that
    /// segment's generic arguments (`<T>` in `a<T>::b`, empty where it has
    /// none).
    Path {
        qualifier: Option<String>,
        segment: Option<String>,
        first_segment: Option<TextRange>,
        first_generic_args: String,
    },
    /// A method call `receiver.name(args)`: the receiver's text, the method
    /// name, the offset of the opening parenthesis of the argument list in the
    /// original source, and whether the argument list holds any argument.
    MethodCall {
        receiver: Option<String>,
        name_ref: Option<String>,
        arg_list_open: Option<u32>,
        has_args: bool,
    },
    /// Any other node.
    Other,
}

/// The two kinds of node that a reference can be.
#[derive(Clone, Copy, Debug, PartialEq, Eq, Structural)]
pub enum NodeKind {
    Path,
    MethodCall,
}

/// A node of an already-built syntax tree.
///
/// `range` is its span in the text it was parsed from. A node that exists only
/// in a macro expansion also knows `upmapped`, the span in the original source
/// that it was expanded from.
#[derive(Clone, Debug)]
pub struct SyntaxNode {
    pub range: TextRange,
    pub upmapped: Option<TextRange>,
    pub shape: NodeShape,
}

/// The nodes of a tree, macro expansions included, innermost nodes first
/// wherever one node encloses another.
#[derive(Clone, Debug)]
pub struct SyntaxTree {
    pub nodes: Vec<SyntaxNode>,
}

/// The span of a node in the original, unexpanded source.
pub open spec fn spec_original_range(n: SyntaxNode) -> TextRange {
    match n.upmapped {
        Some(r) => r,
        None => n.range,
    }
}

pub open spec fn has_kind(n: SyntaxNode, kind: NodeKind) -> bool {
    match kind {
        NodeKind::Path => n.shape is Path,
        NodeKind::MethodCall => n.shape is MethodCall,
    }
}

/// Node `n` is of the given kind and its original span holds the offset.
pub open spec fn encloses(n: SyntaxNode, kind: NodeKind, offset: u32) -> bool {
    has_kind(n, kind) && spec_original_range(n).spec_contains_inclusive(offset)
}

/// Index `i` names the smallest node of the kind that encloses the offset,
/// the first one among equally small ones.
pub open spec fn is_smallest_enclosing(
    nodes: Seq<SyntaxNode>,
    kind: NodeKind,
    offset: u32,
    i: int,
) -> bool {
    &&& 0 <= i < nodes.len()
    &&& encloses(nodes[i], kind, offset)
    &&& forall|j: int|
        0 <= j < nodes.len() && encloses(nodes[j], kind, offset) ==> spec_original_range(
            nodes[i],
        ).spec_len() <= spec_original_range(nodes[j]).spec_len()
    &&& forall|j: int|
        0 <= j < i && encloses(nodes[j], kind, offset) ==> spec_original_range(
            nodes[i],
        ).spec_len() < spec_original_range(nodes[j]).spec_len()
}

pub open spec fn any_encloses(nodes: Seq<SyntaxNode>, kind: NodeKind, offset: u32) -> bool {
    exists|j: int| 0 <= j < nodes.len() && encloses(nodes[j], kind, offset)
}

/// The smallest node of the kind that encloses the offset, if there is one.
pub open spec fn spec_find_node_at_offset(
    nodes: Seq<SyntaxNode>,
    kind: NodeKind,
    offset: u32,
) -> Option<int> {
    if any_encloses(nodes, kind, offset) {
        Some(choose|i: int| is_smallest_enclosing(nodes, kind, offset, i))
    } else {
        None
    }
}

/// The reference under the cursor: the smallest path that encloses it, or,
/// where no path does, the smallest method call.
pub open spec fn spec_find_reference_at(nodes: Seq<SyntaxNode>, offset: u32) -> Option<int> {
    if any_encloses(nodes, NodeKind::Path, offset) {
        spec_find_node_at_offset(nodes, NodeKind::Path, offset)
    } else {
        spec_find_node_at_offset(nodes, NodeKind::MethodCall, offset)
    }
}

/// There is at most one index that names the smallest enclosing node.
pub proof fn lemma_smallest_enclosing_unique(
    nodes: Seq<SyntaxNode>,
    kind: NodeKind,
    offset: u32,
    i: int,
    k: int,
)
    requires
        is_smallest_enclosing(nodes, kind, offset, i),
        is_smallest_enclosing(nodes, kind, offset, k),
    ensures
        i == k,
{
    if i < k {
        assert(spec_original_range(nodes[k]).spec_len() < spec_original_range(nodes[i]).spec_len());
    } else if k < i {
        assert(spec_original_range(nodes[i]).spec_len() < spec_original_range(nodes[k]).spec_len());
    }
}

/// Where some node of the kind encloses the offset, a smallest one does.
pub proof fn lemma_smallest_enclosing_exists(nodes: Seq<SyntaxNode>, kind: NodeKind, offset: u32)
    requires
        any_encloses(nodes, kind, offset),
    ensures
        exists|i: int| is_smallest_enclosing(nodes, kind, offset, i),
    decreases nodes.len(),
{
    let n = nodes.len() - 1;
    let m = nodes.drop_last();
    assert(forall|j: int| 0 <= j < n ==> m[j] == nodes[j]);
    if any_encloses(m, kind, offset) {
        lemma_smallest_enclosing_exists(m, kind, offset);
        let i0 = choose|i: int| is_smallest_enclosing(m, kind, offset, i);
        if encloses(nodes[n], kind, offset) && spec_original_range(nodes[n]).spec_len()
            < spec_original_range(nodes[i0]).spec_len() {
            assert(is_smallest_enclosing(nodes, kind, offset, n));
        } else {
            assert(is_smallest_enclosing(nodes, kind, offset, i0));
        }
    } else {
        assert(is_smallest_enclosing(nodes, kind, offset, n));
    }
}

impl SyntaxNode {
    pub fn kind_is(&self, kind: NodeKind) -> (r: bool)
        ensures
            r == has_kind(*self, kind),
    {
        match kind {
            NodeKind::Path => match self.shape {
                NodeShape::Path { .. } => true,
                _ => false,
            },
            NodeKind::MethodCall => match self.shape {
                NodeShape::MethodCall { .. } => true,
                _ => false,
            },
        }
    }
}

/// Maps a node to its span in the original source, through a macro
/// expansion where the node was expanded.
pub fn original_range(n: &SyntaxNode) -> (r: TextRange)
    ensures
        r == spec_original_range(*n),
{
    match n.upmapped {
        Some(r) => r,
        None => n.range,
    }
}

/// The smallest node of the given kind whose original span holds `offset`.
pub fn find_node_at_offset(tree: &SyntaxTree, kind: NodeKind, offset: u32) -> (r: Option<usize>)
    ensures
        r is None <==> !any_encloses(tree.nodes@, kind, offset),
        r matches Some(i) ==> is_smallest_enclosing(tree.nodes@, kind, offset, i as int),
        r matches Some(i) ==> spec_find_node_at_offset(tree.nodes@, kind, offset) == Some(
            i as int,
        ),
{
    let nodes = &tree.nodes;
    let mut best: Option<usize> = None;
    let mut i: usize = 0;
    while i < nodes.len()
        invariant
            i <= nodes@.len(),
            best is None <==> forall|j: int| 0 <= j < i ==> !encloses(nodes@[j], kind, offset),
            best matches Some(b) ==> {
                &&& b < i
                &&& encloses(nodes@[b as int], kind, offset)
                &&& forall|j: int|
                    0 <= j < i && encloses(nodes@[j], kind, offset) ==> spec_original_range(
                        nodes@[b as int],
                    ).spec_len() <= spec_original_range(nodes@[j]).spec_len()
                &&& forall|j: int|
                    0 <= j < b && encloses(nodes@[j], kind, offset) ==> spec_original_range(
                        nodes@[b as int],
                    ).spec_len() < spec_original_range(nodes@[j]).spec_len()
            },
        decreases nodes@.len() - i,
    {
        let n = &nodes[i];
        let r = original_range(n);
        if n.kind_is(kind) && r.contains_inclusive(offset) {
            match best {
                None => {
                    best = Some(i);
                },
                Some(b) => {
                    let rb = original_range(&nodes[b]);
                    if (r.end as i64 - r.start as i64) < (rb.end as i64 - rb.start as i64) {
                        best = Some(i);
                    }
                },
            }
        }
        i = i + 1;
    }
    match best {
        Some(b) => {
            proof {
                assert(is_smallest_enclosing(nodes@, kind, offset, b as int));
                let c = choose|c: int| is_smallest_enclosing(nodes@, kind, offset, c);
                lemma_smallest_enclosing_unique(nodes@, kind, offset, b as int, c);
            }
        },
        None => {},
    }
    best
}

/// Finds the reference under the cursor: the smallest path that encloses the
/// offset, searching through macro expansions, or else the smallest method
/// call. `None` where neither exists.
pub fn find_reference_at(tree: &SyntaxTree, offset: u32) -> (r: Option<usize>)
    ensures
        r is None <==> spec_find_reference_at(tree.nodes@, offset) is None,
        r matches Some(i) ==> spec_find_reference_at(tree.nodes@, offset) == Some(i as int),
        r matches Some(i) ==> (i < tree.nodes@.len()),
{
    match find_node_at_offset(tree, NodeKind::Path, offset) {
        Some(i) => Some(i),
        None => find_node_at_offset(tree, NodeKind::MethodCall, offset),
    }
}

} // verus!

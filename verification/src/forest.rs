//! The forest of headings: a `petgraph` graph whose nodes are the headings of
//! one document and whose edges lead from a heading to the headings nested
//! directly under it.
//!
//! The graph itself is opaque to the verifier. Two names stand for what it
//! holds, `graph_nodes` and `graph_links`, and the functions of `petgraph` that
//! the library calls are given contracts over these two names.

use crate::parser::{headings, HeaderWithContent, Heading};
use petgraph::graph::NodeIndex;
use petgraph::visit::EdgeRef;
use petgraph::Direction;
use vstd::prelude::*;

verus! {

/// `Graph` of `petgraph`. Nothing of what is inside it is visible here.
#[verifier::external_type_specification]
#[verifier::external_body]
#[verifier::reject_recursive_types(N)]
#[verifier::reject_recursive_types(E)]
#[verifier::reject_recursive_types(Ty)]
#[verifier::reject_recursive_types(Ix)]
pub struct ExGraph<N, E, Ty, Ix>(petgraph::Graph<N, E, Ty, Ix>);

/// `Directed` of `petgraph`, the marker of a graph whose edges have a
/// direction.
#[verifier::external_type_specification]
#[verifier::external_body]
pub struct ExDirected(petgraph::Directed);

/// The headings of one document with their nesting.
pub type CardGraph = petgraph::Graph<HeaderWithContent, usize, petgraph::Directed, usize>;

/// One edge of the forest: the heading at `child` is nested directly under
/// the heading at `parent`, and `level` is the level of the child.
pub struct Link {
    pub parent: int,
    pub child: int,
    pub level: nat,
}

/// The nodes of `graph`, by node index.
pub uninterp spec fn graph_nodes(
    graph: petgraph::Graph<HeaderWithContent, usize, petgraph::Directed, usize>,
) -> Seq<HeaderWithContent>;

/// The edges of `graph`, by edge index: source, target and weight.
pub uninterp spec fn graph_links(
    graph: petgraph::Graph<HeaderWithContent, usize, petgraph::Directed, usize>,
) -> Seq<Link>;

/// The levels of `nodes`, in their order.
pub open spec fn levels(nodes: Seq<Heading>) -> Seq<nat> {
    nodes.map_values(|node: Heading| node.level)
}

/// The levels of the nodes of `graph`, by node index.
pub open spec fn graph_levels(graph: CardGraph) -> Seq<nat> {
    levels(headings(graph_nodes(graph)))
}

/// The last position at or before `from` whose level is below `level`.
pub open spec fn nearest_below(levels: Seq<nat>, from: int, level: nat) -> Option<int>
    decreases from + 1,
{
    if from < 0 || from >= levels.len() {
        None
    } else if levels[from] < level {
        Some(from)
    } else {
        nearest_below(levels, from - 1, level)
    }
}

/// The parent of the heading at `child`: the nearest heading before it with
/// a level below its own. A heading that no such heading precedes is a root.
pub open spec fn parent(levels: Seq<nat>, child: int) -> Option<int> {
    nearest_below(levels, child - 1, levels[child])
}

/// The edges of the forest over the first `count` headings, in the order of
/// their children.
pub open spec fn links(levels: Seq<nat>, count: int) -> Seq<Link>
    decreases count,
{
    if count <= 0 {
        Seq::empty()
    } else {
        match parent(levels, count - 1) {
            Some(p) => links(levels, count - 1).push(
                Link { parent: p, child: count - 1, level: levels[count - 1] },
            ),
            None => links(levels, count - 1),
        }
    }
}

/// The ancestors of the heading at `node`, from its root down to its
/// parent.
pub open spec fn ancestors(levels: Seq<nat>, node: int) -> Seq<int>
    decreases node,
{
    match parent(levels, node) {
        Some(p) => if 0 <= p < node {
            ancestors(levels, p).push(p)
        } else {
            Seq::empty()
        },
        None => Seq::empty(),
    }
}

/// Whether the edges of `graph` are those of the forest over its first
/// `count` nodes, and no others.
pub open spec fn linked(graph: CardGraph, count: int) -> bool {
    &&& 0 <= count <= graph_nodes(graph).len()
    &&& graph_links(graph) == links(graph_levels(graph), count)
}

/// Whether `graph` is the forest over all its nodes: every node but the
/// roots has one edge coming in, from its parent.
pub open spec fn is_forest(graph: CardGraph) -> bool {
    linked(graph, graph_nodes(graph).len() as int)
}

/// What `nearest_below` finds lies in range and below `level`, and nothing
/// between it and `from` does.
pub proof fn lemma_nearest_below(levels: Seq<nat>, from: int, level: nat)
    requires
        from < levels.len(),
    ensures
        match nearest_below(levels, from, level) {
            Some(found) => {
                &&& 0 <= found <= from
                &&& levels[found] < level
                &&& forall|k: int| found < k <= from ==> levels[k] >= level
            },
            None => forall|k: int| 0 <= k <= from ==> levels[k] >= level,
        },
    decreases from + 1,
{
    if from >= 0 && levels[from] >= level {
        lemma_nearest_below(levels, from - 1, level);
    }
}

/// Positions whose level is not below `level` can be passed over.
pub proof fn lemma_nearest_below_skip(levels: Seq<nat>, from: int, to: int, level: nat)
    requires
        -1 <= to <= from < levels.len(),
        forall|k: int| to < k <= from ==> levels[k] >= level,
    ensures
        nearest_below(levels, from, level) == nearest_below(levels, to, level),
    decreases from - to,
{
    if to < from {
        lemma_nearest_below_skip(levels, from - 1, to, level);
    }
}

/// `nearest_below` reads the levels up to `from` only.
pub proof fn lemma_nearest_below_prefix(a: Seq<nat>, b: Seq<nat>, from: int, level: nat)
    requires
        from < a.len(),
        from < b.len(),
        forall|k: int| 0 <= k <= from ==> a[k] == b[k],
    ensures
        nearest_below(a, from, level) == nearest_below(b, from, level),
    decreases from + 1,
{
    if from >= 0 && a[from] >= level {
        lemma_nearest_below_prefix(a, b, from - 1, level);
    }
}

/// The edges over the first `count` headings depend on these headings only.
pub proof fn lemma_links_prefix(a: Seq<nat>, b: Seq<nat>, count: int)
    requires
        count <= a.len(),
        count <= b.len(),
        forall|k: int| 0 <= k < count ==> a[k] == b[k],
    ensures
        links(a, count) == links(b, count),
    decreases count,
{
    if count > 0 {
        lemma_links_prefix(a, b, count - 1);
        lemma_nearest_below_prefix(a, b, count - 2, a[count - 1]);
    }
}

/// Every edge of the forest leads from the parent of its child to that
/// child, a heading with a parent has such an edge, and no heading has two:
/// the edges stand in the order of their children.
pub proof fn lemma_links(levels: Seq<nat>, count: int)
    requires
        count <= levels.len(),
    ensures
        links(levels, count).len() <= count || count < 0,
        forall|i: int, j: int|
            0 <= i < j < links(levels, count).len() ==> (#[trigger] links(levels, count)[i]).child
                < (#[trigger] links(levels, count)[j]).child,
        forall|i: int|
            0 <= i < links(levels, count).len() ==> {
                let link = #[trigger] links(levels, count)[i];
                &&& 0 <= link.parent < link.child < count
                &&& parent(levels, link.child) == Some(link.parent)
                &&& link.level == levels[link.child]
            },
        forall|child: int|
            0 <= child < count && parent(levels, child) is Some ==> exists|i: int|
                0 <= i < links(levels, count).len() && (#[trigger] links(levels, count)[i]).child
                    == child,
    decreases count,
{
    if count > 0 {
        lemma_links(levels, count - 1);
        lemma_nearest_below(levels, count - 2, levels[count - 1]);
        let rest = links(levels, count - 1);
        let all = links(levels, count);
        assert forall|child: int|
            0 <= child < count && parent(levels, child) is Some implies exists|i: int|
            0 <= i < all.len() && (#[trigger] all[i]).child == child by {
            if child < count - 1 {
                let i = choose|i: int| 0 <= i < rest.len() && (#[trigger] rest[i]).child == child;
                assert(all[i].child == child);
            } else {
                assert(all[all.len() - 1].child == child);
            }
        }
    }
}

/// Every ancestor of a heading stands before it and has a lower level, and
/// the ancestors are listed from the outermost to the parent.
pub proof fn lemma_ancestors(levels: Seq<nat>, node: int)
    requires
        0 <= node < levels.len(),
    ensures
        forall|i: int|
            0 <= i < ancestors(levels, node).len() ==> 0 <= (#[trigger] ancestors(levels, node)[i])
                < node && levels[ancestors(levels, node)[i]] < levels[node],
        forall|i: int, j: int|
            0 <= i < j < ancestors(levels, node).len() ==> (#[trigger] ancestors(levels, node)[i])
                < (#[trigger] ancestors(levels, node)[j]) && levels[ancestors(levels, node)[i]]
                < levels[ancestors(levels, node)[j]],
    decreases node,
{
    lemma_nearest_below(levels, node - 1, levels[node]);
    match parent(levels, node) {
        Some(p) => {
            lemma_ancestors(levels, p);
            let above = ancestors(levels, p);
            let all = ancestors(levels, node);
            assert forall|i: int| 0 <= i < all.len() implies 0 <= (#[trigger] all[i]) < node
                && levels[all[i]] < levels[node] by {
                assert(i < above.len() ==> all[i] == above[i]);
            }
            assert forall|i: int, j: int| 0 <= i < j < all.len() implies (#[trigger] all[i]) < (
            #[trigger] all[j]) && levels[all[i]] < levels[all[j]] by {
                assert(all[i] == above[i]);
                assert(j < above.len() ==> all[j] == above[j]);
            }
        },
        None => {},
    }
}

/// Two headings of one level, with no heading of a lower level between
/// them, have the same parent and the same ancestors: the second is put
/// beside the first, not under it.
pub proof fn lemma_siblings(levels: Seq<nat>, first: int, second: int)
    requires
        0 <= first < second < levels.len(),
        levels[first] == levels[second],
        forall|k: int| first < k < second ==> levels[k] >= levels[first],
    ensures
        parent(levels, second) == parent(levels, first),
        parent(levels, second) != Some(first),
        ancestors(levels, second) == ancestors(levels, first),
{
    lemma_nearest_below_skip(levels, second - 1, first - 1, levels[second]);
    lemma_nearest_below(levels, first - 1, levels[first]);
}

/// The number of nodes of `graph`.
pub fn len(graph: &CardGraph) -> (count: usize)
    ensures
        count == graph_nodes(*graph).len(),
{
    node_count(graph)
}

/// `Graph::with_capacity` of `petgraph`, called for no nodes and no edges:
/// the graph that comes back is empty.
#[verifier::external_body]
pub(crate) fn new_graph() -> (graph: CardGraph)
    ensures
        graph_nodes(graph) == Seq::<HeaderWithContent>::empty(),
        graph_links(graph) == Seq::<Link>::empty(),
{
    petgraph::Graph::with_capacity(0, 0)
}

/// `Graph::node_count` of `petgraph`: the number of nodes.
#[verifier::external_body]
pub(crate) fn node_count(graph: &CardGraph) -> (count: usize)
    ensures
        count == graph_nodes(*graph).len(),
{
    graph.node_count()
}

/// `Graph::add_node` of `petgraph`: the node is put behind the others, the
/// edges stay, and the index of the new node is the number of nodes that
/// were there before. With indices of type `usize` the call does not panic.
#[verifier::external_body]
pub(crate) fn add_node(graph: &mut CardGraph, node: HeaderWithContent) -> (index: usize)
    ensures
        graph_nodes(*final(graph)) == graph_nodes(*old(graph)).push(node),
        graph_links(*final(graph)) == graph_links(*old(graph)),
        index == graph_nodes(*old(graph)).len(),
{
    graph.add_node(node).index()
}

/// `Graph::add_edge` of `petgraph`: an edge from `parent` to `child` with
/// the weight `level` is put behind the other edges, and the nodes stay. The
/// call panics where one of the two nodes does not exist.
#[verifier::external_body]
pub(crate) fn add_edge(graph: &mut CardGraph, parent: usize, child: usize, level: usize)
    requires
        parent < graph_nodes(*old(graph)).len(),
        child < graph_nodes(*old(graph)).len(),
    ensures
        graph_nodes(*final(graph)) == graph_nodes(*old(graph)),
        graph_links(*final(graph)) == graph_links(*old(graph)).push(
            Link { parent: parent as int, child: child as int, level: level as nat },
        ),
{
    graph.add_edge(NodeIndex::new(parent), NodeIndex::new(child), level);
}

/// `Graph::node_weight` of `petgraph`: the node at `index`, or nothing where
/// the graph has no such node.
#[verifier::external_body]
pub(crate) fn node_weight(graph: &CardGraph, index: usize) -> (node: Option<&HeaderWithContent>)
    ensures
        node == if index < graph_nodes(*graph).len() {
            Some(&graph_nodes(*graph)[index as int])
        } else {
            None
        },
{
    graph.node_weight(NodeIndex::new(index))
}

/// `Graph::edges_directed` of `petgraph`, asked for the edges that come in
/// at `index`, and the source of the first edge it hands out. An edge comes
/// back exactly where one leads to `index`; which one, where there are
/// several, is left open.
#[verifier::external_body]
pub(crate) fn incoming(graph: &CardGraph, index: usize) -> (source: Option<usize>)
    ensures
        match source {
            Some(from) => exists|i: int|
                0 <= i < graph_links(*graph).len() && (#[trigger] graph_links(*graph)[i]).child
                    == index && graph_links(*graph)[i].parent == from,
            None => forall|i: int|
                0 <= i < graph_links(*graph).len() ==> (#[trigger] graph_links(*graph)[i]).child
                    != index,
        },
{
    match graph.edges_directed(NodeIndex::new(index), Direction::Incoming).next() {
        Some(edge) => Some(edge.source().index()),
        None => None,
    }
}

} // verus!

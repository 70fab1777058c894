//! The operations of `petgraph` that the type graph uses, with what they
//! do stated over names for the graph's contents.
//!
//! A graph is seen as the sequence of its node weights, in the order the
//! nodes were added (a node's index is its position), and the sequence of
//! its edges `(from, to, weight)`, in the order they were added.

use vstd::prelude::*;

use petgraph::graph::{EdgeIndex, Graph, NodeIndex};
use petgraph::visit::{Dfs, Visitable};
use petgraph::Directed;

use super::type_graph::{InferenceSource, TypeNode};

verus! {

#[verifier::external_type_specification]
#[verifier::external_body]
#[verifier::reject_recursive_types(N)]
#[verifier::reject_recursive_types(E)]
#[verifier::reject_recursive_types(Ty)]
#[verifier::reject_recursive_types(Ix)]
pub struct ExGraph<N, E, Ty, Ix>(Graph<N, E, Ty, Ix>);

#[verifier::external_type_specification]
#[verifier::external_body]
#[verifier::reject_recursive_types(Ix)]
pub struct ExNodeIndex<Ix>(NodeIndex<Ix>);

#[verifier::external_type_specification]
#[verifier::external_body]
#[verifier::reject_recursive_types(Ix)]
pub struct ExEdgeIndex<Ix>(EdgeIndex<Ix>);

#[verifier::external_type_specification]
#[verifier::external_body]
pub struct ExDirected(Directed);

/// The graph of type inferences.
pub type InferenceGraph = Graph<TypeNode, InferenceSource, Directed, u32>;

/// The node weights of `g`, by node index.
pub uninterp spec fn graph_nodes(g: Graph<TypeNode, InferenceSource, Directed, u32>) -> Seq<TypeNode>;

/// The edges of `g` as `(from, to, weight)`, by edge index.
pub uninterp spec fn graph_edges(g: Graph<TypeNode, InferenceSource, Directed, u32>) -> Seq<(int, int, InferenceSource)>;

/// The number that a node index stands for (`NodeIndex::index`).
pub uninterp spec fn node_ix(n: NodeIndex<u32>) -> int;

/// The number that an edge index stands for (`EdgeIndex::index`).
pub uninterp spec fn edge_ix(e: EdgeIndex<u32>) -> int;

/// There is an edge from `a` to `b`.
pub open spec fn has_edge<W>(edges: Seq<(int, int, W)>, a: int, b: int) -> bool {
    exists|i: int| 0 <= i < edges.len() && #[trigger] edges[i].0 == a && edges[i].1 == b
}

/// Every edge of `edges` joins two of the first `n` nodes.
pub open spec fn edges_within<W>(edges: Seq<(int, int, W)>, n: int) -> bool {
    forall|i: int|
        0 <= i < edges.len() ==> 0 <= #[trigger] edges[i].0 < n && 0 <= edges[i].1 < n
}

/// Wraps `Graph::new`: a directed graph with no nodes and no edges.
#[verifier::external_body]
pub(crate) fn new_graph() -> (g: InferenceGraph)
    ensures
        graph_nodes(g) == Seq::<TypeNode>::empty(),
        graph_edges(g) == Seq::<(int, int, InferenceSource)>::empty(),
{
    Graph::new()
}

/// Wraps `Graph::add_node`: the node is appended, and its index is the
/// number of nodes before. It panics when the index would be the largest
/// `u32`, which the `requires` rules out.
#[verifier::external_body]
pub(crate) fn add_node(g: &mut InferenceGraph, weight: TypeNode) -> (ix: NodeIndex<u32>)
    requires
        graph_nodes(*old(g)).len() < u32::MAX,
    ensures
        graph_nodes(*final(g)) == graph_nodes(*old(g)).push(weight),
        graph_edges(*final(g)) == graph_edges(*old(g)),
        node_ix(ix) == graph_nodes(*old(g)).len(),
{
    g.add_node(weight)
}

/// Wraps `NodeIndex::default`, which `derive` writes as the index of the
/// default `u32`: the index `0`, which stands for the first node.
#[verifier::external_body]
pub(crate) fn first_node() -> (ix: NodeIndex<u32>)
    ensures
        node_ix(ix) == 0,
{
    NodeIndex::default()
}

/// Wraps `NodeIndex::index`: the number the index stands for.
#[verifier::external_body]
pub(crate) fn index_of(ix: NodeIndex<u32>) -> (i: usize)
    ensures
        i == node_ix(ix),
{
    ix.index()
}

/// Wraps `Graph::add_edge`: the edge is appended, and its index is the
/// number of edges before. It panics when a node does not exist or when
/// the index would be the largest `u32`, which the `requires` rules out.
#[verifier::external_body]
pub(crate) fn add_edge(g: &mut InferenceGraph, a: NodeIndex<u32>, b: NodeIndex<u32>, weight: InferenceSource) -> (e: EdgeIndex<u32>)
    requires
        0 <= node_ix(a) < graph_nodes(*old(g)).len(),
        0 <= node_ix(b) < graph_nodes(*old(g)).len(),
        graph_edges(*old(g)).len() < u32::MAX,
    ensures
        graph_nodes(*final(g)) == graph_nodes(*old(g)),
        graph_edges(*final(g)) == graph_edges(*old(g)).push((node_ix(a), node_ix(b), weight)),
        edge_ix(e) == graph_edges(*old(g)).len(),
{
    g.add_edge(a, b, weight)
}

/// Wraps indexing a graph by a node (`Index<NodeIndex>`): the node's
/// weight. It panics on a node that does not exist, which the `requires`
/// rules out.
#[verifier::external_body]
pub(crate) fn node_weight(g: &InferenceGraph, ix: NodeIndex<u32>) -> (w: &TypeNode)
    requires
        0 <= node_ix(ix) < graph_nodes(*g).len(),
    ensures
        *w == graph_nodes(*g)[node_ix(ix)],
{
    &g[ix]
}

/// A depth-first walk over a graph (`petgraph::visit::Dfs`), kept apart
/// from the graph it walks.
#[verifier::external_body]
pub struct NodeWalk {
    dfs: Dfs<NodeIndex<u32>, <InferenceGraph as Visitable>::Map>,
}

/// The nodes that the walk still has on its stack.
pub uninterp spec fn walk_stack(w: NodeWalk) -> Seq<int>;

/// The nodes that the walk has already given out.
pub uninterp spec fn walk_discovered(w: NodeWalk) -> Set<int>;

/// How many nodes the walk's record of discovered nodes has room for.
pub uninterp spec fn walk_limit(w: NodeWalk) -> int;

/// Wraps `Dfs::new`: a walk whose stack holds `start` alone, with nothing
/// discovered and room for every node of `g`.
#[verifier::external_body]
pub(crate) fn walk_from(g: &InferenceGraph, start: NodeIndex<u32>) -> (w: NodeWalk)
    ensures
        walk_stack(w) == seq![node_ix(start)],
        walk_discovered(w) == Set::<int>::empty(),
        walk_limit(w) == graph_nodes(*g).len(),
{
    NodeWalk { dfs: Dfs::new(g, start) }
}

/// The position of the topmost node of `stack` (its last entry) that is
/// not in `discovered`, or `-1` where every node on it is.
pub open spec fn last_fresh(stack: Seq<int>, discovered: Set<int>) -> int
    decreases stack.len(),
{
    if stack.len() == 0 {
        -1
    } else if !discovered.contains(stack.last()) {
        stack.len() - 1
    } else {
        last_fresh(stack.drop_last(), discovered)
    }
}

/// The targets of those of the first `k` edges that leave `n` and whose
/// target is not in `discovered`, from the highest edge index down: the
/// order in which `Graph::neighbors` gives the successors of `n` (it
/// follows the node's list of outgoing edges, to which `add_edge` puts
/// each new edge in front).
pub open spec fn pushed_targets<W>(edges: Seq<(int, int, W)>, n: int, discovered: Set<int>, k: int) -> Seq<int>
    decreases k,
{
    if k <= 0 {
        Seq::empty()
    } else {
        let rest = pushed_targets(edges, n, discovered, k - 1);
        if edges[k - 1].0 == n && !discovered.contains(edges[k - 1].1) {
            seq![edges[k - 1].1] + rest
        } else {
            rest
        }
    }
}

/// One step of `Dfs::next` from `before` to `after` over a graph with
/// edges `edges`, giving out `r`. Nodes are popped off the top of the
/// stack while they are discovered. If one that is not turns up, it is
/// marked discovered, the successors that are not discovered are pushed in
/// the order `Graph::neighbors` gives them, and it is given out; otherwise
/// the stack ends empty and nothing is given out.
pub open spec fn walk_stepped(before: NodeWalk, after: NodeWalk, edges: Seq<(int, int, InferenceSource)>, r: Option<int>) -> bool {
    let s = walk_stack(before);
    let d = walk_discovered(before);
    let j = last_fresh(s, d);
    &&& walk_limit(after) == walk_limit(before)
    &&& match r {
        Some(n) => {
            &&& 0 <= j
            &&& n == s[j]
            &&& walk_discovered(after) == d.insert(n)
            &&& walk_stack(after) == s.take(j) + pushed_targets(edges, n, d.insert(n), edges.len() as int)
        },
        None => {
            &&& j < 0
            &&& walk_discovered(after) == d
            &&& walk_stack(after) == Seq::<int>::empty()
        },
    }
}

/// Wraps `Dfs::next`: one step of the walk, as `walk_stepped` states it.
/// Marking a node beyond the room of the record panics, which the
/// `requires` rules out.
#[verifier::external_body]
pub(crate) fn walk_next(w: &mut NodeWalk, g: &InferenceGraph) -> (r: Option<NodeIndex<u32>>)
    requires
        walk_limit(*old(w)) == graph_nodes(*g).len(),
        forall|i: int|
            0 <= i < walk_stack(*old(w)).len() ==> 0 <= #[trigger] walk_stack(*old(w))[i]
                < walk_limit(*old(w)),
        edges_within(graph_edges(*g), graph_nodes(*g).len() as int),
    ensures
        walk_stepped(
            *old(w),
            *final(w),
            graph_edges(*g),
            match r {
                Some(n) => Some(node_ix(n)),
                None => None,
            },
        ),
{
    w.dfs.next(g)
}

} // verus!

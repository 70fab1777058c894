//! A graph of type inferences.
//!
//! Nodes stand for the types of variables and for known concrete types; an
//! edge from one node to another records that the first type was inferred
//! to be the second. The type of a variable is found by walking the graph
//! from the variable's node until a concrete type turns up.

use vstd::prelude::*;
use vstd::set_lib::{lemma_int_range, lemma_len_subset, set_int_range};

use std::collections::HashMap;

use petgraph::graph::{EdgeIndex, NodeIndex};

use crate::ast::{Identifier, ScopedId};
use crate::lex::TokenView;
use crate::check::assoc::{assoc_contains, assoc_get, find_key, lemma_find_key, lemma_find_key_is, lemma_find_key_none};
use crate::check::types::concrete_type::{ConcreteType, ConcreteTypeView};
use crate::check::types::environment::TypeId;
use super::graph_ops::{NodeWalk, add_edge, add_node, edges_within, graph_edges, graph_nodes, has_edge, last_fresh, new_graph, node_ix, node_weight, pushed_targets, walk_discovered, walk_from, walk_limit, walk_next, walk_stack, walk_stepped, edge_ix, InferenceGraph};

verus! {

/// Why one type was inferred to be another.
#[derive(Debug, PartialEq, Eq, Clone)]
pub enum InferenceSource {
    /// The value assigned to a variable.
    Assignment,
    /// An operand of a boolean operator.
    BooleanOperator,
    /// An argument of a call of the named function.
    CallArgument(Identifier),
    /// The value of the named variable's declaration.
    Declaration(Identifier),
    /// An operand of an equality operator.
    EqualityOperator,
    /// The type written in the named variable's declaration.
    ExplicitDecl(Identifier),
    /// A `return` statement.
    ExplicitReturn,
    /// A parameter of a function.
    FnParameter(Identifier),
    /// The return type of the named function.
    FnReturnType(Identifier),
    /// The signature of the named function.
    FnSignature(Identifier),
    /// The two branches of an `if`.
    IfBranchesSame,
    /// The condition of an `if`.
    IfConditionalBool,
    /// An operand of a numeric operator.
    NumericOperator,
    /// Found by walking the graph.
    Inferred,
    /// The value of a literal.
    LiteralValue,
    /// The value returned by a call of the named function.
    CallReturnType(Identifier),
}

/// The view of an identifier: its token and its `ScopedId`.
pub open spec fn ident_view(i: Identifier) -> (TokenView, Seq<usize>) {
    (i.token@, i.id@)
}

/// The mathematical value of an `InferenceSource`, with identifiers seen by
/// `ident_view`.
pub enum SourceView {
    Assignment,
    BooleanOperator,
    CallArgument((TokenView, Seq<usize>)),
    Declaration((TokenView, Seq<usize>)),
    EqualityOperator,
    ExplicitDecl((TokenView, Seq<usize>)),
    ExplicitReturn,
    FnParameter((TokenView, Seq<usize>)),
    FnReturnType((TokenView, Seq<usize>)),
    FnSignature((TokenView, Seq<usize>)),
    IfBranchesSame,
    IfConditionalBool,
    NumericOperator,
    Inferred,
    LiteralValue,
    CallReturnType((TokenView, Seq<usize>)),
}

/// The view of a source.
pub open spec fn source_view(s: InferenceSource) -> SourceView {
    match s {
        InferenceSource::Assignment => SourceView::Assignment,
        InferenceSource::BooleanOperator => SourceView::BooleanOperator,
        InferenceSource::CallArgument(i) => SourceView::CallArgument(ident_view(i)),
        InferenceSource::Declaration(i) => SourceView::Declaration(ident_view(i)),
        InferenceSource::EqualityOperator => SourceView::EqualityOperator,
        InferenceSource::ExplicitDecl(i) => SourceView::ExplicitDecl(ident_view(i)),
        InferenceSource::ExplicitReturn => SourceView::ExplicitReturn,
        InferenceSource::FnParameter(i) => SourceView::FnParameter(ident_view(i)),
        InferenceSource::FnReturnType(i) => SourceView::FnReturnType(ident_view(i)),
        InferenceSource::FnSignature(i) => SourceView::FnSignature(ident_view(i)),
        InferenceSource::IfBranchesSame => SourceView::IfBranchesSame,
        InferenceSource::IfConditionalBool => SourceView::IfConditionalBool,
        InferenceSource::NumericOperator => SourceView::NumericOperator,
        InferenceSource::Inferred => SourceView::Inferred,
        InferenceSource::LiteralValue => SourceView::LiteralValue,
        InferenceSource::CallReturnType(i) => SourceView::CallReturnType(ident_view(i)),
    }
}

/// A node in the type inference graph, or an rvalue in a type equation.
#[derive(Debug, PartialEq, Eq, Clone, Hash)]
pub enum TypeNode {
    /// The type of the program variable with the given `ScopedId`.
    VariableType(ScopedId),
    /// A concrete type written in the program, such as a primitive or a
    /// function.
    ConcreteType(TypeId),
    /// A temporary created from an expression.
    Expression,
}

/// The mathematical value of a `TypeNode`: a variable is seen by the view
/// of its `ScopedId`.
pub enum TypeNodeView {
    VariableType(Seq<usize>),
    ConcreteType(TypeId),
    Expression,
}

/// The view of a node.
pub open spec fn node_view(n: TypeNode) -> TypeNodeView {
    match n {
        TypeNode::VariableType(id) => TypeNodeView::VariableType(id@),
        TypeNode::ConcreteType(t) => TypeNodeView::ConcreteType(t),
        TypeNode::Expression => TypeNodeView::Expression,
    }
}

/// Graph of type inferences, with the nodes already made for known types
/// and variables.
#[derive(Debug)]
pub struct TypeGraph {
    graph: InferenceGraph,
    known_type_ids: HashMap<u64, NodeIndex<u32>>,
    known_concrete_types: Vec<(ConcreteType, TypeId)>,
    current_type_id: TypeId,
    variables: Vec<(ScopedId, NodeIndex<u32>)>,
}

/// The mathematical value of a `TypeGraph`.
pub ghost struct TypeGraphView {
    /// Node weights, by node index.
    pub nodes: Seq<TypeNodeView>,
    /// Edges `(from, to, why)`, in the order they were added.
    pub edges: Seq<(int, int, SourceView)>,
    /// The node of each concrete type id that has one.
    pub type_nodes: Map<u64, int>,
    /// Concrete types with their ids, in the order they were identified.
    pub concrete: Seq<(ConcreteTypeView, u64)>,
    /// The id the next new concrete type gets.
    pub current_type_id: u64,
    /// The node of each variable that has one, in the order they were added.
    pub variables: Seq<(Seq<usize>, int)>,
}

/// There is a path of edges from `a` to `b` (of length zero when they are
/// the same node).
pub open spec fn reaches(edges: Seq<(int, int, SourceView)>, a: int, b: int) -> bool {
    exists|p: Seq<int>| #[trigger] is_path(edges, p) && p[0] == a && p.last() == b
}

/// `p` is a nonempty sequence of nodes joined by edges.
pub open spec fn is_path(edges: Seq<(int, int, SourceView)>, p: Seq<int>) -> bool {
    p.len() > 0 && forall|i: int| 0 <= i < p.len() - 1 ==> has_edge(edges, #[trigger] p[i], p[i + 1])
}

proof fn lemma_reaches_self(edges: Seq<(int, int, SourceView)>, a: int)
    ensures
        reaches(edges, a, a),
{
    let p = seq![a];
    assert(is_path(edges, p));
}

proof fn lemma_reaches_step(edges: Seq<(int, int, SourceView)>, a: int, b: int, c: int)
    requires
        reaches(edges, a, b),
        has_edge(edges, b, c),
    ensures
        reaches(edges, a, c),
{
    let p = choose|p: Seq<int>| #[trigger] is_path(edges, p) && p[0] == a && p.last() == b;
    let q = p.push(c);
    assert forall|i: int| 0 <= i < q.len() - 1 implies has_edge(edges, #[trigger] q[i], q[i + 1]) by {
        if i < p.len() - 1 {
            assert(q[i] == p[i] && q[i + 1] == p[i + 1]);
        }
    }
    assert(is_path(edges, q));
}

/// A set of nodes that holds `a` and every successor of each of its
/// nodes holds every node that `a` reaches.
proof fn lemma_closed_holds_reached(edges: Seq<(int, int, SourceView)>, s: Set<int>, a: int, b: int)
    requires
        s.contains(a),
        forall|x: int, y: int| #![trigger s.contains(x), has_edge(edges, x, y)] s.contains(x) && has_edge(edges, x, y) ==> s.contains(y),
        reaches(edges, a, b),
    ensures
        s.contains(b),
{
    let p = choose|p: Seq<int>| #[trigger] is_path(edges, p) && p[0] == a && p.last() == b;
    lemma_path_prefix_held(edges, s, p, p.len() - 1);
}

proof fn lemma_path_prefix_held(edges: Seq<(int, int, SourceView)>, s: Set<int>, p: Seq<int>, i: int)
    requires
        is_path(edges, p),
        s.contains(p[0]),
        forall|x: int, y: int| #![trigger s.contains(x), has_edge(edges, x, y)] s.contains(x) && has_edge(edges, x, y) ==> s.contains(y),
        0 <= i < p.len(),
    ensures
        s.contains(p[i]),
    decreases i,
{
    if i > 0 {
        lemma_path_prefix_held(edges, s, p, i - 1);
        assert(has_edge(edges, p[i - 1], p[i]));
    }
}

/// The id of the first entry for a concrete type with view `t`.
pub open spec fn concrete_id(entries: Seq<(ConcreteTypeView, u64)>, t: ConcreteTypeView) -> Option<u64> {
    assoc_get(entries, t)
}

/// What a walk from `start` keeps true while no concrete type has turned
/// up: its stack and record are within the graph, `start` was seen, each
/// successor of a discovered node was discovered or is on the stack,
/// everything seen is reachable from `start`, and no discovered node is a
/// concrete type.
#[verifier::opaque]
spec fn walk_inv(w: NodeWalk, edges: Seq<(int, int, SourceView)>, nodes: Seq<TypeNodeView>, start: int) -> bool {
    let n = nodes.len() as int;
    &&& walk_limit(w) == n
    &&& edges_within(edges, n)
    &&& 0 <= start < n
    &&& forall|i: int| 0 <= i < walk_stack(w).len() ==> 0 <= #[trigger] walk_stack(w)[i] < n
    &&& walk_discovered(w).subset_of(set_int_range(0, n))
    &&& walk_discovered(w).finite()
    &&& walk_discovered(w).contains(start) || walk_stack(w).contains(start)
    &&& forall|x: int, y: int|
        #![trigger walk_discovered(w).contains(x), has_edge(edges, x, y)]
        walk_discovered(w).contains(x) && has_edge(edges, x, y) ==> walk_discovered(w).contains(y)
            || walk_stack(w).contains(y)
    &&& forall|x: int| #[trigger] walk_discovered(w).contains(x) ==> reaches(edges, start, x)
    &&& forall|x: int| #[trigger] walk_stack(w).contains(x) ==> reaches(edges, start, x)
    &&& forall|x: int| #[trigger] walk_discovered(w).contains(x) ==> !(nodes[x] is ConcreteType)
}

proof fn lemma_walk_begins(w: NodeWalk, edges: Seq<(int, int, SourceView)>, nodes: Seq<TypeNodeView>, start: int)
    requires
        walk_stack(w) == seq![start],
        walk_discovered(w) == Set::<int>::empty(),
        walk_limit(w) == nodes.len(),
        edges_within(edges, nodes.len() as int),
        0 <= start < nodes.len(),
    ensures
        walk_inv(w, edges, nodes, start),
        walk_discovered(w).len() <= nodes.len(),
{
    reveal(walk_inv);
    lemma_reaches_self(edges, start);
    assert(walk_stack(w)[0] == start);
    assert forall|x: int| #[trigger] walk_stack(w).contains(x) implies reaches(edges, start, x) by {
        assert(x == walk_stack(w)[0]);
    }
}

proof fn lemma_walk_inv_facts(w: NodeWalk, edges: Seq<(int, int, SourceView)>, nodes: Seq<TypeNodeView>, start: int)
    requires
        walk_inv(w, edges, nodes, start),
    ensures
        walk_limit(w) == nodes.len(),
        edges_within(edges, nodes.len() as int),
        forall|i: int|
            0 <= i < walk_stack(w).len() ==> 0 <= #[trigger] walk_stack(w)[i] < nodes.len(),
        forall|x: int| #[trigger] walk_stack(w).contains(x) ==> 0 <= x < nodes.len(),
        walk_discovered(w).len() <= nodes.len(),
{
    reveal(walk_inv);
    lemma_int_range(0, nodes.len() as int);
    lemma_len_subset(walk_discovered(w), set_int_range(0, nodes.len() as int));
    assert forall|x: int| #[trigger] walk_stack(w).contains(x) implies 0 <= x < nodes.len() by {
        let i = choose|i: int| 0 <= i < walk_stack(w).len() && walk_stack(w)[i] == x;
    }
}

proof fn lemma_walk_reaches(w: NodeWalk, edges: Seq<(int, int, SourceView)>, nodes: Seq<TypeNodeView>, start: int, k: int)
    requires
        walk_inv(w, edges, nodes, start),
        walk_stack(w).contains(k),
    ensures
        reaches(edges, start, k),
{
    reveal(walk_inv);
}

proof fn lemma_walk_step(
    before: NodeWalk,
    after: NodeWalk,
    edges: Seq<(int, int, SourceView)>,
    nodes: Seq<TypeNodeView>,
    start: int,
    k: int,
)
    requires
        walk_inv(before, edges, nodes, start),
        !(nodes[k] is ConcreteType),
        walk_limit(after) == walk_limit(before),
        walk_stack(before).contains(k),
        !walk_discovered(before).contains(k),
        walk_discovered(after) == walk_discovered(before).insert(k),
        forall|x: int| #[trigger]
            walk_stack(after).contains(x) ==> walk_stack(before).contains(x) || has_edge(edges, k, x),
        forall|x: int|
            !walk_discovered(after).contains(x) && (walk_stack(before).contains(x) || has_edge(
                edges,
                k,
                x,
            )) ==> #[trigger] walk_stack(after).contains(x),
    ensures
        walk_inv(after, edges, nodes, start),
        walk_discovered(after).len() == walk_discovered(before).len() + 1,
        walk_discovered(after).len() <= nodes.len(),
{
    reveal(walk_inv);
    let n = nodes.len() as int;
    assert(0 <= k < n) by {
        let i = choose|i: int| 0 <= i < walk_stack(before).len() && walk_stack(before)[i] == k;
    }
    assert forall|i: int| 0 <= i < walk_stack(after).len() implies 0 <= #[trigger] walk_stack(after)[i] < n by {
        let x = walk_stack(after)[i];
        assert(walk_stack(after).contains(x));
        if walk_stack(before).contains(x) {
            let j = choose|j: int| 0 <= j < walk_stack(before).len() && walk_stack(before)[j] == x;
        } else {
            let e = choose|e: int| 0 <= e < edges.len() && #[trigger] edges[e].0 == k && edges[e].1 == x;
        }
    }
    assert forall|x: int| #[trigger] walk_stack(after).contains(x) implies reaches(edges, start, x) by {
        if !walk_stack(before).contains(x) {
            lemma_reaches_step(edges, start, k, x);
        }
    }
    assert forall|x: int, y: int|
        #![trigger walk_discovered(after).contains(x), has_edge(edges, x, y)]
        walk_discovered(after).contains(x) && has_edge(edges, x, y) implies walk_discovered(after).contains(y)
            || walk_stack(after).contains(y) by {
        if x != k {
            assert(walk_discovered(before).contains(x));
        }
    }
    lemma_int_range(0, n);
    lemma_len_subset(walk_discovered(after), set_int_range(0, n));
}

proof fn lemma_walk_ends(w: NodeWalk, edges: Seq<(int, int, SourceView)>, nodes: Seq<TypeNodeView>, start: int)
    requires
        walk_inv(w, edges, nodes, start),
        forall|x: int| #[trigger] walk_stack(w).contains(x) ==> walk_discovered(w).contains(x),
    ensures
        forall|k: int|
            0 <= k < nodes.len() && reaches(edges, start, k) ==> !(#[trigger] nodes[k] is ConcreteType),
{
    reveal(walk_inv);
    let s = walk_discovered(w);
    assert(s.contains(start));
    assert forall|x: int, y: int| #![trigger s.contains(x), has_edge(edges, x, y)] s.contains(x) && has_edge(edges, x, y) implies s.contains(y) by {
        if !s.contains(y) {
            assert(walk_stack(w).contains(y));
        }
    }
    assert forall|k: int| 0 <= k < nodes.len() && reaches(edges, start, k) implies !(#[trigger] nodes[k] is ConcreteType) by {
        lemma_closed_holds_reached(edges, s, start, k);
    }
}

/// The node of the first concrete type that a depth-first walk comes to,
/// going on from the stack `stack` with the nodes `discovered` already
/// given out, for at most `fuel` more nodes. The walk takes the topmost
/// node not yet given out, and pushes its successors that are not given
/// out from the newest edge to the oldest, so that the successor by the
/// oldest edge is visited first.
pub open spec fn dfs_first(
    nodes: Seq<TypeNodeView>,
    edges: Seq<(int, int, SourceView)>,
    stack: Seq<int>,
    discovered: Set<int>,
    fuel: nat,
) -> Option<int>
    decreases fuel,
{
    if fuel == 0 {
        None
    } else {
        let j = last_fresh(stack, discovered);
        if j < 0 {
            None
        } else {
            let k = stack[j];
            if nodes[k] is ConcreteType {
                Some(k)
            } else {
                dfs_first(
                    nodes,
                    edges,
                    stack.take(j) + pushed_targets(edges, k, discovered.insert(k), edges.len() as int),
                    discovered.insert(k),
                    (fuel - 1) as nat,
                )
            }
        }
    }
}

/// The node of the first concrete type that a depth-first walk of `g`
/// from the node `start` comes to, if any.
pub open spec fn first_concrete(g: TypeGraphView, start: int) -> Option<int> {
    dfs_first(g.nodes, g.edges, seq![start], Set::empty(), (g.nodes.len() + 1) as nat)
}

proof fn lemma_last_fresh(s: Seq<int>, d: Set<int>)
    ensures
        -1 <= last_fresh(s, d) < s.len(),
        last_fresh(s, d) >= 0 ==> !d.contains(s[last_fresh(s, d)]),
        forall|i: int| last_fresh(s, d) < i < s.len() ==> d.contains(#[trigger] s[i]),
    decreases s.len(),
{
    if s.len() > 0 && d.contains(s.last()) {
        lemma_last_fresh(s.drop_last(), d);
        assert forall|i: int| last_fresh(s, d) < i < s.len() implies d.contains(#[trigger] s[i]) by {
            if i < s.len() - 1 {
                assert(s.drop_last()[i] == s[i]);
            }
        }
    }
}

proof fn lemma_pushed_targets(edges: Seq<(int, int, SourceView)>, n: int, d: Set<int>, k: int)
    requires
        0 <= k <= edges.len(),
    ensures
        forall|x: int| #[trigger] pushed_targets(edges, n, d, k).contains(x) <==> (!d.contains(x) && exists|i: int|
            0 <= i < k && #[trigger] edges[i].0 == n && edges[i].1 == x),
    decreases k,
{
    if k > 0 {
        lemma_pushed_targets(edges, n, d, k - 1);
        let rest = pushed_targets(edges, n, d, k - 1);
        let e = edges[k - 1];
        assert forall|x: int| #[trigger] pushed_targets(edges, n, d, k).contains(x) <==> (!d.contains(x) && exists|i: int|
            0 <= i < k && #[trigger] edges[i].0 == n && edges[i].1 == x) by {
            let p = pushed_targets(edges, n, d, k);
            if e.0 == n && !d.contains(e.1) {
                assert(p == seq![e.1] + rest);
                if p.contains(x) {
                    let m = choose|m: int| 0 <= m < p.len() && p[m] == x;
                    if m > 0 {
                        assert(rest[m - 1] == x);
                        assert(rest.contains(x));
                    } else {
                        assert(edges[k - 1].0 == n && edges[k - 1].1 == x);
                    }
                }
                if !d.contains(x) && exists|i: int| 0 <= i < k && #[trigger] edges[i].0 == n && edges[i].1 == x {
                    let i = choose|i: int| 0 <= i < k && #[trigger] edges[i].0 == n && edges[i].1 == x;
                    if i == k - 1 {
                        assert(p[0] == x);
                    } else {
                        assert(rest.contains(x));
                        let m = choose|m: int| 0 <= m < rest.len() && rest[m] == x;
                        assert(p[m + 1] == x);
                    }
                }
            } else {
                if !d.contains(x) && exists|i: int| 0 <= i < k && #[trigger] edges[i].0 == n && edges[i].1 == x {
                    let i = choose|i: int| 0 <= i < k && #[trigger] edges[i].0 == n && edges[i].1 == x;
                    assert(i != k - 1);
                }
            }
        }
    }
}

/// The views of a graph's edges.
pub open spec fn view_edges(raw: Seq<(int, int, InferenceSource)>) -> Seq<(int, int, SourceView)> {
    raw.map_values(|e: (int, int, InferenceSource)| (e.0, e.1, source_view(e.2)))
}

proof fn lemma_view_edges(raw: Seq<(int, int, InferenceSource)>)
    ensures
        view_edges(raw).len() == raw.len(),
        forall|i: int| 0 <= i < raw.len() ==> #[trigger] view_edges(raw)[i].0 == raw[i].0 && view_edges(raw)[i].1 == raw[i].1,
        forall|n: int| #[trigger] edges_within(raw, n) == edges_within(view_edges(raw), n),
{
    assert forall|n: int| #[trigger] edges_within(raw, n) == edges_within(view_edges(raw), n) by {
        if edges_within(view_edges(raw), n) {
            assert forall|i: int| 0 <= i < raw.len() implies 0 <= #[trigger] raw[i].0 < n && 0 <= raw[i].1 < n by {
                assert(view_edges(raw)[i].0 == raw[i].0);
            }
        }
        if edges_within(raw, n) {
            assert forall|i: int| 0 <= i < view_edges(raw).len() implies 0 <= #[trigger] view_edges(raw)[i].0 < n
                && 0 <= view_edges(raw)[i].1 < n by {
                assert(view_edges(raw)[i].0 == raw[i].0);
            }
        }
    }
}

/// The successors a step pushes are the same whether the edges are seen
/// with their weights or by their views.
proof fn lemma_pushed_same(raw: Seq<(int, int, InferenceSource)>, n: int, d: Set<int>, k: int)
    requires
        0 <= k <= raw.len(),
    ensures
        pushed_targets(raw, n, d, k) == pushed_targets(view_edges(raw), n, d, k),
    decreases k,
{
    lemma_view_edges(raw);
    if k > 0 {
        lemma_pushed_same(raw, n, d, k - 1);
    }
}

/// What one step of the walk gives in terms of the sets of nodes on the
/// stack: the node given out was pending and not discovered, and what is
/// pending afterwards is what was pending, or a successor of that node.
proof fn lemma_walk_next_sets(
    before: NodeWalk,
    after: NodeWalk,
    raw: Seq<(int, int, InferenceSource)>,
    edges: Seq<(int, int, SourceView)>,
    r: Option<int>,
)
    requires
        walk_stepped(before, after, raw, r),
        edges == view_edges(raw),
    ensures
        walk_limit(after) == walk_limit(before),
        match r {
            Some(k) => {
                let j = last_fresh(walk_stack(before), walk_discovered(before));
                &&& 0 <= j
                &&& k == walk_stack(before)[j]
                &&& walk_stack(after) == walk_stack(before).take(j) + pushed_targets(
                    edges,
                    k,
                    walk_discovered(before).insert(k),
                    edges.len() as int,
                )
            },
            None => last_fresh(walk_stack(before), walk_discovered(before)) < 0,
        },
        match r {
            Some(k) => {
                &&& walk_stack(before).contains(k)
                &&& !walk_discovered(before).contains(k)
                &&& walk_discovered(after) == walk_discovered(before).insert(k)
                &&& forall|x: int| #[trigger]
                    walk_stack(after).contains(x) ==> walk_stack(before).contains(x) || has_edge(edges, k, x)
                &&& forall|x: int|
                    !walk_discovered(after).contains(x) && (walk_stack(before).contains(x) || has_edge(edges, k, x))
                        ==> #[trigger] walk_stack(after).contains(x)
            },
            None => {
                &&& walk_discovered(after) == walk_discovered(before)
                &&& forall|x: int| #[trigger] walk_stack(before).contains(x) ==> walk_discovered(before).contains(x)
            },
        },
{
    let s = walk_stack(before);
    let d = walk_discovered(before);
    lemma_view_edges(raw);
    if let Some(k) = r {
        lemma_pushed_same(raw, k, d.insert(k), raw.len() as int);
    }
    lemma_last_fresh(s, d);
    let j = last_fresh(s, d);
    match r {
        Some(k) => {
            let d2 = d.insert(k);
            let p = pushed_targets(edges, k, d2, edges.len() as int);
            lemma_pushed_targets(edges, k, d2, edges.len() as int);
            let t = walk_stack(after);
            assert(s[j] == k);
            assert forall|x: int| #[trigger] t.contains(x) implies s.contains(x) || has_edge(edges, k, x) by {
                let m = choose|m: int| 0 <= m < t.len() && t[m] == x;
                if m < j {
                    assert(s[m] == x);
                } else {
                    assert(p[m - j] == x);
                    assert(p.contains(x));
                }
            }
            assert forall|x: int| !d2.contains(x) && (s.contains(x) || has_edge(edges, k, x)) implies #[trigger] t.contains(x) by {
                if s.contains(x) {
                    let m = choose|m: int| 0 <= m < s.len() && s[m] == x;
                    assert(m < j);
                    assert(t[m] == x);
                } else {
                    let i = choose|i: int| 0 <= i < edges.len() && #[trigger] edges[i].0 == k && edges[i].1 == x;
                    assert(p.contains(x));
                    let m = choose|m: int| 0 <= m < p.len() && p[m] == x;
                    assert(t[j + m] == x);
                }
            }
        },
        None => {
            assert forall|x: int| #[trigger] s.contains(x) implies d.contains(x) by {
                let m = choose|m: int| 0 <= m < s.len() && s[m] == x;
            }
        },
    }
}

impl View for TypeGraph {
    type V = TypeGraphView;

    closed spec fn view(&self) -> TypeGraphView {
        TypeGraphView {
            nodes: graph_nodes(self.graph).map_values(|n: TypeNode| node_view(n)),
            edges: view_edges(graph_edges(self.graph)),
            type_nodes: self.known_type_ids@.map_values(|ix: NodeIndex<u32>| node_ix(ix)),
            concrete: self.known_concrete_types@.map_values(
                |e: (ConcreteType, TypeId)| (e.0@, e.1.value()),
            ),
            current_type_id: self.current_type_id.value(),
            variables: self.variables@.map_values(|e: (ScopedId, NodeIndex<u32>)| (e.0@, node_ix(e.1))),
        }
    }
}

impl TypeGraph {
    /// The graph's tables agree with its nodes: every edge joins two nodes,
    /// each concrete type id's node holds that id, and each variable's node
    /// is a variable node for it.
    pub open spec fn wf(&self) -> bool {
        let v = self@;
        &&& edges_within(v.edges, v.nodes.len() as int)
        &&& forall|k: u64| #[trigger]
            v.type_nodes.contains_key(k) ==> 0 <= v.type_nodes[k] < v.nodes.len() && (v.nodes[v.type_nodes[k]] matches TypeNodeView::ConcreteType(t) && t.value() == k)
        &&& forall|i: int|
            0 <= i < v.variables.len() ==> 0 <= #[trigger] v.variables[i].1 < v.nodes.len() && (v.nodes[v.variables[i].1] matches TypeNodeView::VariableType(id) && id == v.variables[i].0)
    }

    proof fn lemma_view_parts(&self)
        ensures
            self@.variables.len() == self.variables@.len(),
            forall|i: int|
                0 <= i < self.variables@.len() ==> #[trigger] self@.variables[i] == (
                    self.variables@[i].0@,
                    node_ix(self.variables@[i].1),
                ),
            self@.concrete.len() == self.known_concrete_types@.len(),
            forall|i: int|
                0 <= i < self.known_concrete_types@.len() ==> #[trigger] self@.concrete[i] == (
                    self.known_concrete_types@[i].0@,
                    self.known_concrete_types@[i].1.value(),
                ),
    {
    }

    /// An empty graph; the first concrete type gets the id `0`.
    pub fn new() -> (g: TypeGraph)
        ensures
            g.wf(),
            g@.nodes.len() == 0,
            g@.edges.len() == 0,
            g@.type_nodes == Map::<u64, int>::empty(),
            g@.concrete.len() == 0,
            g@.current_type_id == 0,
            g@.variables.len() == 0,
    {
        let g = TypeGraph {
            graph: new_graph(),
            known_type_ids: HashMap::new(),
            known_concrete_types: Vec::new(),
            current_type_id: TypeId::default(),
            variables: Vec::new(),
        };
        assert(g@.type_nodes =~= Map::<u64, int>::empty());
        g
    }

    /// The id of a concrete type: the one it was given before, or else the
    /// next unused id, which is then recorded for it.
    pub fn id_type(&mut self, ty: &ConcreteType) -> (id: TypeId)
        requires
            old(self).wf(),
            old(self)@.current_type_id < u64::MAX,
        ensures
            final(self).wf(),
            final(self)@.nodes == old(self)@.nodes,
            final(self)@.edges == old(self)@.edges,
            final(self)@.type_nodes == old(self)@.type_nodes,
            final(self)@.variables == old(self)@.variables,
            match concrete_id(old(self)@.concrete, ty@) {
                Some(known) => {
                    &&& id.value() == known
                    &&& final(self)@.concrete == old(self)@.concrete
                    &&& final(self)@.current_type_id == old(self)@.current_type_id
                },
                None => {
                    &&& id.value() == old(self)@.current_type_id
                    &&& final(self)@.concrete == old(self)@.concrete.push((ty@, id.value()))
                    &&& final(self)@.current_type_id == old(self)@.current_type_id + 1
                },
            },
    {
        proof {
            self.lemma_view_parts();
            lemma_find_key(self@.concrete, ty@);
        }
        let n = self.known_concrete_types.len();
        let mut i: usize = 0;
        while i < n
            invariant
                n == self.known_concrete_types@.len(),
                i <= n,
                self@.concrete.len() == n,
                forall|j: int|
                    0 <= j < n ==> #[trigger] self@.concrete[j] == (
                        self.known_concrete_types@[j].0@,
                        self.known_concrete_types@[j].1.value(),
                    ),
                forall|j: int| 0 <= j < i ==> self@.concrete[j].0 != ty@,
                *self == *old(self),
                self.wf(),
            decreases n - i,
        {
            if self.known_concrete_types[i].0.same_as(ty) {
                let known = self.known_concrete_types[i].1;
                proof {
                    lemma_find_key_is(self@.concrete, ty@, i as int);
                }
                return known;
            }
            i += 1;
        }
        proof {
            lemma_find_key_none(self@.concrete, ty@);
        }
        let id = self.current_type_id;
        self.current_type_id.increment();
        self.known_concrete_types.push((ty.clone(), id));
        assert(self@.concrete =~= old(self)@.concrete.push((ty@, id.value())));
        id
    }

    /// The node of a concrete type id, made if there is none yet.
    pub fn add_concrete_type(&mut self, ty: TypeId) -> (ix: NodeIndex<u32>)
        requires
            old(self).wf(),
            old(self)@.nodes.len() < u32::MAX,
        ensures
            final(self).wf(),
            final(self)@.edges == old(self)@.edges,
            final(self)@.concrete == old(self)@.concrete,
            final(self)@.current_type_id == old(self)@.current_type_id,
            final(self)@.variables == old(self)@.variables,
            if old(self)@.type_nodes.contains_key(ty.value()) {
                &&& node_ix(ix) == old(self)@.type_nodes[ty.value()]
                &&& final(self)@.nodes == old(self)@.nodes
                &&& final(self)@.type_nodes == old(self)@.type_nodes
            } else {
                &&& node_ix(ix) == old(self)@.nodes.len()
                &&& final(self)@.nodes == old(self)@.nodes.push(TypeNodeView::ConcreteType(ty))
                &&& final(self)@.type_nodes == old(self)@.type_nodes.insert(ty.value(), node_ix(ix))
            },
    {
        broadcast use vstd::std_specs::hash::group_hash_axioms;

        let key = ty.number();
        match self.known_type_ids.get(&key) {
            Some(found) => {
                return *found;
            },
            None => {},
        }
        let new_ix = add_node(&mut self.graph, TypeNode::ConcreteType(ty));
        self.known_type_ids.insert(key, new_ix);
        proof {
            assert(self@.nodes =~= old(self)@.nodes.push(TypeNodeView::ConcreteType(ty)));
            assert(self@.type_nodes =~= old(self)@.type_nodes.insert(ty.value(), node_ix(new_ix)));
        }
        new_ix
    }

    /// The node of a variable, made if there is none yet.
    pub fn add_variable(&mut self, var: ScopedId) -> (ix: NodeIndex<u32>)
        requires
            old(self).wf(),
            old(self)@.nodes.len() < u32::MAX,
        ensures
            final(self).wf(),
            final(self)@.edges == old(self)@.edges,
            final(self)@.type_nodes == old(self)@.type_nodes,
            final(self)@.concrete == old(self)@.concrete,
            final(self)@.current_type_id == old(self)@.current_type_id,
            match assoc_get(old(self)@.variables, var@) {
                Some(known) => {
                    &&& node_ix(ix) == known
                    &&& final(self)@.nodes == old(self)@.nodes
                    &&& final(self)@.variables == old(self)@.variables
                },
                None => {
                    &&& node_ix(ix) == old(self)@.nodes.len()
                    &&& final(self)@.nodes == old(self)@.nodes.push(TypeNodeView::VariableType(var@))
                    &&& final(self)@.variables == old(self)@.variables.push((var@, node_ix(ix)))
                },
            },
    {
        match self.get_variable(&var) {
            Some(found) => found,
            None => {
                let key = var.clone();
                let new_ix = add_node(&mut self.graph, TypeNode::VariableType(var));
                self.variables.push((key, new_ix));
                proof {
                    assert(self@.nodes =~= old(self)@.nodes.push(TypeNodeView::VariableType(key@)));
                    assert(self@.variables =~= old(self)@.variables.push((key@, node_ix(new_ix))));
                }
                new_ix
            },
        }
    }

    /// The node of a variable, if it has one.
    pub fn get_variable(&self, var: &ScopedId) -> (r: Option<NodeIndex<u32>>)
        ensures
            match assoc_get(self@.variables, var@) {
                Some(known) => r matches Some(ix) && node_ix(ix) == known,
                None => r is None,
            },
    {
        proof {
            self.lemma_view_parts();
            lemma_find_key(self@.variables, var@);
        }
        let n = self.variables.len();
        let mut i: usize = 0;
        while i < n
            invariant
                n == self.variables@.len(),
                i <= n,
                self@.variables.len() == n,
                forall|j: int|
                    0 <= j < n ==> #[trigger] self@.variables[j] == (
                        self.variables@[j].0@,
                        node_ix(self.variables@[j].1),
                    ),
                forall|j: int| 0 <= j < i ==> self@.variables[j].0 != var@,
            decreases n - i,
        {
            if self.variables[i].0.same_as(var) {
                proof {
                    lemma_find_key_is(self@.variables, var@, i as int);
                }
                return Some(self.variables[i].1);
            }
            i += 1;
        }
        proof {
            lemma_find_key_none(self@.variables, var@);
        }
        None
    }

    /// A new node for the type of a temporary value of an expression.
    pub fn add_expression(&mut self) -> (ix: NodeIndex<u32>)
        requires
            old(self).wf(),
            old(self)@.nodes.len() < u32::MAX,
        ensures
            final(self).wf(),
            node_ix(ix) == old(self)@.nodes.len(),
            final(self)@ == (TypeGraphView { nodes: old(self)@.nodes.push(TypeNodeView::Expression), ..old(self)@ }),
    {
        let ix = add_node(&mut self.graph, TypeNode::Expression);
        assert(self@.nodes =~= old(self)@.nodes.push(TypeNodeView::Expression));
        assert(self@.type_nodes =~= old(self)@.type_nodes);
        assert(self@.variables =~= old(self)@.variables);
        ix
    }

    /// Records that the type of node `src` is inferred to be that of `dest`.
    pub fn add_inference(&mut self, src: NodeIndex<u32>, dest: NodeIndex<u32>, source: InferenceSource) -> (e: EdgeIndex<u32>)
        requires
            old(self).wf(),
            0 <= node_ix(src) < old(self)@.nodes.len(),
            0 <= node_ix(dest) < old(self)@.nodes.len(),
            old(self)@.edges.len() < u32::MAX,
        ensures
            final(self).wf(),
            final(self)@ == (TypeGraphView {
                edges: old(self)@.edges.push((node_ix(src), node_ix(dest), source_view(source))),
                ..old(self)@
            }),
            edge_ix(e) == old(self)@.edges.len(),
    {
        let ghost raw = graph_edges(self.graph);
        let ghost sv = source_view(source);
        let e = add_edge(&mut self.graph, src, dest, source);
        assert(view_edges(graph_edges(self.graph)) =~= view_edges(raw).push((node_ix(src), node_ix(dest), sv)));
        e
    }

    /// The type that a variable is inferred to have: the first concrete
    /// type that a depth-first walk from the variable's node comes to
    /// (`first_concrete`). An edge from the variable's node to that type's
    /// node records the inference. With no concrete type reachable,
    /// nothing changes.
    pub fn infer_type_of_var(&mut self, var: &ScopedId) -> (r: Option<TypeId>)
        requires
            old(self).wf(),
            assoc_contains(old(self)@.variables, var@),
            old(self)@.edges.len() < u32::MAX,
        ensures
            final(self).wf(),
            match r {
                Some(t) => {
                    let start = assoc_get(old(self)@.variables, var@).unwrap();
                    &&& first_concrete(old(self)@, start) matches Some(k) && 0 <= k < old(self)@.nodes.len()
                        && reaches(old(self)@.edges, start, k) && old(self)@.nodes[k] == TypeNodeView::ConcreteType(
                        t,
                    ) && final(self)@ == (TypeGraphView {
                        edges: old(self)@.edges.push((start, k, SourceView::Inferred)),
                        ..old(self)@
                    })
                },
                None => {
                    let start = assoc_get(old(self)@.variables, var@).unwrap();
                    &&& first_concrete(old(self)@, start) is None
                    &&& final(self)@ == old(self)@
                    &&& forall|k: int|
                        0 <= k < old(self)@.nodes.len() && reaches(old(self)@.edges, start, k)
                            ==> !(#[trigger] old(self)@.nodes[k] is ConcreteType)
                },
            },
    {
        proof {
            self.lemma_view_parts();
            lemma_find_key(self@.variables, var@);
        }
        let var_ix = match self.get_variable(var) {
            Some(ix) => ix,
            None => {
                return None;
            },
        };
        let ghost start = node_ix(var_ix);
        let ghost nodes = self@.nodes;
        let ghost edges = self@.edges;
        let ghost n = nodes.len() as int;
        let mut walk = walk_from(&self.graph, var_ix);
        proof {
            lemma_walk_begins(walk, edges, nodes, start);
        }
        loop
            invariant
                self@ == old(self)@,
                self.wf(),
                nodes == self@.nodes,
                edges == self@.edges,
                n == nodes.len(),
                edges.len() < u32::MAX,
                assoc_get(old(self)@.variables, var@) == Some(start),
                node_ix(var_ix) == start,
                walk_inv(walk, edges, nodes, start),
                walk_discovered(walk).len() <= n,
                first_concrete(old(self)@, start) == dfs_first(
                    nodes,
                    edges,
                    walk_stack(walk),
                    walk_discovered(walk),
                    (n + 1 - walk_discovered(walk).len()) as nat,
                ),
            decreases n - walk_discovered(walk).len(),
        {
            let ghost before = walk;
            proof {
                lemma_walk_inv_facts(walk, edges, nodes, start);
            }
            proof {
                lemma_view_edges(graph_edges(self.graph));
                assert(edges_within(graph_edges(self.graph), n));
            }
            let next = walk_next(&mut walk, &self.graph);
            proof {
                lemma_walk_next_sets(before, walk, graph_edges(self.graph), edges, match next {
                    Some(ix) => Some(node_ix(ix)),
                    None => None,
                });
            }
            match next {
                Some(next_ix) => {
                    proof {
                        lemma_walk_inv_facts(before, edges, nodes, start);
                        assert(walk_stack(before).contains(node_ix(next_ix)));
                    }
                    let node = node_weight(&self.graph, next_ix);
                    assert(nodes[node_ix(next_ix)] == node_view(*node));
                    match node {
                        TypeNode::ConcreteType(ty_id) => {
                            let t = *ty_id;
                            proof {
                                lemma_walk_reaches(before, edges, nodes, start, node_ix(next_ix));
                            }
                            let ghost raw = graph_edges(self.graph);
                            add_edge(&mut self.graph, var_ix, next_ix, InferenceSource::Inferred);
                            assert(view_edges(graph_edges(self.graph)) =~= view_edges(raw).push(
                                (start, node_ix(next_ix), SourceView::Inferred),
                            ));
                            return Some(t);
                        },
                        _ => {
                            proof {
                                lemma_walk_step(before, walk, edges, nodes, start, node_ix(next_ix));
                            }
                        },
                    }
                },
                None => {
                    proof {
                        lemma_walk_ends(before, edges, nodes, start);
                    }
                    return None;
                },
            }
        }
    }
}

impl Default for TypeGraph {
    /// An empty graph.
    fn default() -> (g: TypeGraph)
        ensures
            g.wf(),
            g@.nodes.len() == 0,
            g@.edges.len() == 0,
            g@.type_nodes == Map::<u64, int>::empty(),
            g@.concrete.len() == 0,
            g@.current_type_id == 0,
            g@.variables.len() == 0,
    {
        TypeGraph::new()
    }
}

/// A concrete type keeps the id it was first given: recording a new type
/// gives it the new id, and recording any type leaves the id of every type
/// already recorded.
pub proof fn law_identified_type_keeps_id(
    entries: Seq<(ConcreteTypeView, u64)>,
    t: ConcreteTypeView,
    id: u64,
    other: ConcreteTypeView,
)
    ensures
        concrete_id(entries, t) is None ==> concrete_id(entries.push((t, id)), t) == Some(id),
        concrete_id(entries, other) is Some ==> concrete_id(entries.push((t, id)), other)
            == concrete_id(entries, other),
{
    lemma_find_key(entries, t);
    lemma_find_key(entries, other);
    let pushed = entries.push((t, id));
    if concrete_id(entries, t) is None {
        lemma_find_key_is(pushed, t, entries.len() as int);
    }
    if let Some(j) = find_key(entries, other) {
        lemma_find_key_is(pushed, other, j);
    }
}

} // verus!

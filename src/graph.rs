//! Trusted access to `daggy::Dag`, the graph that holds each function DAG.
//!
//! Node weights are function ids; edge weights are data volumes in fixed-point units.
use daggy::Walker;
use vstd::prelude::*;

verus! {

/// The largest node or edge count that a `Dag` with the default `u32` index can hold
/// without reaching petgraph's reserved end index.
pub const GRAPH_INDEX_LIMIT: usize = 0xffff_fffe;

/// A function DAG's graph: a `daggy::Dag` that Verus sees only through
/// `graph_nodes` and `graph_edges`.
#[verifier::external_body]
pub struct FnDagInner {
    inner: daggy::Dag<usize, u64>,
}

/// The node weights of a graph, in node-index order.
pub uninterp spec fn graph_nodes(d: FnDagInner) -> Seq<usize>;

/// The edges of a graph as `(source, target, weight)`, in edge-index order.
pub uninterp spec fn graph_edges(d: FnDagInner) -> Seq<(usize, usize, u64)>;

/// `edges` holds an edge from `a` to `b`.
pub open spec fn has_edge(edges: Seq<(usize, usize, u64)>, a: usize, b: usize) -> bool {
    exists|k: int| 0 <= k < edges.len() && (#[trigger] edges[k]).0 == a && edges[k].1 == b
}

/// `p` is a walk along the edges of `edges`.
pub open spec fn is_walk(edges: Seq<(usize, usize, u64)>, p: Seq<usize>) -> bool {
    &&& p.len() >= 1
    &&& forall|i: int| 0 <= i < p.len() - 1 ==> has_edge(edges, #[trigger] p[i], p[i + 1])
}

/// There is a walk (possibly empty) from `x` to `y`.
pub open spec fn reaches(edges: Seq<(usize, usize, u64)>, x: usize, y: usize) -> bool {
    exists|p: Seq<usize>| is_walk(edges, p) && p[0] == x && p[p.len() - 1] == y
}

/// Number of edges of `edges` that start at `v`.
pub open spec fn out_degree(edges: Seq<(usize, usize, u64)>, v: usize) -> nat {
    edges.filter(|e: (usize, usize, u64)| e.0 == v).len()
}

/// Number of edges of `edges` that end at `v`.
pub open spec fn in_degree(edges: Seq<(usize, usize, u64)>, v: usize) -> nat {
    edges.filter(|e: (usize, usize, u64)| e.1 == v).len()
}

/// Relies on `daggy::Dag::new`: a new graph has no nodes and no edges.
#[verifier::external_body]
pub(crate) fn graph_new() -> (r: FnDagInner)
    ensures
        graph_nodes(r) == Seq::<usize>::empty(),
        graph_edges(r) == Seq::<(usize, usize, u64)>::empty(),
{
    FnDagInner { inner: daggy::Dag::new() }
}

/// Relies on `daggy::Dag::add_node`: the node is appended and its index returned.
#[verifier::external_body]
pub(crate) fn graph_add_node(d: &mut FnDagInner, w: usize) -> (r: usize)
    requires
        graph_nodes(*old(d)).len() < GRAPH_INDEX_LIMIT,
    ensures
        r == graph_nodes(*old(d)).len(),
        graph_nodes(*final(d)) == graph_nodes(*old(d)).push(w),
        graph_edges(*final(d)) == graph_edges(*old(d)),
{
    d.inner.add_node(w).index()
}

/// Relies on `daggy::Dag::add_child`: a new node and an edge from `parent` to it are appended.
#[verifier::external_body]
pub(crate) fn graph_add_child(d: &mut FnDagInner, parent: usize, e: u64, w: usize) -> (r: usize)
    requires
        parent < graph_nodes(*old(d)).len(),
        graph_nodes(*old(d)).len() < GRAPH_INDEX_LIMIT,
        graph_edges(*old(d)).len() < GRAPH_INDEX_LIMIT,
    ensures
        r == graph_nodes(*old(d)).len(),
        graph_nodes(*final(d)) == graph_nodes(*old(d)).push(w),
        graph_edges(*final(d)) == graph_edges(*old(d)).push((parent, r, e)),
{
    d.inner.add_child(daggy::NodeIndex::new(parent), e, w).1.index()
}

/// Relies on `daggy::Dag::add_edge`: the edge `a -> b` is appended unless `a` is
/// reachable from `b` (which includes `a == b`), in which case the graph is unchanged.
#[verifier::external_body]
pub(crate) fn graph_add_edge(d: &mut FnDagInner, a: usize, b: usize, e: u64) -> (r: bool)
    requires
        a < graph_nodes(*old(d)).len(),
        b < graph_nodes(*old(d)).len(),
        graph_edges(*old(d)).len() < GRAPH_INDEX_LIMIT,
    ensures
        r == !reaches(graph_edges(*old(d)), b, a),
        graph_nodes(*final(d)) == graph_nodes(*old(d)),
        r ==> graph_edges(*final(d)) == graph_edges(*old(d)).push((a, b, e)),
        !r ==> graph_edges(*final(d)) == graph_edges(*old(d)),
{
    d.inner.add_edge(daggy::NodeIndex::new(a), daggy::NodeIndex::new(b), e).is_ok()
}

/// Relies on `daggy::Dag::node_count`.
#[verifier::external_body]
pub(crate) fn graph_node_count(d: &FnDagInner) -> (r: usize)
    ensures
        r == graph_nodes(*d).len(),
{
    d.inner.node_count()
}

/// Relies on `daggy::Dag::edge_count`.
#[verifier::external_body]
pub(crate) fn graph_edge_count(d: &FnDagInner) -> (r: usize)
    ensures
        r == graph_edges(*d).len(),
{
    d.inner.edge_count()
}

/// Relies on `daggy::Dag::node_weight`: the weight of the node at `i`.
#[verifier::external_body]
pub(crate) fn graph_node_weight(d: &FnDagInner, i: usize) -> (r: usize)
    requires
        i < graph_nodes(*d).len(),
    ensures
        r == graph_nodes(*d)[i as int],
{
    *d.inner.node_weight(daggy::NodeIndex::new(i)).unwrap()
}

/// Relies on `daggy::Dag::parents`: the sources of the edges that end at `i`, one entry per edge.
#[verifier::external_body]
pub(crate) fn graph_parents(d: &FnDagInner, i: usize) -> (r: Vec<usize>)
    requires
        i < graph_nodes(*d).len(),
    ensures
        r@.len() == in_degree(graph_edges(*d), i),
        forall|k: int| 0 <= k < r@.len() ==> has_edge(graph_edges(*d), #[trigger] r@[k], i),
        forall|j: int|
            0 <= j < graph_edges(*d).len() && (#[trigger] graph_edges(*d)[j]).1 == i ==> r@.contains(graph_edges(*d)[j].0),
{
    d.inner.parents(daggy::NodeIndex::new(i)).iter(&d.inner).map(|(_, n)| n.index()).collect()
}

/// Relies on `daggy::Dag::children`: the targets of the edges that start at `i`, one entry per edge.
#[verifier::external_body]
pub(crate) fn graph_children(d: &FnDagInner, i: usize) -> (r: Vec<usize>)
    requires
        i < graph_nodes(*d).len(),
    ensures
        r@.len() == out_degree(graph_edges(*d), i),
        forall|k: int| 0 <= k < r@.len() ==> has_edge(graph_edges(*d), i, #[trigger] r@[k]),
        forall|j: int|
            0 <= j < graph_edges(*d).len() && (#[trigger] graph_edges(*d)[j]).0 == i ==> r@.contains(graph_edges(*d)[j].1),
{
    d.inner.children(daggy::NodeIndex::new(i)).iter(&d.inner).map(|(_, n)| n.index()).collect()
}

/// Relies on `daggy::Dag::raw_edges`: every edge, in edge-index order.
#[verifier::external_body]
pub(crate) fn graph_edge_list(d: &FnDagInner) -> (r: Vec<(usize, usize, u64)>)
    ensures
        r@ == graph_edges(*d),
{
    d.inner.raw_edges().iter().map(|e| (e.source().index(), e.target().index(), e.weight)).collect()
}

/// Relies on `daggy::petgraph::visit::Topo` walked over the graph: every node once, and
/// no edge leads from a later node back to an earlier one.
#[verifier::external_body]
pub(crate) fn graph_topo_order(d: &FnDagInner) -> (r: Vec<usize>)
    ensures
        r@.len() == graph_nodes(*d).len(),
        forall|k: int| 0 <= k < r@.len() ==> #[trigger] r@[k] < graph_nodes(*d).len(),
        forall|k: int, j: int| 0 <= k < j < r@.len() ==> (#[trigger] r@[k]) != (#[trigger] r@[j]),
        forall|k: int, j: int| 0 <= k < j < r@.len() ==> !has_edge(graph_edges(*d), #[trigger] r@[j], #[trigger] r@[k]),
{
    let topo = daggy::petgraph::visit::Topo::new(&d.inner);
    Walker::iter(topo, &d.inner).map(|n| n.index()).collect()
}

} // verus!

//! Topological sorting of a directed graph, by petgraph.
use vstd::prelude::*;
use vstd::multiset::Multiset;
use petgraph::Graph;
use petgraph::graph::NodeIndex;
use petgraph::algo::toposort;

verus! {

#[verifier::external_type_specification]
#[verifier::external_body]
#[verifier::reject_recursive_types(N)]
#[verifier::reject_recursive_types(E)]
#[verifier::reject_recursive_types(Ty)]
#[verifier::reject_recursive_types(Ix)]
pub struct ExGraph<N, E, Ty, Ix>(Graph<N, E, Ty, Ix>);

#[verifier::external_type_specification]
#[verifier::external_body]
pub struct ExDirected(petgraph::Directed);

/// The number of vertices of a petgraph graph.
pub uninterp spec fn vertex_count(g: Graph<(), ()>) -> nat;

/// The arcs of a petgraph graph, as (source, target) vertex index pairs.
pub uninterp spec fn arcs(g: Graph<(), ()>) -> Multiset<(int, int)>;

/// The largest index that petgraph's default index type can hand out, plus one.
pub const INDEX_END: usize = 4294967295;

/// `order` lists each of the `n` vertices once, each before the targets of its arcs.
pub open spec fn is_topological_order(order: Seq<usize>, n: nat, arcs: Multiset<(int, int)>) -> bool {
    &&& order.len() == n
    &&& order.no_duplicates()
    &&& forall|i: int| 0 <= i < order.len() ==> order[i] < n
    &&& forall|i: int, j: int|
        0 <= i < order.len() && 0 <= j < order.len() && arcs.count((order[i] as int, order[j] as int))
            > 0 ==> i < j
}

/// Relies on petgraph's `Graph::new`: a directed graph without vertices or arcs.
#[verifier::external_body]
pub(crate) fn empty_digraph() -> (g: Graph<(), ()>)
    ensures
        vertex_count(g) == 0,
        arcs(g) == Multiset::<(int, int)>::empty(),
{
    Graph::new()
}

/// Relies on petgraph's `Graph::add_node`: the new vertex gets the next index,
/// and the call panics when that index would be `NodeIndex::end()`.
#[verifier::external_body]
pub(crate) fn add_vertex(g: &mut Graph<(), ()>) -> (r: usize)
    requires
        vertex_count(*old(g)) < INDEX_END,
    ensures
        r == vertex_count(*old(g)),
        vertex_count(*final(g)) == vertex_count(*old(g)) + 1,
        arcs(*final(g)) == arcs(*old(g)),
{
    g.add_node(()).index()
}

/// Relies on petgraph's `Graph::add_edge`: one more arc from `a` to `b`; the call
/// panics on a vertex that is not in the graph, and when the arc index would be
/// `EdgeIndex::end()`.
#[verifier::external_body]
pub(crate) fn add_arc(g: &mut Graph<(), ()>, a: usize, b: usize)
    requires
        a < vertex_count(*old(g)),
        b < vertex_count(*old(g)),
        arcs(*old(g)).len() < INDEX_END,
    ensures
        vertex_count(*final(g)) == vertex_count(*old(g)),
        arcs(*final(g)) == arcs(*old(g)).insert((a as int, b as int)),
{
    g.add_edge(NodeIndex::new(a), NodeIndex::new(b), ());
}

/// Relies on petgraph's `algo::toposort`: on success every vertex once, each
/// before its successors; an error (a `Cycle`) when the graph has a cycle, self
/// loops included, that is when no such order exists.
#[verifier::external_body]
pub(crate) fn topological_sort(g: &Graph<(), ()>) -> (r: Option<Vec<usize>>)
    ensures
        match r {
            Some(order) => is_topological_order(order@, vertex_count(*g), arcs(*g)),
            None => !exists|s: Seq<usize>| is_topological_order(s, vertex_count(*g), arcs(*g)),
        },
{
    match toposort(g, None) {
        Ok(order) => Some(order.into_iter().map(|n| n.index()).collect()),
        Err(_) => None,
    }
}

} // verus!

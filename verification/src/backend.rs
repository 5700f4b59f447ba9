//! `petgraph`'s `Graph` as a graph that can be scored.
//!
//! Graphs with `u32` edge weights, no node weights and the default index
//! type are taken as they are, directed or undirected. A node is named by
//! its index.
use vstd::prelude::*;
use petgraph::graph::Graph;
use petgraph::Directed;
use petgraph::Undirected;
use crate::graph::Edge;
use crate::graph::ModularityComputable;

verus! {

/// `petgraph::graph::Graph`, taken as an opaque value.
#[verifier::external_type_specification]
#[verifier::external_body]
#[verifier::reject_recursive_types(N)]
#[verifier::reject_recursive_types(E)]
#[verifier::reject_recursive_types(Ty)]
#[verifier::reject_recursive_types(Ix)]
pub struct ExGraph<N, E, Ty, Ix>(petgraph::graph::Graph<N, E, Ty, Ix>);

/// `petgraph::Directed`, the marker of graphs with directed edges.
#[verifier::external_type_specification]
#[verifier::external_body]
pub struct ExDirected(petgraph::Directed);

/// `petgraph::Undirected`, the marker of graphs with undirected edges.
#[verifier::external_type_specification]
#[verifier::external_body]
pub struct ExUndirected(petgraph::Undirected);

/// The number of nodes that a directed graph holds.
pub uninterp spec fn directed_nodes(g: Graph<(), u32, Directed, u32>) -> nat;

/// The edges that a directed graph holds, in the order of their indices.
pub uninterp spec fn directed_edges(g: Graph<(), u32, Directed, u32>) -> Seq<Edge>;

/// The number of nodes that an undirected graph holds.
pub uninterp spec fn undirected_nodes(g: Graph<(), u32, Undirected, u32>) -> nat;

/// The edges that an undirected graph holds, in the order of their
/// indices.
pub uninterp spec fn undirected_edges(g: Graph<(), u32, Undirected, u32>) -> Seq<Edge>;

/// `Graph::node_count`: the length of the graph's node array.
#[verifier::external_body]
fn directed_node_count(g: &Graph<(), u32, Directed, u32>) -> (n: usize)
    ensures
        n == directed_nodes(*g),
{
    g.node_count()
}

/// `Graph::edge_count`: the length of the graph's edge array.
#[verifier::external_body]
fn directed_edge_count(g: &Graph<(), u32, Directed, u32>) -> (n: usize)
    ensures
        n == directed_edges(*g).len(),
{
    g.edge_count()
}

/// `Graph::is_directed`: true of a graph whose edge type is `Directed`.
#[verifier::external_body]
fn directed_is_directed(g: &Graph<(), u32, Directed, u32>) -> (d: bool)
    ensures
        d,
{
    g.is_directed()
}

/// `Graph::raw_edges`, read at position `i` with `Edge::source`,
/// `Edge::target`, `NodeIndex::index` and the field `weight`. Both ends
/// are claimed to be node indices: the graph refuses an edge between
/// nodes that it does not hold, and removing a node removes its edges.
#[verifier::external_body]
fn directed_edge(g: &Graph<(), u32, Directed, u32>, i: usize) -> (e: Edge)
    requires
        i < directed_edges(*g).len(),
    ensures
        e == directed_edges(*g)[i as int],
        e.source < directed_nodes(*g),
        e.target < directed_nodes(*g),
{
    let raw = &g.raw_edges()[i];
    Edge { source: raw.source().index(), target: raw.target().index(), weight: raw.weight }
}

/// `Graph::node_count`: the length of the graph's node array.
#[verifier::external_body]
fn undirected_node_count(g: &Graph<(), u32, Undirected, u32>) -> (n: usize)
    ensures
        n == undirected_nodes(*g),
{
    g.node_count()
}

/// `Graph::edge_count`: the length of the graph's edge array.
#[verifier::external_body]
fn undirected_edge_count(g: &Graph<(), u32, Undirected, u32>) -> (n: usize)
    ensures
        n == undirected_edges(*g).len(),
{
    g.edge_count()
}

/// `Graph::is_directed`: false of a graph whose edge type is `Undirected`.
#[verifier::external_body]
fn undirected_is_directed(g: &Graph<(), u32, Undirected, u32>) -> (d: bool)
    ensures
        !d,
{
    g.is_directed()
}

/// `Graph::raw_edges`, read at position `i` with `Edge::source`,
/// `Edge::target`, `NodeIndex::index` and the field `weight`. Both ends
/// are claimed to be node indices: the graph refuses an edge between
/// nodes that it does not hold, and removing a node removes its edges.
#[verifier::external_body]
fn undirected_edge(g: &Graph<(), u32, Undirected, u32>, i: usize) -> (e: Edge)
    requires
        i < undirected_edges(*g).len(),
    ensures
        e == undirected_edges(*g)[i as int],
        e.source < undirected_nodes(*g),
        e.target < undirected_nodes(*g),
{
    let raw = &g.raw_edges()[i];
    Edge { source: raw.source().index(), target: raw.target().index(), weight: raw.weight }
}

impl ModularityComputable for Graph<(), u32, Directed, u32> {
    open spec fn nodes(&self) -> nat {
        directed_nodes(*self)
    }

    open spec fn directed(&self) -> bool {
        true
    }

    open spec fn edges(&self) -> Seq<Edge> {
        directed_edges(*self)
    }

    fn node_count(&self) -> (n: usize) {
        directed_node_count(self)
    }

    fn is_directed(&self) -> (d: bool) {
        directed_is_directed(self)
    }

    fn edge_count(&self) -> (n: usize) {
        directed_edge_count(self)
    }

    fn edge(&self, i: usize) -> (e: Edge) {
        directed_edge(self, i)
    }
}

impl ModularityComputable for Graph<(), u32, Undirected, u32> {
    open spec fn nodes(&self) -> nat {
        undirected_nodes(*self)
    }

    open spec fn directed(&self) -> bool {
        false
    }

    open spec fn edges(&self) -> Seq<Edge> {
        undirected_edges(*self)
    }

    fn node_count(&self) -> (n: usize) {
        undirected_node_count(self)
    }

    fn is_directed(&self) -> (d: bool) {
        undirected_is_directed(self)
    }

    fn edge_count(&self) -> (n: usize) {
        undirected_edge_count(self)
    }

    fn edge(&self, i: usize) -> (e: Edge) {
        undirected_edge(self, i)
    }
}

} // verus!

//! The read-only view of a graph that the scoring code works on.
use vstd::prelude::*;

verus! {

/// One edge: the dense indices of its endpoints and its weight.
#[derive(Clone, Copy, Debug)]
pub struct Edge {
    pub source: usize,
    pub target: usize,
    pub weight: u32,
}

/// What a graph has to offer to be scored: its node count, whether it is
/// directed, and its edges by position. Nodes are the dense indices
/// `0..nodes()`, and each edge it hands out joins two of them.
pub trait ModularityComputable {
    /// The number of nodes.
    spec fn nodes(&self) -> nat;

    /// Whether an edge leads from its source to its target only.
    spec fn directed(&self) -> bool;

    /// The edges, in the order in which `edge` hands them out.
    spec fn edges(&self) -> Seq<Edge>;

    fn node_count(&self) -> (n: usize)
        ensures
            n == self.nodes(),
    ;

    fn is_directed(&self) -> (d: bool)
        ensures
            d == self.directed(),
    ;

    fn edge_count(&self) -> (n: usize)
        ensures
            n == self.edges().len(),
    ;

    fn edge(&self, i: usize) -> (e: Edge)
        requires
            i < self.edges().len(),
        ensures
            e == self.edges()[i as int],
            e.source < self.nodes(),
            e.target < self.nodes(),
    ;
}

/// Every edge of `g` joins two of its nodes.
pub open spec fn valid_graph<G: ModularityComputable>(g: &G) -> bool {
    forall|i: int|
        0 <= i < g.edges().len() ==> (#[trigger] g.edges()[i]).source < g.nodes()
            && g.edges()[i].target < g.nodes()
}

/// A graph kept as a plain list of edges.
pub struct EdgeListGraph {
    node_count: usize,
    directed: bool,
    edges: Vec<Edge>,
}

impl EdgeListGraph {
    #[verifier::type_invariant]
    spec fn edges_in_range(self) -> bool {
        forall|i: int|
            0 <= i < self.edges@.len() ==> (#[trigger] self.edges@[i]).source < self.node_count
                && self.edges@[i].target < self.node_count
    }
}

impl ModularityComputable for EdgeListGraph {
    closed spec fn nodes(&self) -> nat {
        self.node_count as nat
    }

    closed spec fn directed(&self) -> bool {
        self.directed
    }

    closed spec fn edges(&self) -> Seq<Edge> {
        self.edges@
    }

    fn node_count(&self) -> (n: usize) {
        self.node_count
    }

    fn is_directed(&self) -> (d: bool) {
        self.directed
    }

    fn edge_count(&self) -> (n: usize) {
        self.edges.len()
    }

    fn edge(&self, i: usize) -> (e: Edge) {
        proof {
            use_type_invariant(self);
        }
        self.edges[i]
    }
}

impl EdgeListGraph {
    /// Builds the graph, or gives `None` where an edge names a node that
    /// is not among the `node_count` nodes.
    pub fn new(node_count: usize, directed: bool, edges: Vec<Edge>) -> (r: Option<EdgeListGraph>)
        ensures
            r is Some <==> forall|i: int|
                0 <= i < edges@.len() ==> (#[trigger] edges@[i]).source < node_count
                    && edges@[i].target < node_count,
            r is Some ==> {
                let g = r->Some_0;
                &&& g.nodes() == node_count
                &&& g.directed() == directed
                &&& g.edges() == edges@
                &&& valid_graph(&g)
            },
    {
        let mut i: usize = 0;
        while i < edges.len()
            invariant
                i <= edges@.len(),
                forall|k: int|
                    0 <= k < i ==> (#[trigger] edges@[k]).source < node_count && edges@[k].target
                        < node_count,
            decreases edges@.len() - i,
        {
            if edges[i].source >= node_count || edges[i].target >= node_count {
                return None;
            }
            i += 1;
        }
        Some(EdgeListGraph { node_count, directed, edges })
    }
}

} // verus!

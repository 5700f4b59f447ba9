//! The edge weight that each community holds inside itself, sends out and
//! takes in.
use vstd::prelude::*;
use crate::graph::Edge;
use crate::graph::ModularityComputable;
use crate::partition::Partition;

verus! {

/// The three sums kept for each community.
pub enum Tally {
    /// Weight of the edges with both ends in the community.
    Internal,
    /// Weight of the edges that start in the community; where the graph is
    /// undirected, also of those that end in it.
    Outgoing,
    /// Weight of the edges that end in the community.
    Incoming,
}

/// What edge `e` adds to the sum `kind` of community `c`.
pub open spec fn edge_share(kind: Tally, e: Edge, labels: Seq<usize>, directed: bool, c: int) -> nat {
    let from = labels[e.source as int] == c;
    let to = labels[e.target as int] == c;
    let w = e.weight as nat;
    match kind {
        Tally::Internal => if from && to {
            w
        } else {
            0
        },
        Tally::Outgoing => (if from {
            w
        } else {
            0
        }) + (if !directed && to {
            w
        } else {
            0
        }),
        Tally::Incoming => if to {
            w
        } else {
            0
        },
    }
}

/// The sum `kind` of community `c` over `edges`.
pub open spec fn community_weight(
    kind: Tally,
    edges: Seq<Edge>,
    labels: Seq<usize>,
    directed: bool,
    c: int,
) -> nat
    decreases edges.len(),
{
    if edges.len() == 0 {
        0
    } else {
        community_weight(kind, edges.drop_last(), labels, directed, c) + edge_share(
            kind,
            edges.last(),
            labels,
            directed,
            c,
        )
    }
}

/// Taking one more edge into account adds that edge's share.
pub proof fn lemma_weight_step(
    kind: Tally,
    edges: Seq<Edge>,
    labels: Seq<usize>,
    directed: bool,
    c: int,
    i: int,
)
    requires
        0 <= i < edges.len(),
    ensures
        community_weight(kind, edges.take(i + 1), labels, directed, c) == community_weight(
            kind,
            edges.take(i),
            labels,
            directed,
            c,
        ) + edge_share(kind, edges[i], labels, directed, c),
{
    assert(edges.take(i + 1).drop_last() == edges.take(i));
    assert(edges.take(i + 1).last() == edges[i]);
}

/// The per-community sums of one partition.
pub struct PartitionEdgeWeights {
    pub internal: Vec<u128>,
    pub outgoing: Vec<u128>,
    /// Kept for directed graphs only.
    pub incoming: Option<Vec<u128>>,
}

/// `sums` holds the sum `kind` of each of the `k` communities.
pub open spec fn holds_weights(
    sums: Seq<u128>,
    kind: Tally,
    edges: Seq<Edge>,
    labels: Seq<usize>,
    directed: bool,
    k: nat,
) -> bool {
    &&& sums.len() == k
    &&& forall|c: int|
        0 <= c < k ==> (#[trigger] sums[c]) == community_weight(kind, edges, labels, directed, c)
}

/// A vector of `k` zeros.
fn zeros(k: usize) -> (v: Vec<u128>)
    ensures
        v@.len() == k,
        forall|c: int| 0 <= c < k ==> (#[trigger] v@[c]) == 0,
{
    let mut v: Vec<u128> = Vec::new();
    let mut c: usize = 0;
    while c < k
        invariant
            c <= k,
            v@.len() == c,
            forall|d: int| 0 <= d < c ==> (#[trigger] v@[d]) == 0,
        decreases k - c,
    {
        v.push(0);
        c += 1;
    }
    v
}

impl<'g, G: ModularityComputable> Partition<'g, G> {
    /// Walks the edges once and adds each edge's weight to the sums of the
    /// communities of its two ends.
    pub fn partition_edge_weights(&self) -> (w: PartitionEdgeWeights)
        requires
            self.well_formed(),
        ensures
            holds_weights(
                w.internal@,
                Tally::Internal,
                self.graph().edges(),
                self.labels(),
                self.graph().directed(),
                self.subset_count(),
            ),
            holds_weights(
                w.outgoing@,
                Tally::Outgoing,
                self.graph().edges(),
                self.labels(),
                self.graph().directed(),
                self.subset_count(),
            ),
            w.incoming is Some <==> self.graph().directed(),
            w.incoming is Some ==> holds_weights(
                w.incoming->Some_0@,
                Tally::Incoming,
                self.graph().edges(),
                self.labels(),
                self.graph().directed(),
                self.subset_count(),
            ),
    {
        let graph = self.graph_ref();
        let k = self.subset_total();
        let directed = graph.is_directed();
        let mut internal = zeros(k);
        let mut outgoing = zeros(k);
        let mut incoming = if directed {
            zeros(k)
        } else {
            Vec::new()
        };
        let m = graph.edge_count();
        let ghost edges = graph.edges();
        let ghost labels = self.labels();
        let mut i: usize = 0;
        while i < m
            invariant
                self.well_formed(),
                graph == self.graph(),
                edges == graph.edges(),
                labels == self.labels(),
                directed == graph.directed(),
                k == self.subset_count(),
                m == edges.len(),
                i <= m,
                holds_weights(internal@, Tally::Internal, edges.take(i as int), labels, directed, k as nat),
                holds_weights(outgoing@, Tally::Outgoing, edges.take(i as int), labels, directed, k as nat),
                directed ==> holds_weights(
                    incoming@,
                    Tally::Incoming,
                    edges.take(i as int),
                    labels,
                    directed,
                    k as nat,
                ),
                forall|c: int| 0 <= c < k ==> (#[trigger] internal@[c]) <= i * 0xFFFF_FFFF,
                forall|c: int| 0 <= c < k ==> (#[trigger] outgoing@[c]) <= 2 * i * 0xFFFF_FFFF,
                forall|c: int|
                    directed && 0 <= c < k ==> (#[trigger] incoming@[c]) <= i * 0xFFFF_FFFF,
            decreases m - i,
        {
            let edge = graph.edge(i);
            assert(edge == edges[i as int]);
            let c_a = self.get_subset_id(edge.source);
            let c_b = self.get_subset_id(edge.target);
            let w: u128 = edge.weight.into();
            proof {
                assert forall|c: int| 0 <= c < k implies community_weight(
                    Tally::Internal,
                    edges.take(i + 1),
                    labels,
                    directed,
                    c,
                ) == internal@[c] + edge_share(Tally::Internal, edge, labels, directed, c)
                    && community_weight(Tally::Outgoing, edges.take(i + 1), labels, directed, c)
                    == outgoing@[c] + edge_share(Tally::Outgoing, edge, labels, directed, c)
                    && (directed ==> community_weight(
                    Tally::Incoming,
                    edges.take(i + 1),
                    labels,
                    directed,
                    c,
                ) == incoming@[c] + edge_share(Tally::Incoming, edge, labels, directed, c)) by {
                    lemma_weight_step(Tally::Internal, edges, labels, directed, c, i as int);
                    lemma_weight_step(Tally::Outgoing, edges, labels, directed, c, i as int);
                    lemma_weight_step(Tally::Incoming, edges, labels, directed, c, i as int);
                }
            }
            if c_a == c_b {
                internal[c_a] = internal[c_a] + w;
            }
            outgoing[c_a] = outgoing[c_a] + w;
            if directed {
                incoming[c_b] = incoming[c_b] + w;
            } else {
                outgoing[c_b] = outgoing[c_b] + w;
            }
            i += 1;
        }
        assert(edges.take(m as int) == edges);
        PartitionEdgeWeights {
            internal,
            outgoing,
            incoming: if directed {
                Some(incoming)
            } else {
                None
            },
        }
    }
}

} // verus!

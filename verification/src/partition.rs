//! A validated assignment of every node to one community.
use vstd::prelude::*;
use std::collections::HashSet;
use crate::graph::ModularityComputable;

verus! {

broadcast use vstd::std_specs::hash::group_hash_axioms;

/// The subsets handed in do not split the graph's nodes into disjoint
/// communities.
#[derive(Debug)]
pub struct NotAPartitionError {}

/// The subsets as mathematical sets, in the order in which they are listed.
pub open spec fn sets_of(subsets: Seq<HashSet<usize>>) -> Seq<Set<usize>> {
    Seq::new(subsets.len(), |i: int| subsets[i]@)
}

/// One of the first `k` sets holds node `v`.
pub open spec fn holds_among(sets: Seq<Set<usize>>, k: int, v: usize) -> bool {
    exists|a: int| 0 <= a < k && (#[trigger] sets[a]).contains(v)
}

/// The sets split the nodes `0..n`: they hold nodes only, no two of them
/// share a node, and every node is in one of them.
pub open spec fn is_partition(sets: Seq<Set<usize>>, n: nat) -> bool {
    &&& forall|a: int, v: usize| 0 <= a < sets.len() && #[trigger] sets[a].contains(v) ==> v < n
    &&& forall|a: int, b: int, v: usize|
        0 <= a < sets.len() && 0 <= b < sets.len() && #[trigger] sets[a].contains(v)
            && #[trigger] sets[b].contains(v) ==> a == b
    &&& forall|v: usize| v < n ==> #[trigger] holds_among(sets, sets.len() as int, v)
}

/// The position of a set that holds node `v`.
pub open spec fn community_of(sets: Seq<Set<usize>>, v: usize) -> usize {
    (choose|a: int| 0 <= a < sets.len() && (#[trigger] sets[a]).contains(v)) as usize
}

/// The community of each of the nodes `0..n`.
pub open spec fn labels_of(sets: Seq<Set<usize>>, n: nat) -> Seq<usize> {
    Seq::new(n, |v: int| community_of(sets, v as usize))
}

/// `labels` gives each node the position of the set that holds it.
pub open spec fn labels_follow(labels: Seq<usize>, sets: Seq<Set<usize>>) -> bool {
    forall|a: int, v: usize|
        0 <= a < sets.len() && #[trigger] sets[a].contains(v) ==> labels[v as int] == a
}

/// Labels that give each node the position of its set are the labels of
/// the partition.
pub proof fn lemma_labels_unique(sets: Seq<Set<usize>>, n: nat, labels: Seq<usize>)
    requires
        is_partition(sets, n),
        n <= usize::MAX,
        labels.len() == n,
        labels_follow(labels, sets),
    ensures
        labels == labels_of(sets, n),
{
    assert forall|v: int| 0 <= v < n implies labels[v] == labels_of(sets, n)[v] by {
        assert(holds_among(sets, sets.len() as int, v as usize));
        let a = choose|a: int| 0 <= a < sets.len() && (#[trigger] sets[a]).contains(v as usize);
        assert(sets[a].contains(v as usize));
    }
    assert(labels =~= labels_of(sets, n));
}

/// The nodes of a graph split into communities `0..n_subsets`;
/// `node_to_subset[v]` is the community of node `v`.
pub struct Partition<'g, G: ModularityComputable> {
    graph: &'g G,
    n_subsets: usize,
    pub node_to_subset: Vec<usize>,
}

impl<'g, G: ModularityComputable> Partition<'g, G> {
    /// The graph that was partitioned.
    pub closed spec fn graph(&self) -> &'g G {
        self.graph
    }

    /// The number of communities.
    pub closed spec fn subset_count(&self) -> nat {
        self.n_subsets as nat
    }

    /// The community of each node, by the node's index.
    pub closed spec fn labels(&self) -> Seq<usize> {
        self.node_to_subset@
    }

    /// Every node of the graph has a community below `subset_count`.
    pub open spec fn well_formed(&self) -> bool {
        &&& self.labels().len() == self.graph().nodes()
        &&& forall|v: int|
            0 <= v < self.labels().len() ==> (#[trigger] self.labels()[v]) < self.subset_count()
    }

    /// This is the partition that `sets` describe: they split the graph's
    /// nodes, and each node's community is the position of the set that
    /// holds it.
    pub open spec fn built_from(&self, sets: Seq<Set<usize>>) -> bool {
        &&& is_partition(sets, self.graph().nodes())
        &&& self.subset_count() == sets.len()
        &&& self.labels() == labels_of(sets, self.graph().nodes())
        &&& labels_follow(self.labels(), sets)
    }

    /// Assigns each node the position of the subset that holds it. Fails
    /// exactly when the subsets are not pairwise disjoint or their union
    /// is not the set of the graph's nodes.
    pub fn new(graph: &'g G, subsets: &[HashSet<usize>]) -> (r: Result<
        Partition<'g, G>,
        NotAPartitionError,
    >)
        ensures
            r is Ok <==> is_partition(sets_of(subsets@), graph.nodes()),
            r is Ok ==> {
                let p = r->Ok_0;
                &&& p.well_formed()
                &&& p.graph() == graph
                &&& p.built_from(sets_of(subsets@))
            },
    {
        let n = graph.node_count();
        let ghost sets = sets_of(subsets@);
        let mut seen: Vec<bool> = Vec::new();
        let mut node_to_subset: Vec<usize> = Vec::new();
        let mut k: usize = 0;
        while k < n
            invariant
                k <= n,
                seen@.len() == k,
                node_to_subset@.len() == k,
                forall|v: int| 0 <= v < k ==> !(#[trigger] seen@[v]),
            decreases n - k,
        {
            seen.push(false);
            node_to_subset.push(0);
            k += 1;
        }
        let mut ii: usize = 0;
        while ii < subsets.len()
            invariant
                ii <= subsets@.len(),
                sets == sets_of(subsets@),
                n == graph.nodes(),
                seen@.len() == n,
                node_to_subset@.len() == n,
                forall|a: int, v: usize|
                    0 <= a < ii && #[trigger] sets[a].contains(v) ==> v < n && seen@[v as int]
                        && node_to_subset@[v as int] == a,
                forall|a: int, b: int, v: usize|
                    0 <= a < ii && 0 <= b < ii && #[trigger] sets[a].contains(v)
                        && #[trigger] sets[b].contains(v) ==> a == b,
                forall|v: int|
                    0 <= v < n && #[trigger] seen@[v] ==> holds_among(sets, ii as int, v as usize),
            decreases subsets@.len() - ii,
        {
            let subset = &subsets[ii];
            assert(subset@ == sets[ii as int]);
            for node in it: subset.iter()
                invariant
                    ii < subsets@.len(),
                    sets == sets_of(subsets@),
                    subset@ == sets[ii as int],
                    n == graph.nodes(),
                    seen@.len() == n,
                    node_to_subset@.len() == n,
                    it.seq().unref().to_set() == subset@,
                    it.seq().unref().no_duplicates(),
                    forall|a: int, v: usize|
                        0 <= a < ii && #[trigger] sets[a].contains(v) ==> v < n && seen@[v as int]
                            && node_to_subset@[v as int] == a,
                    forall|a: int, b: int, v: usize|
                        0 <= a < ii && 0 <= b < ii && #[trigger] sets[a].contains(v)
                            && #[trigger] sets[b].contains(v) ==> a == b,
                    forall|t: int|
                        0 <= t < it.index() ==> {
                            let v = #[trigger] it.seq().unref()[t];
                            &&& v < n
                            &&& seen@[v as int]
                            &&& node_to_subset@[v as int] == ii
                            &&& !holds_among(sets, ii as int, v)
                        },
                    forall|v: int|
                        0 <= v < n && #[trigger] seen@[v] ==> holds_among(
                            sets,
                            ii as int,
                            v as usize,
                        ) || exists|t: int|
                            0 <= t < it.index() && #[trigger] it.seq().unref()[t] == v,
            {
                let idx = *node;
                proof {
                    let items = it.seq().unref();
                    assert(items[it.index() as int] == idx);
                    assert(items.contains(idx));
                    assert(sets[ii as int].contains(idx));
                }
                if idx >= n {
                    return Err(NotAPartitionError {});
                }
                if seen[idx] {
                    proof {
                        if holds_among(sets, ii as int, idx) {
                            let a = choose|a: int|
                                0 <= a < ii && (#[trigger] sets[a]).contains(idx);
                            assert(sets[a].contains(idx) && sets[ii as int].contains(idx));
                        }
                    }
                    return Err(NotAPartitionError {});
                }
                node_to_subset[idx] = ii;
                seen[idx] = true;
                proof {
                    let items = it.seq().unref();
                    assert forall|v: int| 0 <= v < n && #[trigger] seen@[v] implies holds_among(
                        sets,
                        ii as int,
                        v as usize,
                    ) || exists|t: int| 0 <= t < it.index() + 1 && #[trigger] items[t] == v by {
                        if v == idx {
                            assert(items[it.index() as int] == v);
                        }
                    }
                }
            }
            proof {
                assert forall|v: usize| sets[ii as int].contains(v) implies v < n && seen@[v as int]
                    && node_to_subset@[v as int] == ii && !holds_among(sets, ii as int, v) by {
                    assert(subset@.contains(v));
                }
                assert forall|v: int| 0 <= v < n && #[trigger] seen@[v] implies holds_among(
                    sets,
                    ii + 1,
                    v as usize,
                ) by {
                    if holds_among(sets, ii as int, v as usize) {
                        let a = choose|a: int|
                            0 <= a < ii && (#[trigger] sets[a]).contains(v as usize);
                        assert(sets[a].contains(v as usize));
                    } else {
                        assert(sets[ii as int].contains(v as usize));
                    }
                }
            }
            ii += 1;
        }
        let mut v: usize = 0;
        while v < n
            invariant
                v <= n,
                seen@.len() == n,
                n == graph.nodes(),
                sets == sets_of(subsets@),
                sets.len() == ii,
                forall|a: int, u: usize|
                    0 <= a < ii && #[trigger] sets[a].contains(u) ==> u < n && seen@[u as int],
                forall|u: int| 0 <= u < v ==> #[trigger] seen@[u],
            decreases n - v,
        {
            if !seen[v] {
                proof {
                    if holds_among(sets, sets.len() as int, v) {
                        let a = choose|a: int|
                            0 <= a < sets.len() && (#[trigger] sets[a]).contains(v);
                        assert(sets[a].contains(v));
                    }
                }
                return Err(NotAPartitionError {});
            }
            v += 1;
        }
        proof {
            assert forall|u: int| 0 <= u < n implies (#[trigger] node_to_subset@[u])
                < subsets@.len() by {
                assert(seen@[u]);
                let a = choose|a: int| 0 <= a < ii && (#[trigger] sets[a]).contains(u as usize);
                assert(sets[a].contains(u as usize));
            }
            assert forall|u: usize| u < n implies #[trigger] holds_among(
                sets,
                sets.len() as int,
                u,
            ) by {
                assert(seen@[u as int]);
            }
            lemma_labels_unique(sets, n as nat, node_to_subset@);
        }
        Ok(Partition { graph, n_subsets: subsets.len(), node_to_subset })
    }

    /// The graph that was partitioned.
    pub fn graph_ref(&self) -> (g: &'g G)
        ensures
            g == self.graph(),
    {
        self.graph
    }

    /// The number of communities.
    pub fn subset_total(&self) -> (k: usize)
        ensures
            k == self.subset_count(),
    {
        self.n_subsets
    }

    /// The community of `node`.
    pub fn get_subset_id(&self, node: usize) -> (c: usize)
        requires
            self.well_formed(),
            node < self.graph().nodes(),
        ensures
            c == self.labels()[node as int],
            c < self.subset_count(),
    {
        self.node_to_subset[node]
    }
}

} // verus!

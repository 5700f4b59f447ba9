//! What holds of the score whatever the graph and the partition.
use vstd::prelude::*;
use crate::graph::Edge;
use crate::graph::valid_graph;
use crate::graph::ModularityComputable;
use crate::partition::holds_among;
use crate::partition::Partition;
use crate::score::null_term;
use crate::score::sigma_internal;
use crate::score::sigma_total;
use crate::score::terms_of;
use crate::score::total_weight;
use crate::weights::community_weight;
use crate::weights::edge_share;
use crate::weights::Tally;

verus! {

/// Every edge joins two labelled nodes.
pub open spec fn edges_labelled(edges: Seq<Edge>, labels: Seq<usize>) -> bool {
    forall|i: int|
        0 <= i < edges.len() ==> (#[trigger] edges[i]).source < labels.len() && edges[i].target
            < labels.len()
}

/// With every node in community 0, that community holds the whole weight.
proof fn lemma_one_community_weights(edges: Seq<Edge>, labels: Seq<usize>, directed: bool)
    requires
        edges_labelled(edges, labels),
        forall|v: int| 0 <= v < labels.len() ==> #[trigger] labels[v] == 0,
    ensures
        community_weight(Tally::Internal, edges, labels, directed, 0) == total_weight(edges),
        community_weight(Tally::Incoming, edges, labels, directed, 0) == total_weight(edges),
        community_weight(Tally::Outgoing, edges, labels, directed, 0) == if directed {
            total_weight(edges)
        } else {
            2 * total_weight(edges)
        },
    decreases edges.len(),
{
    if edges.len() > 0 {
        let rest = edges.drop_last();
        assert forall|i: int| 0 <= i < rest.len() implies (#[trigger] rest[i]).source
            < labels.len() && rest[i].target < labels.len() by {
            assert(rest[i] == edges[i]);
        }
        lemma_one_community_weights(rest, labels, directed);
        let e = edges.last();
        assert(e == edges[edges.len() - 1]);
        assert(labels[e.source as int] == 0 && labels[e.target as int] == 0);
    }
}

/// The terms of a partition into one community give the score
/// `1 - rn / rd` at resolution `rn / rd`.
proof fn lemma_one_community_score(
    edges: Seq<Edge>,
    labels: Seq<usize>,
    directed: bool,
    rn: int,
    rd: int,
)
    requires
        edges_labelled(edges, labels),
        forall|v: int| 0 <= v < labels.len() ==> #[trigger] labels[v] == 0,
        total_weight(edges) > 0,
        rd > 0,
    ensures
        ({
            let t = terms_of(edges, labels, directed, 1);
            &&& t.sigma_internal == t.total_weight
            &&& t.sigma_total == t.divisor * t.total_weight * t.total_weight
            &&& t.denominator(rd) > 0
            &&& t.numerator(rn, rd) * rd == (rd - rn) * t.denominator(rd)
        }),
{
    lemma_one_community_weights(edges, labels, directed);
    let t = terms_of(edges, labels, directed, 1);
    let m = total_weight(edges) as int;
    let d = t.divisor as int;
    assert(sigma_internal(edges, labels, directed, 0) == 0);
    assert(sigma_total(edges, labels, directed, 0) == 0);
    assert(t.sigma_internal == m);
    assert(t.sigma_total == d * m * m) by (nonlinear_arith)
        requires
            t.sigma_total == null_term(edges, labels, directed, 0),
            directed ==> d == 1 && null_term(edges, labels, directed, 0) == m * m,
            !directed ==> d == 4 && null_term(edges, labels, directed, 0) == (2 * m) * (2 * m),
    ;
    let si = t.sigma_internal as int;
    let st = t.sigma_total as int;
    assert(rd * d * m * m > 0 && (si * m * d * rd - rn * st) * rd == (rd - rn) * (rd * d * m * m))
        by (nonlinear_arith)
        requires
            si == m,
            st == d * m * m,
            m > 0,
            rd > 0,
            d > 0,
    ;
}

/// An undirected graph of nonzero weight whose nodes all lie in one
/// community scores `1 - rn / rd` at resolution `rn / rd`: the score is
/// `numerator / denominator`, and the two stand in that ratio.
pub proof fn lemma_single_community_undirected<'g, G: ModularityComputable>(
    p: Partition<'g, G>,
    rn: int,
    rd: int,
)
    requires
        valid_graph(p.graph()),
        p.well_formed(),
        p.subset_count() == 1,
        !p.graph().directed(),
        total_weight(p.graph().edges()) > 0,
        rd > 0,
    ensures
        ({
            let t = terms_of(p.graph().edges(), p.labels(), p.graph().directed(), p.subset_count());
            &&& t.denominator(rd) > 0
            &&& t.numerator(rn, rd) * rd == (rd - rn) * t.denominator(rd)
        }),
{
    lemma_one_community_score(p.graph().edges(), p.labels(), false, rn, rd);
}

/// A directed graph of nonzero weight whose nodes all lie in one
/// community scores `1 - rn / rd` at resolution `rn / rd`.
pub proof fn lemma_single_community_directed<'g, G: ModularityComputable>(
    p: Partition<'g, G>,
    rn: int,
    rd: int,
)
    requires
        valid_graph(p.graph()),
        p.well_formed(),
        p.subset_count() == 1,
        p.graph().directed(),
        total_weight(p.graph().edges()) > 0,
        rd > 0,
    ensures
        ({
            let t = terms_of(p.graph().edges(), p.labels(), p.graph().directed(), p.subset_count());
            &&& t.denominator(rd) > 0
            &&& t.numerator(rn, rd) * rd == (rd - rn) * t.denominator(rd)
        }),
{
    lemma_one_community_score(p.graph().edges(), p.labels(), true, rn, rd);
}

/// The sum of the entries of `s`.
pub open spec fn sum_of(s: Seq<nat>) -> nat
    decreases s.len(),
{
    if s.len() == 0 {
        0
    } else {
        sum_of(s.drop_last()) + s.last()
    }
}

/// `perm` maps `0..k` into itself and sends no two indices to one.
pub open spec fn is_permutation(perm: Seq<int>, k: nat) -> bool {
    &&& perm.len() == k
    &&& forall|c: int| 0 <= c < k ==> 0 <= #[trigger] perm[c] < k
    &&& forall|c: int, d: int|
        0 <= c < k && 0 <= d < k && #[trigger] perm[c] == #[trigger] perm[d] ==> c == d
}

proof fn lemma_sum_remove(s: Seq<nat>, p: int)
    requires
        0 <= p < s.len(),
    ensures
        sum_of(s) == sum_of(s.remove(p)) + s[p],
    decreases s.len(),
{
    if p == s.len() - 1 {
        assert(s.remove(p) == s.drop_last());
    } else {
        lemma_sum_remove(s.drop_last(), p);
        assert(s.remove(p).drop_last() == s.drop_last().remove(p));
        assert(s.remove(p).last() == s.last());
    }
}

/// A sum does not depend on the order of its terms.
proof fn lemma_sum_permuted(f: Seq<nat>, g: Seq<nat>, perm: Seq<int>)
    requires
        f.len() == g.len(),
        is_permutation(perm, g.len()),
        forall|c: int| 0 <= c < g.len() ==> f[perm[c]] == #[trigger] g[c],
    ensures
        sum_of(f) == sum_of(g),
    decreases g.len(),
{
    let k = g.len();
    if k > 0 {
        let p = perm[k - 1];
        let rest = Seq::new(
            (k - 1) as nat,
            |c: int|
                if perm[c] < p {
                    perm[c]
                } else {
                    perm[c] - 1
                },
        );
        let f_rest = f.remove(p);
        let g_rest = g.drop_last();
        assert forall|c: int| 0 <= c < k - 1 implies 0 <= #[trigger] rest[c] < k - 1 by {
            assert(perm[c] != p);
            assert(0 <= perm[c] < k);
        }
        assert forall|c: int| 0 <= c < k - 1 implies f_rest[rest[c]] == #[trigger] g_rest[c] by {
            assert(perm[c] != p);
            assert(0 <= perm[c] < k);
            assert(g_rest[c] == g[c]);
        }
        assert forall|c: int, d: int|
            0 <= c < k - 1 && 0 <= d < k - 1 && #[trigger] rest[c] == #[trigger] rest[d] implies c
            == d by {
            assert(perm[c] != p && perm[d] != p);
            assert(perm[c] == perm[d]);
        }
        lemma_sum_permuted(f_rest, g_rest, rest);
        lemma_sum_remove(f, p);
        assert(g[k - 1] == f[p]);
    }
}

/// The sum `kind` of each of the `k` communities.
pub open spec fn weights_of(
    kind: Tally,
    edges: Seq<Edge>,
    labels: Seq<usize>,
    directed: bool,
    k: nat,
) -> Seq<nat> {
    Seq::new(k, |c: int| community_weight(kind, edges, labels, directed, c))
}

/// What each of the `k` communities adds to `sigma_total`.
pub open spec fn null_terms(edges: Seq<Edge>, labels: Seq<usize>, directed: bool, k: nat) -> Seq<
    nat,
> {
    Seq::new(k, |c: int| null_term(edges, labels, directed, c))
}

proof fn lemma_sigma_internal_is_sum(edges: Seq<Edge>, labels: Seq<usize>, directed: bool, k: nat)
    ensures
        sigma_internal(edges, labels, directed, k) == sum_of(
            weights_of(Tally::Internal, edges, labels, directed, k),
        ),
    decreases k,
{
    if k > 0 {
        lemma_sigma_internal_is_sum(edges, labels, directed, (k - 1) as nat);
        assert(weights_of(Tally::Internal, edges, labels, directed, k).drop_last() == weights_of(
            Tally::Internal,
            edges,
            labels,
            directed,
            (k - 1) as nat,
        ));
    }
}

proof fn lemma_sigma_total_is_sum(edges: Seq<Edge>, labels: Seq<usize>, directed: bool, k: nat)
    ensures
        sigma_total(edges, labels, directed, k) == sum_of(null_terms(edges, labels, directed, k)),
    decreases k,
{
    if k > 0 {
        lemma_sigma_total_is_sum(edges, labels, directed, (k - 1) as nat);
        assert(null_terms(edges, labels, directed, k).drop_last() == null_terms(
            edges,
            labels,
            directed,
            (k - 1) as nat,
        ));
    }
}

/// `first` names communities by `perm` of the names in `second`.
pub open spec fn relabelled(first: Seq<usize>, second: Seq<usize>, perm: Seq<int>, k: nat) -> bool {
    &&& is_permutation(perm, k)
    &&& first.len() == second.len()
    &&& forall|v: int|
        0 <= v < second.len() ==> (#[trigger] second[v]) < k && first[v] == perm[second[v] as int]
}

/// A community keeps its sums when the communities are renamed.
proof fn lemma_weight_relabelled(
    kind: Tally,
    edges: Seq<Edge>,
    first: Seq<usize>,
    second: Seq<usize>,
    directed: bool,
    perm: Seq<int>,
    k: nat,
    c: int,
)
    requires
        edges_labelled(edges, second),
        relabelled(first, second, perm, k),
        0 <= c < k,
    ensures
        community_weight(kind, edges, first, directed, perm[c]) == community_weight(
            kind,
            edges,
            second,
            directed,
            c,
        ),
    decreases edges.len(),
{
    if edges.len() > 0 {
        let rest = edges.drop_last();
        assert forall|i: int| 0 <= i < rest.len() implies (#[trigger] rest[i]).source
            < second.len() && rest[i].target < second.len() by {
            assert(rest[i] == edges[i]);
        }
        lemma_weight_relabelled(kind, rest, first, second, directed, perm, k, c);
        let e = edges.last();
        assert(e == edges[edges.len() - 1]);
        let a = second[e.source as int];
        let b = second[e.target as int];
        assert(first[e.source as int] == perm[a as int] && first[e.target as int] == perm[b as int]);
        assert(perm[a as int] == perm[c] <==> a == c);
        assert(perm[b as int] == perm[c] <==> b == c);
        assert(edge_share(kind, e, first, directed, perm[c]) == edge_share(
            kind,
            e,
            second,
            directed,
            c,
        ));
    }
}

/// The terms of the score do not depend on the order in which the
/// communities are listed: two assignments of the same nodes that differ
/// only in the names of the communities have the same terms.
pub proof fn lemma_terms_relabelled(
    edges: Seq<Edge>,
    first: Seq<usize>,
    second: Seq<usize>,
    directed: bool,
    perm: Seq<int>,
    k: nat,
)
    requires
        edges_labelled(edges, second),
        relabelled(first, second, perm, k),
    ensures
        terms_of(edges, first, directed, k) == terms_of(edges, second, directed, k),
{
    let f = weights_of(Tally::Internal, edges, first, directed, k);
    let g = weights_of(Tally::Internal, edges, second, directed, k);
    assert forall|c: int| 0 <= c < k implies f[perm[c]] == #[trigger] g[c] by {
        lemma_weight_relabelled(Tally::Internal, edges, first, second, directed, perm, k, c);
    }
    lemma_sum_permuted(f, g, perm);
    lemma_sigma_internal_is_sum(edges, first, directed, k);
    lemma_sigma_internal_is_sum(edges, second, directed, k);
    let f2 = null_terms(edges, first, directed, k);
    let g2 = null_terms(edges, second, directed, k);
    assert forall|c: int| 0 <= c < k implies f2[perm[c]] == #[trigger] g2[c] by {
        lemma_weight_relabelled(Tally::Outgoing, edges, first, second, directed, perm, k, c);
        lemma_weight_relabelled(Tally::Incoming, edges, first, second, directed, perm, k, c);
    }
    lemma_sum_permuted(f2, g2, perm);
    lemma_sigma_total_is_sum(edges, first, directed, k);
    lemma_sigma_total_is_sum(edges, second, directed, k);
}

/// Listing the same subsets in another order leaves the terms of the
/// score unchanged, and with them the score at every resolution: where
/// set `i` of the second list is set `perm[i]` of the first, the two
/// partitions have the same terms.
pub proof fn lemma_permutation_invariance<'g, G: ModularityComputable>(
    p1: Partition<'g, G>,
    s1: Seq<Set<usize>>,
    p2: Partition<'g, G>,
    s2: Seq<Set<usize>>,
    perm: Seq<int>,
)
    requires
        valid_graph(p1.graph()),
        p1.graph() == p2.graph(),
        p1.built_from(s1),
        p2.built_from(s2),
        is_permutation(perm, s1.len()),
        s2.len() == s1.len(),
        forall|i: int| 0 <= i < s2.len() ==> #[trigger] s2[i] == s1[perm[i]],
    ensures
        terms_of(p1.graph().edges(), p1.labels(), p1.graph().directed(), p1.subset_count())
            == terms_of(
            p2.graph().edges(),
            p2.labels(),
            p2.graph().directed(),
            p2.subset_count(),
        ),
{
    let k = s1.len();
    let n = p1.graph().nodes();
    assert forall|v: int| 0 <= v < p2.labels().len() implies (#[trigger] p2.labels()[v]) < k
        && p1.labels()[v] == perm[p2.labels()[v] as int] by {
        assert(holds_among(s2, s2.len() as int, v as usize));
        let i = choose|i: int| 0 <= i < s2.len() && (#[trigger] s2[i]).contains(v as usize);
        assert(s2[i].contains(v as usize));
        assert(s1[perm[i]].contains(v as usize));
    }
    lemma_terms_relabelled(
        p1.graph().edges(),
        p1.labels(),
        p2.labels(),
        p1.graph().directed(),
        perm,
        k,
    );
}

} // verus!

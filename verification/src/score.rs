//! The modularity score in exact integers.
//!
//! With `m` the total edge weight, the score at resolution `r` is
//! `sigma_internal / m - r * (sigma_total / divisor) / (m * m)`. The terms
//! are kept as integers and the score as a quotient of integers, so that
//! nothing is rounded before the caller divides. A graph whose edges
//! weigh nothing has `m == 0` and no score: its terms are all zero, and
//! so is the denominator of its score.
use vstd::prelude::*;
use std::collections::HashSet;
use crate::graph::Edge;
use crate::graph::ModularityComputable;
use crate::partition::is_partition;
use crate::partition::labels_of;
use crate::partition::sets_of;
use crate::partition::NotAPartitionError;
use crate::partition::Partition;
use crate::weights::community_weight;
use crate::weights::holds_weights;
use crate::weights::PartitionEdgeWeights;
use crate::weights::Tally;

verus! {

/// The terms of the score as mathematical integers.
pub struct Terms {
    /// Weight of the edges that stay inside a community.
    pub sigma_internal: nat,
    /// Over the communities, the sum of incoming times outgoing weight;
    /// of the square of the outgoing weight where the graph is undirected.
    pub sigma_total: nat,
    /// What `sigma_total` is divided by: 4 where the graph is undirected,
    /// since each edge was then counted at both ends, else 1.
    pub divisor: nat,
    /// Weight of all edges, each counted once.
    pub total_weight: nat,
}

impl Terms {
    /// What the internal weight adds to the numerator of the score at a
    /// resolution with denominator `rd`.
    pub open spec fn gained(self, rd: int) -> int {
        self.sigma_internal * self.total_weight * self.divisor * rd
    }

    /// What the null model takes from the numerator of the score at a
    /// resolution with numerator `rn`.
    pub open spec fn expected(self, rn: int) -> int {
        rn * self.sigma_total
    }

    /// Numerator of the score at resolution `rn / rd`, over `denominator`.
    pub open spec fn numerator(self, rn: int, rd: int) -> int {
        self.gained(rd) - self.expected(rn)
    }

    /// Denominator of the score at a resolution with denominator `rd`.
    pub open spec fn denominator(self, rd: int) -> int {
        rd * self.divisor * self.total_weight * self.total_weight
    }

    /// Every product on the way to the score at resolution `rn / rd`
    /// fits in 128 bits.
    pub open spec fn fits(self, rn: int, rd: int) -> bool {
        &&& self.sigma_internal * self.total_weight <= u128::MAX
        &&& self.sigma_internal * self.total_weight * self.divisor <= u128::MAX
        &&& self.gained(rd) <= u128::MAX
        &&& self.expected(rn) <= u128::MAX
        &&& rd * self.divisor * self.total_weight <= u128::MAX
        &&& self.denominator(rd) <= u128::MAX
    }

    /// `score` is the score of these terms at resolution `rn / rd`.
    pub open spec fn scored_as(self, score: Score, rn: int, rd: int) -> bool {
        &&& score.gained == self.gained(rd)
        &&& score.expected == self.expected(rn)
        &&& score.denominator == self.denominator(rd)
    }
}

/// The resolution `numerator / denominator`: the weight of the null model
/// in the score.
#[derive(Clone, Copy, Debug)]
pub struct Resolution {
    pub numerator: u64,
    pub denominator: u64,
}

/// The modularity `(gained - expected) / denominator`, kept as an exact
/// quotient. Its denominator is zero where the graph's edges weigh
/// nothing or the resolution has no denominator: there is no score then.
#[derive(Clone, Copy, Debug)]
pub struct Score {
    pub gained: u128,
    pub expected: u128,
    pub denominator: u128,
}

/// The terms of the score in machine integers.
#[derive(Clone, Copy, Debug)]
pub struct ModularityTerms {
    pub sigma_internal: u128,
    pub sigma_total: u128,
    pub divisor: u8,
    pub total_weight: u128,
}

impl View for ModularityTerms {
    type V = Terms;

    open spec fn view(&self) -> Terms {
        Terms {
            sigma_internal: self.sigma_internal as nat,
            sigma_total: self.sigma_total as nat,
            divisor: self.divisor as nat,
            total_weight: self.total_weight as nat,
        }
    }
}

/// The weight of all `edges`.
pub open spec fn total_weight(edges: Seq<Edge>) -> nat
    decreases edges.len(),
{
    if edges.len() == 0 {
        0
    } else {
        total_weight(edges.drop_last()) + edges.last().weight as nat
    }
}

/// The internal weight of the first `k` communities together.
pub open spec fn sigma_internal(edges: Seq<Edge>, labels: Seq<usize>, directed: bool, k: nat) -> nat
    decreases k,
{
    if k == 0 {
        0
    } else {
        sigma_internal(edges, labels, directed, (k - 1) as nat) + community_weight(
            Tally::Internal,
            edges,
            labels,
            directed,
            k - 1,
        )
    }
}

/// What community `c` adds to `sigma_total`.
pub open spec fn null_term(edges: Seq<Edge>, labels: Seq<usize>, directed: bool, c: int) -> nat {
    let out = community_weight(Tally::Outgoing, edges, labels, directed, c);
    if directed {
        community_weight(Tally::Incoming, edges, labels, directed, c) * out
    } else {
        out * out
    }
}

/// The null-model products of the first `k` communities together.
pub open spec fn sigma_total(edges: Seq<Edge>, labels: Seq<usize>, directed: bool, k: nat) -> nat
    decreases k,
{
    if k == 0 {
        0
    } else {
        sigma_total(edges, labels, directed, (k - 1) as nat) + null_term(
            edges,
            labels,
            directed,
            k - 1,
        )
    }
}

/// The divisor of `sigma_total`.
pub open spec fn divisor(directed: bool) -> nat {
    if directed {
        1
    } else {
        4
    }
}

/// The terms of the score of `edges` under the communities `labels`.
pub open spec fn terms_of(edges: Seq<Edge>, labels: Seq<usize>, directed: bool, k: nat) -> Terms {
    Terms {
        sigma_internal: sigma_internal(edges, labels, directed, k),
        sigma_total: sigma_total(edges, labels, directed, k),
        divisor: divisor(directed),
        total_weight: total_weight(edges),
    }
}

/// The sum of the first `n` entries of `s`.
pub open spec fn prefix_sum(s: Seq<u128>, n: nat) -> nat
    decreases n,
{
    if n == 0 {
        0
    } else {
        prefix_sum(s, (n - 1) as nat) + s[n - 1] as nat
    }
}

/// The sum of the products of the first `n` entries of `a` and `b`.
pub open spec fn prefix_dot(a: Seq<u128>, b: Seq<u128>, n: nat) -> nat
    decreases n,
{
    if n == 0 {
        0
    } else {
        prefix_dot(a, b, (n - 1) as nat) + (a[n - 1] as nat) * (b[n - 1] as nat)
    }
}

proof fn lemma_prefix_sum_grows(s: Seq<u128>, j: nat, n: nat)
    requires
        j <= n,
    ensures
        prefix_sum(s, j) <= prefix_sum(s, n),
    decreases n,
{
    if j < n {
        lemma_prefix_sum_grows(s, j, (n - 1) as nat);
    }
}

proof fn lemma_prefix_dot_grows(a: Seq<u128>, b: Seq<u128>, j: nat, n: nat)
    requires
        j <= n,
    ensures
        prefix_dot(a, b, j) <= prefix_dot(a, b, n),
    decreases n,
{
    if j < n {
        lemma_prefix_dot_grows(a, b, j, (n - 1) as nat);
    }
}

/// Adds up `v`, or gives `None` where the sum does not fit.
pub fn checked_sum(v: &Vec<u128>) -> (r: Option<u128>)
    ensures
        r is Some <==> prefix_sum(v@, v@.len()) <= u128::MAX,
        r is Some ==> r->Some_0 == prefix_sum(v@, v@.len()),
{
    let mut acc: u128 = 0;
    let mut c: usize = 0;
    while c < v.len()
        invariant
            c <= v@.len(),
            acc == prefix_sum(v@, c as nat),
        decreases v@.len() - c,
    {
        match acc.checked_add(v[c]) {
            Some(next) => {
                acc = next;
            },
            None => {
                proof {
                    lemma_prefix_sum_grows(v@, (c + 1) as nat, v@.len());
                }
                return None;
            },
        }
        c += 1;
    }
    Some(acc)
}

/// The shorter of two lengths.
pub open spec fn shorter(a: nat, b: nat) -> nat {
    if a < b {
        a
    } else {
        b
    }
}

/// Adds up the products of the entries of `a` and `b`, as far as both
/// reach, or gives `None` where a product or the sum does not fit.
pub fn checked_dot(a: &Vec<u128>, b: &Vec<u128>) -> (r: Option<u128>)
    ensures
        r is Some <==> prefix_dot(a@, b@, shorter(a@.len(), b@.len())) <= u128::MAX,
        r is Some ==> r->Some_0 == prefix_dot(a@, b@, shorter(a@.len(), b@.len())),
{
    let n = if a.len() < b.len() {
        a.len()
    } else {
        b.len()
    };
    let mut acc: u128 = 0;
    let mut c: usize = 0;
    while c < n
        invariant
            n == shorter(a@.len(), b@.len()),
            c <= n,
            acc == prefix_dot(a@, b@, c as nat),
        decreases n - c,
    {
        proof {
            lemma_prefix_dot_grows(a@, b@, (c + 1) as nat, n as nat);
        }
        let product = match a[c].checked_mul(b[c]) {
            Some(p) => p,
            None => {
                return None;
            },
        };
        match acc.checked_add(product) {
            Some(next) => {
                acc = next;
            },
            None => {
                return None;
            },
        }
        c += 1;
    }
    Some(acc)
}

/// Sums that hold the internal weights add up to `sigma_internal`.
pub proof fn lemma_sum_is_sigma_internal(
    sums: Seq<u128>,
    edges: Seq<Edge>,
    labels: Seq<usize>,
    directed: bool,
    k: nat,
    j: nat,
)
    requires
        holds_weights(sums, Tally::Internal, edges, labels, directed, k),
        j <= k,
    ensures
        prefix_sum(sums, j) == sigma_internal(edges, labels, directed, j),
    decreases j,
{
    if j > 0 {
        lemma_sum_is_sigma_internal(sums, edges, labels, directed, k, (j - 1) as nat);
        assert(sums[j - 1] == community_weight(Tally::Internal, edges, labels, directed, j - 1));
    }
}

/// Sums that hold the outgoing weights, and for a directed graph the
/// incoming ones, multiply and add up to `sigma_total`.
pub proof fn lemma_dot_is_sigma_total(
    first: Seq<u128>,
    outgoing: Seq<u128>,
    edges: Seq<Edge>,
    labels: Seq<usize>,
    directed: bool,
    k: nat,
    j: nat,
)
    requires
        holds_weights(outgoing, Tally::Outgoing, edges, labels, directed, k),
        directed ==> holds_weights(first, Tally::Incoming, edges, labels, directed, k),
        !directed ==> first == outgoing,
        j <= k,
    ensures
        prefix_dot(first, outgoing, j) == sigma_total(edges, labels, directed, j),
    decreases j,
{
    if j > 0 {
        lemma_dot_is_sigma_total(first, outgoing, edges, labels, directed, k, (j - 1) as nat);
        assert(outgoing[j - 1] == community_weight(Tally::Outgoing, edges, labels, directed, j - 1));
        if directed {
            assert(first[j - 1] == community_weight(
                Tally::Incoming,
                edges,
                labels,
                directed,
                j - 1,
            ));
        }
    }
}

/// The weight of all edges of `graph`, each counted once.
pub fn total_edge_weight<G: ModularityComputable>(graph: &G) -> (m: u128)
    ensures
        m == total_weight(graph.edges()),
{
    let count = graph.edge_count();
    let ghost edges = graph.edges();
    let mut m: u128 = 0;
    let mut i: usize = 0;
    while i < count
        invariant
            edges == graph.edges(),
            count == edges.len(),
            i <= count,
            m == total_weight(edges.take(i as int)),
            m <= i * 0xFFFF_FFFF,
        decreases count - i,
    {
        let edge = graph.edge(i);
        assert(edges.take(i + 1).drop_last() == edges.take(i as int));
        assert(edges.take(i + 1).last() == edges[i as int]);
        let w: u128 = edge.weight.into();
        m = m + w;
        i += 1;
    }
    assert(edges.take(count as int) == edges);
    m
}

impl ModularityTerms {
    /// The score at `resolution`:
    /// `sigma_internal / m - resolution * (sigma_total / divisor) / (m * m)`
    /// over one denominator. Gives `None` exactly where a product on the
    /// way does not fit in 128 bits.
    pub fn score(&self, resolution: Resolution) -> (r: Option<Score>)
        ensures
            r is Some <==> self@.fits(resolution.numerator as int, resolution.denominator as int),
            r is Some ==> self@.scored_as(
                r->Some_0,
                resolution.numerator as int,
                resolution.denominator as int,
            ),
    {
        let rn: u128 = resolution.numerator.into();
        let rd: u128 = resolution.denominator.into();
        let d: u128 = self.divisor.into();
        let within = match self.sigma_internal.checked_mul(self.total_weight) {
            Some(x) => x,
            None => {
                return None;
            },
        };
        let within = match within.checked_mul(d) {
            Some(x) => x,
            None => {
                return None;
            },
        };
        let gained = match within.checked_mul(rd) {
            Some(x) => x,
            None => {
                return None;
            },
        };
        let expected = match rn.checked_mul(self.sigma_total) {
            Some(x) => x,
            None => {
                return None;
            },
        };
        assert(rd * d <= 0xFFFF_FFFF_FFFF_FFFF * 0xFF) by (nonlinear_arith)
            requires
                rd <= 0xFFFF_FFFF_FFFF_FFFF,
                d <= 0xFF,
        ;
        let scale = rd * d;
        let scale = match scale.checked_mul(self.total_weight) {
            Some(x) => x,
            None => {
                return None;
            },
        };
        let denominator = match scale.checked_mul(self.total_weight) {
            Some(x) => x,
            None => {
                return None;
            },
        };
        Some(Score { gained, expected, denominator })
    }
}

impl PartitionEdgeWeights {
    /// Reduces the per-community sums and the total weight `m` to the
    /// terms of the score. Gives `None` exactly where a term does not fit
    /// in 128 bits.
    pub fn terms(&self, m: u128) -> (r: Option<ModularityTerms>)
        ensures
            r is Some <==> self.sum_internal() <= u128::MAX && self.sum_products() <= u128::MAX,
            r is Some ==> r->Some_0@ == (Terms {
                sigma_internal: self.sum_internal(),
                sigma_total: self.sum_products(),
                divisor: divisor(self.incoming is Some),
                total_weight: m as nat,
            }),
    {
        let sigma_internal = match checked_sum(&self.internal) {
            Some(s) => s,
            None => {
                return None;
            },
        };
        let (sigma_total, divisor) = match &self.incoming {
            Some(incoming) => (checked_dot(incoming, &self.outgoing), 1u8),
            None => (checked_dot(&self.outgoing, &self.outgoing), 4u8),
        };
        match sigma_total {
            Some(sigma_total) => Some(
                ModularityTerms { sigma_internal, sigma_total, divisor, total_weight: m },
            ),
            None => None,
        }
    }

    /// What the outgoing weights are multiplied by: the incoming weights
    /// where they are kept, else the outgoing weights themselves.
    pub open spec fn first_factor(&self) -> Seq<u128> {
        match self.incoming {
            Some(incoming) => incoming@,
            None => self.outgoing@,
        }
    }

    /// The internal weights added up.
    pub open spec fn sum_internal(&self) -> nat {
        prefix_sum(self.internal@, self.internal@.len())
    }

    /// The products of `first_factor` and the outgoing weights added up,
    /// as far as both reach.
    pub open spec fn sum_products(&self) -> nat {
        prefix_dot(
            self.first_factor(),
            self.outgoing@,
            shorter(self.first_factor().len(), self.outgoing@.len()),
        )
    }
}

impl<'g, G: ModularityComputable> Partition<'g, G> {
    /// The terms of this partition's score, or `None` exactly where one
    /// of them does not fit in 128 bits.
    pub fn modularity_terms(&self) -> (r: Option<ModularityTerms>)
        requires
            self.well_formed(),
        ensures
            ({
                let t = terms_of(
                    self.graph().edges(),
                    self.labels(),
                    self.graph().directed(),
                    self.subset_count(),
                );
                &&& r is Some <==> t.sigma_internal <= u128::MAX && t.sigma_total <= u128::MAX
                &&& r is Some ==> r->Some_0@ == t
            }),
    {
        let weights = self.partition_edge_weights();
        let m = total_edge_weight(self.graph_ref());
        proof {
            let edges = self.graph().edges();
            let labels = self.labels();
            let directed = self.graph().directed();
            let k = self.subset_count();
            lemma_sum_is_sigma_internal(weights.internal@, edges, labels, directed, k, k);
            lemma_dot_is_sigma_total(
                weights.first_factor(),
                weights.outgoing@,
                edges,
                labels,
                directed,
                k,
                k,
            );
        }
        weights.terms(m)
    }
}

impl<'g, G: ModularityComputable> Partition<'g, G> {
    /// The modularity of this partition at `resolution`, or `None`
    /// exactly where a sum or a product on the way does not fit in 128
    /// bits.
    pub fn modularity(&self, resolution: Resolution) -> (r: Option<Score>)
        requires
            self.well_formed(),
        ensures
            ({
                let t = terms_of(
                    self.graph().edges(),
                    self.labels(),
                    self.graph().directed(),
                    self.subset_count(),
                );
                let rn = resolution.numerator as int;
                let rd = resolution.denominator as int;
                &&& r is Some <==> t.sigma_internal <= u128::MAX && t.sigma_total <= u128::MAX
                    && t.fits(rn, rd)
                &&& r is Some ==> t.scored_as(r->Some_0, rn, rd)
            }),
    {
        match self.modularity_terms() {
            Some(terms) => terms.score(resolution),
            None => None,
        }
    }
}

/// Checks that `communities` split the nodes of `graph` and gives the
/// modularity of that partition at `resolution`: `None` exactly where a
/// sum or a product on the way does not fit in 128 bits.
pub fn modularity<G: ModularityComputable>(
    graph: &G,
    communities: &[HashSet<usize>],
    resolution: Resolution,
) -> (r: Result<Option<Score>, NotAPartitionError>)
    ensures
        r is Ok <==> is_partition(sets_of(communities@), graph.nodes()),
        r is Ok ==> ({
            let t = terms_of(
                graph.edges(),
                labels_of(sets_of(communities@), graph.nodes()),
                graph.directed(),
                communities@.len(),
            );
            let rn = resolution.numerator as int;
            let rd = resolution.denominator as int;
            &&& r->Ok_0 is Some <==> t.sigma_internal <= u128::MAX && t.sigma_total <= u128::MAX
                && t.fits(rn, rd)
            &&& r->Ok_0 is Some ==> t.scored_as(r->Ok_0->Some_0, rn, rd)
        }),
{
    match Partition::new(graph, communities) {
        Ok(partition) => Ok(partition.modularity(resolution)),
        Err(e) => Err(e),
    }
}

/// Checks that `communities` split the nodes of `graph` and gives the
/// terms of the score of that partition: `None` exactly where one of
/// them does not fit in 128 bits.
pub fn modularity_terms<G: ModularityComputable>(
    graph: &G,
    communities: &[HashSet<usize>],
) -> (r: Result<Option<ModularityTerms>, NotAPartitionError>)
    ensures
        r is Ok <==> is_partition(sets_of(communities@), graph.nodes()),
        r is Ok ==> ({
            let t = terms_of(
                graph.edges(),
                labels_of(sets_of(communities@), graph.nodes()),
                graph.directed(),
                communities@.len(),
            );
            &&& r->Ok_0 is Some <==> t.sigma_internal <= u128::MAX && t.sigma_total <= u128::MAX
            &&& r->Ok_0 is Some ==> r->Ok_0->Some_0@ == t
        }),
{
    match Partition::new(graph, communities) {
        Ok(partition) => Ok(partition.modularity_terms()),
        Err(e) => Err(e),
    }
}

} // verus!

use modularity::graph::Edge;
use modularity::graph::EdgeListGraph;
use modularity::partition::Partition;
use modularity::score::checked_dot;
use modularity::score::checked_sum;
use modularity::score::modularity;
use modularity::score::modularity_terms;
use modularity::score::Resolution;
use modularity::score::Score;
use modularity::score::total_edge_weight;
use modularity::score::ModularityTerms;
use modularity::weights::PartitionEdgeWeights;
use petgraph::graph::DiGraph;
use petgraph::graph::UnGraph;
use std::collections::HashSet;

fn communities_of(lists: Vec<Vec<usize>>) -> Vec<HashSet<usize>> {
    lists.into_iter().map(|list| list.into_iter().collect()).collect()
}

fn score(t: &ModularityTerms, resolution: f64) -> f64 {
    let m = t.total_weight as f64;
    let sigma_total_squared = t.sigma_total as f64 / t.divisor as f64;
    t.sigma_internal as f64 / m - resolution * sigma_total_squared / (m * m)
}

fn value(s: &Score) -> f64 {
    (s.gained as f64 - s.expected as f64) / s.denominator as f64
}

fn sample_edges() -> Vec<Edge> {
    vec![
        Edge { source: 0, target: 1, weight: 2 },
        Edge { source: 1, target: 2, weight: 3 },
        Edge { source: 2, target: 3, weight: 5 },
        Edge { source: 3, target: 0, weight: 7 },
        Edge { source: 2, target: 2, weight: 11 },
    ]
}

#[test]
fn test_modularity_barbell_graph() {
    for n in 3..10 {
        let mut g: UnGraph<(), u32> = UnGraph::with_capacity(2 * n, n * n);
        let nodes: Vec<_> = (0..2 * n).map(|_| g.add_node(())).collect();
        for ii in 0..n {
            for jj in (ii + 1)..n {
                g.add_edge(nodes[ii], nodes[jj], 1);
                g.add_edge(nodes[n + ii], nodes[n + jj], 1);
            }
        }
        g.add_edge(nodes[n - 1], nodes[n], 1);
        let communities: Vec<HashSet<usize>> = vec![
            (0..n).map(|ii| nodes[ii].index()).collect(),
            (n..(2 * n)).map(|ii| nodes[ii].index()).collect(),
        ];
        let resolution = Resolution { numerator: 1, denominator: 1 };
        let m = value(&modularity(&g, &communities, resolution).unwrap().unwrap());
        let e = (n * (n - 1) / 2) as f64;
        let m_expected = 2.0 * (e / (2.0 * e + 1.0) - 0.25);
        assert!((m - m_expected).abs() < 1.0e-9);
    }
}

#[test]
fn test_modularity_directed() {
    for n in 3..10 {
        let mut g: DiGraph<(), u32> = DiGraph::with_capacity(2 * n, 2 * n + 2);
        for _ii in 0..2 * n {
            g.add_node(());
        }
        let nodes: Vec<_> = g.node_indices().collect();
        for ii in 0..n {
            let jj = (ii + 1) % n;
            g.add_edge(nodes[ii], nodes[jj], 1);
            g.add_edge(nodes[n + ii], nodes[n + jj], 1);
        }
        g.add_edge(nodes[0], nodes[n], 1);
        g.add_edge(nodes[n + 1], nodes[1], 1);

        let communities: Vec<HashSet<usize>> = vec![
            (0..n).map(|ii| nodes[ii].index()).collect(),
            (n..2 * n).map(|ii| nodes[ii].index()).collect(),
        ];

        let resolution = Resolution { numerator: 1, denominator: 1 };
        let m = value(&modularity(&g, &communities, resolution).unwrap().unwrap());
        let m_expected = n as f64 / (n as f64 + 1.0) - 0.5;
        assert!((m - m_expected).abs() < 1.0e-9);
    }
}

#[test]
fn barbell_terms_are_exact() {
    let n = 4;
    let mut g: UnGraph<(), u32> = UnGraph::new_undirected();
    let nodes: Vec<_> = (0..2 * n).map(|_| g.add_node(())).collect();
    for ii in 0..n {
        for jj in (ii + 1)..n {
            g.add_edge(nodes[ii], nodes[jj], 1);
            g.add_edge(nodes[n + ii], nodes[n + jj], 1);
        }
    }
    g.add_edge(nodes[n - 1], nodes[n], 1);
    let communities = communities_of(vec![vec![0, 1, 2, 3], vec![4, 5, 6, 7]]);
    let terms = modularity_terms(&g, &communities).unwrap().unwrap();
    assert_eq!(terms.sigma_internal, 12);
    assert_eq!(terms.sigma_total, 13 * 13 + 13 * 13);
    assert_eq!(terms.divisor, 4);
    assert_eq!(terms.total_weight, 13);
}

#[test]
fn undirected_weights_count_each_edge_at_both_ends() {
    let g = EdgeListGraph::new(4, false, sample_edges()).unwrap();
    let subsets = communities_of(vec![vec![0, 1], vec![2, 3]]);
    let p = Partition::new(&g, &subsets).ok().unwrap();
    let w = p.partition_edge_weights();
    assert_eq!(w.internal, vec![2, 16]);
    assert_eq!(w.outgoing, vec![14, 42]);
    assert!(w.incoming.is_none());
}

#[test]
fn directed_weights_keep_incoming_apart() {
    let g = EdgeListGraph::new(4, true, sample_edges()).unwrap();
    let subsets = communities_of(vec![vec![0, 1], vec![2, 3]]);
    let p = Partition::new(&g, &subsets).ok().unwrap();
    let w = p.partition_edge_weights();
    assert_eq!(w.internal, vec![2, 16]);
    assert_eq!(w.outgoing, vec![5, 23]);
    assert_eq!(w.incoming, Some(vec![9, 19]));
}

#[test]
fn empty_community_has_zero_weights() {
    let g = EdgeListGraph::new(4, true, sample_edges()).unwrap();
    let subsets = communities_of(vec![vec![], vec![0, 1, 2, 3], vec![]]);
    let p = Partition::new(&g, &subsets).ok().unwrap();
    let w = p.partition_edge_weights();
    assert_eq!(w.internal, vec![0, 28, 0]);
    assert_eq!(w.outgoing, vec![0, 28, 0]);
    assert_eq!(w.incoming, Some(vec![0, 28, 0]));
}

#[test]
fn terms_of_undirected_sample() {
    let g = EdgeListGraph::new(4, false, sample_edges()).unwrap();
    let subsets = communities_of(vec![vec![0, 1], vec![2, 3]]);
    let p = Partition::new(&g, &subsets).ok().unwrap();
    let t = p.modularity_terms().unwrap();
    assert_eq!(t.sigma_internal, 18);
    assert_eq!(t.sigma_total, 14 * 14 + 42 * 42);
    assert_eq!(t.divisor, 4);
    assert_eq!(t.total_weight, 28);
    let expected = 18.0 / 28.0 - 0.5 * (1960.0 / 4.0) / (28.0 * 28.0);
    assert!((score(&t, 0.5) - expected).abs() < 1.0e-12);
}

#[test]
fn terms_of_directed_sample() {
    let g = EdgeListGraph::new(4, true, sample_edges()).unwrap();
    let subsets = communities_of(vec![vec![0, 1], vec![2, 3]]);
    let t = modularity_terms(&g, &subsets).unwrap().unwrap();
    assert_eq!(t.sigma_internal, 18);
    assert_eq!(t.sigma_total, 9 * 5 + 19 * 23);
    assert_eq!(t.divisor, 1);
    assert_eq!(t.total_weight, 28);
}

#[test]
fn total_edge_weight_counts_each_edge_once() {
    let directed = EdgeListGraph::new(4, true, sample_edges()).unwrap();
    assert_eq!(total_edge_weight(&directed), 28);
    let undirected = EdgeListGraph::new(4, false, sample_edges()).unwrap();
    assert_eq!(total_edge_weight(&undirected), 28);
    let empty = EdgeListGraph::new(4, false, Vec::new()).unwrap();
    assert_eq!(total_edge_weight(&empty), 0);
}

#[test]
fn graph_without_edges_has_zero_terms() {
    let g = EdgeListGraph::new(2, false, Vec::new()).unwrap();
    let subsets = communities_of(vec![vec![0], vec![1]]);
    let t = modularity_terms(&g, &subsets).unwrap().unwrap();
    assert_eq!(t.sigma_internal, 0);
    assert_eq!(t.sigma_total, 0);
    assert_eq!(t.total_weight, 0);
}

#[test]
fn modularity_terms_rejects_what_is_no_partition() {
    let g = EdgeListGraph::new(4, false, sample_edges()).unwrap();
    assert!(modularity_terms(&g, &communities_of(vec![vec![0, 1], vec![1, 2, 3]])).is_err());
    assert!(modularity_terms(&g, &communities_of(vec![vec![0, 1], vec![3]])).is_err());
}

#[test]
fn single_community_undirected_scores_one_minus_resolution() {
    let g = EdgeListGraph::new(4, false, sample_edges()).unwrap();
    let subsets = communities_of(vec![vec![0, 1, 2, 3]]);
    let t = modularity_terms(&g, &subsets).unwrap().unwrap();
    assert_eq!(t.sigma_internal, t.total_weight);
    assert_eq!(t.sigma_total, 4 * 28 * 28);
    for resolution in [0.0, 0.5, 1.0, 2.0] {
        assert!((score(&t, resolution) - (1.0 - resolution)).abs() < 1.0e-12);
    }
}

#[test]
fn single_community_directed_scores_one_minus_resolution() {
    let g = EdgeListGraph::new(4, true, sample_edges()).unwrap();
    let subsets = communities_of(vec![vec![0, 1, 2, 3]]);
    let t = modularity_terms(&g, &subsets).unwrap().unwrap();
    assert_eq!(t.sigma_internal, t.total_weight);
    assert_eq!(t.sigma_total, 28 * 28);
    for resolution in [0.0, 0.5, 1.0, 2.0] {
        assert!((score(&t, resolution) - (1.0 - resolution)).abs() < 1.0e-12);
    }
}

#[test]
fn order_of_subsets_does_not_change_the_terms() {
    for directed in [false, true] {
        let g = EdgeListGraph::new(4, directed, sample_edges()).unwrap();
        let first = communities_of(vec![vec![0], vec![1, 2], vec![3]]);
        let second = communities_of(vec![vec![3], vec![0], vec![2, 1]]);
        let a = modularity_terms(&g, &first).unwrap().unwrap();
        let b = modularity_terms(&g, &second).unwrap().unwrap();
        assert_eq!(a.sigma_internal, b.sigma_internal);
        assert_eq!(a.sigma_total, b.sigma_total);
        assert_eq!(a.divisor, b.divisor);
        assert_eq!(a.total_weight, b.total_weight);
    }
}

#[test]
fn checked_sum_adds_or_gives_none() {
    assert_eq!(checked_sum(&vec![]), Some(0));
    assert_eq!(checked_sum(&vec![1, 2, 3]), Some(6));
    assert_eq!(checked_sum(&vec![u128::MAX, 0]), Some(u128::MAX));
    assert_eq!(checked_sum(&vec![u128::MAX, 1]), None);
}

#[test]
fn checked_dot_multiplies_or_gives_none() {
    assert_eq!(checked_dot(&vec![], &vec![]), Some(0));
    assert_eq!(checked_dot(&vec![1, 2, 3], &vec![4, 5, 6]), Some(32));
    assert_eq!(checked_dot(&vec![u128::MAX], &vec![2]), None);
    assert_eq!(checked_dot(&vec![u128::MAX, 1], &vec![1, 1]), None);
    assert_eq!(checked_dot(&vec![1, 2, 3], &vec![4, 5]), Some(14));
    assert_eq!(checked_dot(&vec![2], &vec![3, u128::MAX]), Some(6));
}

#[test]
fn terms_from_weights() {
    let undirected =
        PartitionEdgeWeights { internal: vec![1, 2], outgoing: vec![3, 4], incoming: None };
    let t = undirected.terms(10).unwrap();
    assert_eq!((t.sigma_internal, t.sigma_total, t.divisor, t.total_weight), (3, 25, 4, 10));
    let directed = PartitionEdgeWeights {
        internal: vec![1, 2],
        outgoing: vec![3, 4],
        incoming: Some(vec![5, 6]),
    };
    let t = directed.terms(10).unwrap();
    assert_eq!((t.sigma_internal, t.sigma_total, t.divisor, t.total_weight), (3, 39, 1, 10));
    let too_large =
        PartitionEdgeWeights { internal: vec![0], outgoing: vec![u128::MAX], incoming: None };
    assert!(too_large.terms(1).is_none());
    let sum_too_large =
        PartitionEdgeWeights { internal: vec![u128::MAX, 1], outgoing: vec![0, 0], incoming: None };
    assert!(sum_too_large.terms(1).is_none());
}

#[test]
fn score_is_the_exact_quotient() {
    let t = ModularityTerms { sigma_internal: 18, sigma_total: 1960, divisor: 4, total_weight: 28 };
    let s = t.score(Resolution { numerator: 1, denominator: 2 }).unwrap();
    assert_eq!(s.gained, 18 * 28 * 4 * 2);
    assert_eq!(s.expected, 1960);
    assert_eq!(s.denominator, 2 * 4 * 28 * 28);
    assert!((value(&s) - score(&t, 0.5)).abs() < 1.0e-12);
}

#[test]
fn score_of_partition_matches_its_terms() {
    let g = EdgeListGraph::new(4, true, sample_edges()).unwrap();
    let subsets = communities_of(vec![vec![0, 1], vec![2, 3]]);
    let p = Partition::new(&g, &subsets).ok().unwrap();
    let s = p.modularity(Resolution { numerator: 3, denominator: 2 }).unwrap();
    assert_eq!(s.gained, 18 * 28 * 2);
    assert_eq!(s.expected, 3 * (9 * 5 + 19 * 23));
    assert_eq!(s.denominator, 2 * 28 * 28);
    let expected = 18.0 / 28.0 - 1.5 * 482.0 / (28.0 * 28.0);
    assert!((value(&s) - expected).abs() < 1.0e-12);
}

#[test]
fn score_gives_none_where_a_product_does_not_fit() {
    let one = Resolution { numerator: 1, denominator: 1 };
    let wide = ModularityTerms {
        sigma_internal: u128::MAX,
        sigma_total: 0,
        divisor: 1,
        total_weight: 2,
    };
    assert!(wide.score(one).is_none());
    let heavy = ModularityTerms {
        sigma_internal: 0,
        sigma_total: 0,
        divisor: 4,
        total_weight: u128::MAX,
    };
    assert!(heavy.score(one).is_none());
    let null_model = ModularityTerms {
        sigma_internal: 1,
        sigma_total: u128::MAX,
        divisor: 1,
        total_weight: 1,
    };
    assert!(null_model.score(Resolution { numerator: 2, denominator: 1 }).is_none());
    assert!(null_model.score(one).is_some());
}

#[test]
fn score_without_weight_has_zero_denominator() {
    let g = EdgeListGraph::new(2, false, Vec::new()).unwrap();
    let subsets = communities_of(vec![vec![0], vec![1]]);
    let resolution = Resolution { numerator: 1, denominator: 1 };
    let s = modularity(&g, &subsets, resolution).unwrap().unwrap();
    assert_eq!((s.gained, s.expected, s.denominator), (0, 0, 0));
}

#[test]
fn modularity_rejects_what_is_no_partition() {
    let g = EdgeListGraph::new(4, true, sample_edges()).unwrap();
    let resolution = Resolution { numerator: 1, denominator: 1 };
    let twice = communities_of(vec![vec![0, 1, 2], vec![2, 3]]);
    assert!(modularity(&g, &twice, resolution).is_err());
    let missing = communities_of(vec![vec![0, 1, 2]]);
    assert!(modularity(&g, &missing, resolution).is_err());
}

#[test]
fn single_community_quotient_is_one_minus_resolution() {
    for directed in [false, true] {
        let g = EdgeListGraph::new(4, directed, sample_edges()).unwrap();
        let subsets = communities_of(vec![vec![0, 1, 2, 3]]);
        for (rn, rd) in [(0u64, 1u64), (1, 1), (1, 2), (5, 3)] {
            let resolution = Resolution { numerator: rn, denominator: rd };
            let s = modularity(&g, &subsets, resolution).unwrap().unwrap();
            let numerator = s.gained as i128 - s.expected as i128;
            let one_minus = rd as i128 - rn as i128;
            assert_eq!(numerator * rd as i128, one_minus * s.denominator as i128);
        }
    }
}

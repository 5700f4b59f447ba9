use modularity::graph::Edge;
use modularity::graph::EdgeListGraph;
use modularity::graph::ModularityComputable;
use modularity::partition::Partition;
use petgraph::graph::DiGraph;
use petgraph::graph::UnGraph;
use std::collections::HashSet;

fn as_sets(lists: Vec<Vec<usize>>) -> Vec<HashSet<usize>> {
    lists.into_iter().map(|list| list.into_iter().collect()).collect()
}

fn path_graph(nodes: usize, directed: bool) -> EdgeListGraph {
    let mut edges = Vec::new();
    for i in 1..nodes {
        edges.push(Edge { source: i - 1, target: i, weight: 1 });
    }
    EdgeListGraph::new(nodes, directed, edges).unwrap()
}

#[test]
fn edge_list_graph_reports_what_it_was_given() {
    let edges = vec![
        Edge { source: 0, target: 2, weight: 7 },
        Edge { source: 2, target: 1, weight: 9 },
    ];
    let g = EdgeListGraph::new(3, true, edges).unwrap();
    assert_eq!(g.node_count(), 3);
    assert!(g.is_directed());
    assert_eq!(g.edge_count(), 2);
    let e = g.edge(1);
    assert_eq!((e.source, e.target, e.weight), (2, 1, 9));
}

#[test]
fn edge_list_graph_rejects_edge_outside_nodes() {
    let source_out = vec![Edge { source: 3, target: 0, weight: 1 }];
    assert!(EdgeListGraph::new(3, false, source_out).is_none());
    let target_out = vec![Edge { source: 0, target: 3, weight: 1 }];
    assert!(EdgeListGraph::new(3, false, target_out).is_none());
    let on_empty = vec![Edge { source: 0, target: 0, weight: 1 }];
    assert!(EdgeListGraph::new(0, false, on_empty).is_none());
}

#[test]
fn new_accepts_a_partition_and_labels_by_position() {
    let g = path_graph(5, false);
    let subsets = as_sets(vec![vec![3, 0], vec![], vec![4, 1, 2]]);
    let p = Partition::new(&g, &subsets).ok().unwrap();
    assert_eq!(p.node_to_subset, vec![0, 2, 2, 0, 2]);
    assert_eq!(p.subset_total(), 3);
    assert_eq!(p.get_subset_id(0), 0);
    assert_eq!(p.get_subset_id(1), 2);
    assert_eq!(p.get_subset_id(4), 2);
    assert_eq!(p.graph_ref().node_count(), 5);
}

#[test]
fn new_accepts_no_subsets_for_no_nodes() {
    let g = EdgeListGraph::new(0, false, Vec::new()).unwrap();
    let subsets: Vec<HashSet<usize>> = Vec::new();
    let p = Partition::new(&g, &subsets).ok().unwrap();
    assert!(p.node_to_subset.is_empty());
    assert_eq!(p.subset_total(), 0);
}

#[test]
fn new_rejects_node_in_two_subsets() {
    let g = path_graph(4, false);
    let subsets = as_sets(vec![vec![0, 1], vec![1, 2, 3]]);
    assert!(Partition::new(&g, &subsets).is_err());
}

#[test]
fn new_rejects_duplicate_even_when_all_nodes_are_covered_later() {
    let g = path_graph(3, true);
    let subsets = as_sets(vec![vec![0], vec![0], vec![1, 2]]);
    assert!(Partition::new(&g, &subsets).is_err());
}

#[test]
fn new_rejects_missing_node() {
    let g = path_graph(4, false);
    let subsets = as_sets(vec![vec![0, 1], vec![3]]);
    assert!(Partition::new(&g, &subsets).is_err());
    let none: Vec<HashSet<usize>> = Vec::new();
    assert!(Partition::new(&g, &none).is_err());
}

#[test]
fn new_rejects_node_outside_graph() {
    let g = path_graph(3, false);
    let subsets = as_sets(vec![vec![0, 1, 2], vec![3]]);
    assert!(Partition::new(&g, &subsets).is_err());
}

#[test]
fn petgraph_directed_graph_is_read_through() {
    let mut g: DiGraph<(), u32> = DiGraph::new();
    let a = g.add_node(());
    let b = g.add_node(());
    let c = g.add_node(());
    g.add_edge(c, a, 5);
    g.add_edge(a, b, 8);
    assert_eq!(ModularityComputable::node_count(&g), 3);
    assert_eq!(ModularityComputable::edge_count(&g), 2);
    assert!(ModularityComputable::is_directed(&g));
    let first = ModularityComputable::edge(&g, 0);
    assert_eq!((first.source, first.target, first.weight), (2, 0, 5));
    let second = ModularityComputable::edge(&g, 1);
    assert_eq!((second.source, second.target, second.weight), (0, 1, 8));
}

#[test]
fn petgraph_undirected_graph_is_read_through() {
    let mut g: UnGraph<(), u32> = UnGraph::new_undirected();
    let a = g.add_node(());
    let b = g.add_node(());
    g.add_edge(b, a, 4);
    assert_eq!(ModularityComputable::node_count(&g), 2);
    assert_eq!(ModularityComputable::edge_count(&g), 1);
    assert!(!ModularityComputable::is_directed(&g));
    let e = ModularityComputable::edge(&g, 0);
    assert_eq!((e.source, e.target, e.weight), (1, 0, 4));
}

#[test]
fn partition_of_petgraph_graph() {
    let mut g: UnGraph<(), u32> = UnGraph::new_undirected();
    let nodes: Vec<_> = (0..4).map(|_| g.add_node(())).collect();
    g.add_edge(nodes[0], nodes[1], 1);
    g.add_edge(nodes[2], nodes[3], 1);
    let subsets = as_sets(vec![
        vec![nodes[2].index(), nodes[3].index()],
        vec![nodes[0].index(), nodes[1].index()],
    ]);
    let p = Partition::new(&g, &subsets).ok().unwrap();
    assert_eq!(p.node_to_subset, vec![1, 1, 0, 0]);
    let missing =
        as_sets(vec![vec![nodes[0].index()], vec![nodes[2].index(), nodes[3].index()]]);
    assert!(Partition::new(&g, &missing).is_err());
}

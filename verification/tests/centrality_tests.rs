use community_simulation::centrality::{build_trade_graph, network_structure, node_degrees, TradeGraph};
use petgraph::graph::NodeIndex;

fn neighbors(g: &TradeGraph, a: usize) -> Vec<usize> {
    g.neighbors(NodeIndex::new(a)).map(|n| n.index()).collect()
}

fn components(person_ids: &[&str], relations: Vec<(String, String)>) -> usize {
    network_structure(&ids(person_ids), &relations).connected_components
}
use community_simulation::shortest_paths::{breadth_first, shortest_path_counts};

fn ids(names: &[&str]) -> Vec<String> {
    names.iter().map(|s| s.to_string()).collect()
}

fn rel(a: &str, b: &str) -> (String, String) {
    (a.to_string(), b.to_string())
}

#[test]
fn single_node_network() {
    let g = build_trade_graph(&ids(&["Person1"]), &vec![]);
    assert_eq!(g.node_count(), 1);
    assert_eq!(components(&["Person1"], vec![]), 1);
    assert_eq!(node_degrees(&g), vec![0]);
}

#[test]
fn two_node_network_is_connected() {
    let g = build_trade_graph(&ids(&["Person1", "Person2"]), &vec![rel("Person1", "Person2")]);
    assert_eq!(components(&["Person1", "Person2"], vec![rel("Person1", "Person2")]), 1);
    assert_eq!(node_degrees(&g), vec![1, 1]);
}

#[test]
fn star_network_degrees() {
    let g = build_trade_graph(
        &ids(&["Center", "Spoke1", "Spoke2", "Spoke3", "Spoke4"]),
        &vec![
            rel("Center", "Spoke1"),
            rel("Center", "Spoke2"),
            rel("Center", "Spoke3"),
            rel("Center", "Spoke4"),
        ],
    );
    assert_eq!(node_degrees(&g), vec![4, 1, 1, 1, 1]);
    // most recent edge first
    assert_eq!(neighbors(&g, 0), vec![4, 3, 2, 1]);
}

#[test]
fn disconnected_network_components() {
    assert_eq!(
        components(
            &["Person1", "Person2", "Person3", "Person4"],
            vec![rel("Person1", "Person2"), rel("Person3", "Person4")],
        ),
        2
    );
}

#[test]
fn relations_with_unknown_persons_are_dropped() {
    let g = build_trade_graph(
        &ids(&["A", "B", "C"]),
        &vec![rel("A", "Z"), rel("A", "C"), rel("Q", "B")],
    );
    assert_eq!(g.edge_count(), 1);
    assert_eq!(node_degrees(&g), vec![1, 0, 1]);
    assert_eq!(components(&["A", "B", "C"], vec![rel("A", "Z"), rel("A", "C"), rel("Q", "B")]), 2);
}

#[test]
fn neighbor_order_and_loops() {
    let g = build_trade_graph(
        &ids(&["A", "B", "C"]),
        &vec![rel("A", "B"), rel("C", "A"), rel("A", "A"), rel("A", "C")],
    );
    // outgoing (A,B),(A,A),(A,C) most recent first, then incoming (C,A)
    assert_eq!(neighbors(&g, 0), vec![2, 0, 1, 2]);
    assert_eq!(node_degrees(&g), vec![4, 1, 2]);
}

#[test]
fn duplicate_identifier_resolves_to_last_node() {
    let g = build_trade_graph(&ids(&["A", "B", "A"]), &vec![rel("A", "B")]);
    assert_eq!(g.node_count(), 3);
    assert_eq!(neighbors(&g, 2), vec![1]);
    assert_eq!(neighbors(&g, 0), Vec::<usize>::new());
}

#[test]
fn search_along_a_path() {
    let g = build_trade_graph(&ids(&["A", "B", "C"]), &vec![rel("A", "B"), rel("B", "C")]);
    let bfs = breadth_first(&g, 0);
    assert_eq!(bfs.order, vec![0, 1, 2]);
    assert_eq!(bfs.distance, vec![Some(0), Some(1), Some(2)]);
    assert_eq!(bfs.predecessors, vec![vec![], vec![0], vec![1]]);
    assert_eq!(shortest_path_counts(&g, &bfs, 0), Some(vec![1, 1, 1]));
}

#[test]
fn diamond_has_two_shortest_paths() {
    let g = build_trade_graph(
        &ids(&["A", "B", "C", "D"]),
        &vec![rel("A", "B"), rel("A", "C"), rel("B", "D"), rel("C", "D")],
    );
    let bfs = breadth_first(&g, 0);
    // neighbours are listed most recent edge first
    assert_eq!(bfs.order, vec![0, 2, 1, 3]);
    assert_eq!(bfs.distance, vec![Some(0), Some(1), Some(1), Some(2)]);
    assert_eq!(bfs.predecessors, vec![vec![], vec![0], vec![0], vec![2, 1]]);
    assert_eq!(shortest_path_counts(&g, &bfs, 0), Some(vec![1, 1, 1, 2]));
}

#[test]
fn search_from_the_far_end() {
    let g = build_trade_graph(
        &ids(&["A", "B", "C", "D"]),
        &vec![rel("A", "B"), rel("A", "C"), rel("B", "D"), rel("C", "D")],
    );
    let bfs = breadth_first(&g, 3);
    assert_eq!(bfs.distance, vec![Some(2), Some(1), Some(1), Some(0)]);
    assert_eq!(bfs.order[0], 3);
    assert_eq!(shortest_path_counts(&g, &bfs, 3), Some(vec![2, 1, 1, 1]));
}

#[test]
fn unreached_nodes_have_no_distance() {
    let g = build_trade_graph(&ids(&["A", "B", "C"]), &vec![rel("A", "B")]);
    let bfs = breadth_first(&g, 0);
    assert_eq!(bfs.order, vec![0, 1]);
    assert_eq!(bfs.distance, vec![Some(0), Some(1), None]);
    assert_eq!(bfs.predecessors[2], Vec::<usize>::new());
    assert_eq!(shortest_path_counts(&g, &bfs, 0), Some(vec![1, 1, 0]));
}

#[test]
fn parallel_trades_count_as_separate_paths() {
    let g = build_trade_graph(&ids(&["A", "B"]), &vec![rel("A", "B"), rel("B", "A")]);
    let bfs = breadth_first(&g, 0);
    assert_eq!(bfs.predecessors, vec![vec![], vec![0, 0]]);
    assert_eq!(shortest_path_counts(&g, &bfs, 0), Some(vec![1, 2]));
}

#[test]
fn self_trade_is_no_shortest_path() {
    let g = build_trade_graph(&ids(&["A", "B"]), &vec![rel("A", "A"), rel("A", "B")]);
    let bfs = breadth_first(&g, 0);
    assert_eq!(bfs.distance, vec![Some(0), Some(1)]);
    assert_eq!(bfs.predecessors, vec![vec![], vec![0]]);
    assert_eq!(shortest_path_counts(&g, &bfs, 0), Some(vec![1, 1]));
}

#[test]
fn every_reached_person_has_a_shortest_path() {
    let g = build_trade_graph(
        &ids(&["A", "B", "C", "D", "E", "F"]),
        &vec![rel("A", "B"), rel("B", "C"), rel("C", "D"), rel("A", "D"), rel("D", "E")],
    );
    for source in 0..6 {
        let bfs = breadth_first(&g, source);
        let counts = shortest_path_counts(&g, &bfs, source).unwrap();
        for w in 0..6 {
            match bfs.distance[w] {
                Some(_) => assert!(counts[w] >= 1),
                None => assert_eq!(counts[w], 0),
            }
        }
    }
    let bfs = breadth_first(&g, 1);
    let counts = shortest_path_counts(&g, &bfs, 1).unwrap();
    // B reaches D over A and over C
    assert_eq!(bfs.distance[3], Some(2));
    assert_eq!(counts[3], 2);
    assert_eq!(counts[4], 2);
}

#[test]
fn structure_of_a_network() {
    let s = network_structure(
        &ids(&["Person1", "Person2", "Person3", "Person4", "Person5"]),
        &vec![rel("Person1", "Person2"), rel("Person3", "Person4"), rel("Person4", "Person3")],
    );
    assert_eq!(s.graph.node_count(), 5);
    assert_eq!(s.graph.edge_count(), 3);
    assert_eq!(s.degrees, vec![1, 1, 2, 2, 0]);
    // {1,2}, {3,4} and the isolated Person5
    assert_eq!(s.connected_components, 3);
}

#[test]
fn empty_network_has_no_components() {
    let s = network_structure(&vec![], &vec![]);
    assert_eq!(s.graph.node_count(), 0);
    assert!(s.degrees.is_empty());
    assert_eq!(s.connected_components, 0);
}

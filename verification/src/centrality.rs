//! The trading network: building it from traded-with relations, and the
//! degrees and connected components of its centrality analysis.
//!
//! The network is a petgraph undirected graph whose nodes are the persons'
//! identifiers, in the order given, and whose edges are the trading
//! relations between known persons.
use vstd::prelude::*;
use petgraph::graph::NodeIndex;
use petgraph::{Graph, Undirected};

verus! {

#[verifier::external_type_specification]
#[verifier::external_body]
#[verifier::reject_recursive_types(N)]
#[verifier::reject_recursive_types(E)]
#[verifier::reject_recursive_types(Ty)]
#[verifier::reject_recursive_types(Ix)]
pub struct ExGraph<N, E, Ty, Ix>(Graph<N, E, Ty, Ix>);

#[verifier::external_type_specification]
#[verifier::external_body]
pub struct ExUndirected(Undirected);

/// The trading network: persons' identifiers as nodes, trade relations as
/// undirected edges.
pub type TradeGraph = Graph<String, (), Undirected>;

/// The number of nodes of a trading network.
pub uninterp spec fn graph_node_count(g: TradeGraph) -> nat;

/// The edges of a trading network, as pairs of node positions, in the order
/// in which they were added.
pub uninterp spec fn graph_edges(g: TradeGraph) -> Seq<(nat, nat)>;

/// Neighbours of `a` reached over edges listed with `a` first, most recent
/// edge first.
pub open spec fn outgoing_neighbors(edges: Seq<(nat, nat)>, a: nat) -> Seq<nat>
    decreases edges.len(),
{
    if edges.len() == 0 {
        Seq::empty()
    } else {
        let e = edges.last();
        let rest = outgoing_neighbors(edges.drop_last(), a);
        if e.0 == a {
            seq![e.1] + rest
        } else {
            rest
        }
    }
}

/// Neighbours of `a` reached over edges listed with `a` second, most recent
/// edge first; a loop on `a` is not listed here again.
pub open spec fn incoming_neighbors(edges: Seq<(nat, nat)>, a: nat) -> Seq<nat>
    decreases edges.len(),
{
    if edges.len() == 0 {
        Seq::empty()
    } else {
        let e = edges.last();
        let rest = incoming_neighbors(edges.drop_last(), a);
        if e.1 == a && e.0 != a {
            seq![e.0] + rest
        } else {
            rest
        }
    }
}

/// The neighbours of `a` in the order petgraph lists them for an undirected
/// graph: the outgoing ones, then the incoming ones.
pub open spec fn neighbor_seq(edges: Seq<(nat, nat)>, a: nat) -> Seq<nat> {
    outgoing_neighbors(edges, a) + incoming_neighbors(edges, a)
}

/// `w` is listed among the neighbours of `v`.
pub open spec fn adjacent(edges: Seq<(nat, nat)>, v: nat, w: nat) -> bool {
    neighbor_seq(edges, v).contains(w)
}

/// The step from position `i` of `path` to the next is along an edge.
pub open spec fn walk_step(edges: Seq<(nat, nat)>, path: Seq<nat>, i: int) -> bool {
    adjacent(edges, path[i], path[i + 1])
}

/// `path` is a non-empty walk: each node is a neighbour of the one before.
pub open spec fn is_walk(edges: Seq<(nat, nat)>, path: Seq<nat>) -> bool {
    path.len() >= 1 && forall|i: int| 0 <= i < path.len() - 1 ==> #[trigger] walk_step(edges, path, i)
}

/// `v` can be reached from `source` over at most `k` edges.
pub open spec fn reachable_within(edges: Seq<(nat, nat)>, source: nat, k: nat, v: nat) -> bool {
    exists|path: Seq<nat>|
        #[trigger] is_walk(edges, path) && path[0] == source && path.last() == v && path.len() <= k + 1
}

/// `u` and `v` are joined by a walk.
pub open spec fn connected(edges: Seq<(nat, nat)>, u: nat, v: nat) -> bool {
    exists|k: nat| #[trigger] reachable_within(edges, u, k, v)
}

/// The nodes of a network of `node_count` nodes that no smaller node is
/// connected to: the smallest node of each connected component.
pub open spec fn component_leaders(node_count: nat, edges: Seq<(nat, nat)>) -> Set<nat> {
    Set::new(|v: nat| v < node_count && forall|u: nat| u < v ==> !#[trigger] connected(edges, u, v))
}

/// `Graph::new_undirected` from petgraph: a network without nodes or edges.
#[verifier::external_body]
fn new_trade_graph() -> (g: TradeGraph)
    ensures
        graph_node_count(g) == 0,
        graph_edges(g) == Seq::<(nat, nat)>::empty(),
{
    Graph::new_undirected()
}

/// `Graph::add_node` from petgraph: appends a node and returns its position.
/// petgraph panics once the graph holds `u32::MAX` nodes, so that is excluded.
#[verifier::external_body]
fn add_graph_node(g: &mut TradeGraph, id: String) -> (index: usize)
    requires
        graph_node_count(*old(g)) < u32::MAX,
    ensures
        index == graph_node_count(*old(g)),
        graph_node_count(*final(g)) == graph_node_count(*old(g)) + 1,
        graph_edges(*final(g)) == graph_edges(*old(g)),
{
    g.add_node(id).index()
}

/// `Graph::add_edge` from petgraph: appends an edge between two existing
/// nodes. petgraph panics on a missing node and once the graph holds
/// `u32::MAX` edges, so both are excluded.
#[verifier::external_body]
fn add_graph_edge(g: &mut TradeGraph, a: usize, b: usize)
    requires
        a < graph_node_count(*old(g)),
        b < graph_node_count(*old(g)),
        graph_edges(*old(g)).len() < u32::MAX,
    ensures
        graph_node_count(*final(g)) == graph_node_count(*old(g)),
        graph_edges(*final(g)) == graph_edges(*old(g)).push((a as nat, b as nat)),
{
    g.add_edge(NodeIndex::new(a), NodeIndex::new(b), ());
}

/// `Graph::node_count` from petgraph: the number of nodes.
#[verifier::external_body]
pub(crate) fn node_total(g: &TradeGraph) -> (n: usize)
    ensures
        n == graph_node_count(*g),
{
    g.node_count()
}

/// `Graph::neighbors` from petgraph, collected: for an undirected graph, the
/// neighbours over edges added as `(a, x)`, most recent first, then those over
/// edges added as `(x, a)` with `x != a`, most recent first, as petgraph's
/// documentation of `neighbors_undirected` states. Each is the index of a
/// node of the graph, since petgraph only joins existing nodes.
#[verifier::external_body]
pub(crate) fn graph_neighbors(g: &TradeGraph, a: usize) -> (neighbors: Vec<usize>)
    requires
        a < graph_node_count(*g),
    ensures
        neighbors@.map_values(|n: usize| n as nat) == neighbor_seq(graph_edges(*g), a as nat),
        forall|i: int| 0 <= i < neighbors@.len() ==> #[trigger] neighbors@[i] < graph_node_count(*g),
{
    let mut out = Vec::new();
    for n in g.neighbors(NodeIndex::new(a)) {
        out.push(n.index());
    }
    out
}

/// `petgraph::algo::connected_components`: the number of connected
/// components, which petgraph finds by joining the two ends of every edge in
/// a union-find over all nodes. Each component is counted by its smallest
/// node, and there are at most as many as nodes.
#[verifier::external_body]
pub(crate) fn connected_component_count(g: &TradeGraph) -> (count: usize)
    ensures
        count == component_leaders(graph_node_count(*g), graph_edges(*g)).len(),
        count <= graph_node_count(*g),
{
    petgraph::algo::connected_components(g)
}

/// The position of the last occurrence of `id`, if any.
pub open spec fn last_position(ids: Seq<Seq<char>>, id: Seq<char>) -> Option<nat>
    decreases ids.len(),
{
    if ids.len() == 0 {
        None
    } else if ids.last() == id {
        Some((ids.len() - 1) as nat)
    } else {
        last_position(ids.drop_last(), id)
    }
}

/// The edges between known persons, as pairs of node positions: each person
/// is found at the last position that carries their identifier, and a
/// relation naming an unknown person is left out.
pub open spec fn resolved_edges(ids: Seq<Seq<char>>, relations: Seq<(Seq<char>, Seq<char>)>) -> Seq<
    (nat, nat),
>
    decreases relations.len(),
{
    if relations.len() == 0 {
        Seq::empty()
    } else {
        let r = relations.last();
        let rest = resolved_edges(ids, relations.drop_last());
        match (last_position(ids, r.0), last_position(ids, r.1)) {
            (Some(a), Some(b)) => rest.push((a, b)),
            _ => rest,
        }
    }
}

proof fn lemma_last_position_bounds(ids: Seq<Seq<char>>, id: Seq<char>)
    ensures
        last_position(ids, id) matches Some(p) ==> p < ids.len() && ids[p as int] == id,
    decreases ids.len(),
{
    if ids.len() > 0 && ids.last() != id {
        lemma_last_position_bounds(ids.drop_last(), id);
    }
}

proof fn lemma_resolved_edges_bounds(ids: Seq<Seq<char>>, relations: Seq<(Seq<char>, Seq<char>)>)
    ensures
        resolved_edges(ids, relations).len() <= relations.len(),
        forall|i: int|
            0 <= i < resolved_edges(ids, relations).len() ==> #[trigger] resolved_edges(
                ids,
                relations,
            )[i].0 < ids.len() && resolved_edges(ids, relations)[i].1 < ids.len(),
    decreases relations.len(),
{
    if relations.len() > 0 {
        lemma_resolved_edges_bounds(ids, relations.drop_last());
        lemma_last_position_bounds(ids, relations.last().0);
        lemma_last_position_bounds(ids, relations.last().1);
    }
}

/// Position of the last identifier equal to `id`, if any.
fn find_last(ids: &Vec<String>, id: &String) -> (pos: Option<usize>)
    ensures
        match pos {
            Some(p) => last_position(ids@.map_values(|s: String| s@), id@) == Some(p as nat),
            None => last_position(ids@.map_values(|s: String| s@), id@) is None,
        },
{
    let ghost view = ids@.map_values(|s: String| s@);
    let mut i: usize = ids.len();
    assert(view.take(i as int) =~= view);
    while i > 0
        invariant
            i <= ids@.len(),
            view == ids@.map_values(|s: String| s@),
            last_position(view, id@) == last_position(view.take(i as int), id@),
        decreases i,
    {
        let ghost prefix = view.take(i as int);
        assert(prefix.drop_last() =~= view.take(i - 1));
        if ids[i - 1] == *id {
            return Some(i - 1);
        }
        i = i - 1;
    }
    assert(view.take(0) =~= Seq::<Seq<char>>::empty());
    None
}

/// Builds the trading network: one node per person, in order, labelled with
/// the person's identifier, and one edge for each trading relation between
/// two known persons, in order.
pub fn build_trade_graph(person_ids: &Vec<String>, relations: &Vec<(String, String)>) -> (g: TradeGraph)
    requires
        person_ids@.len() < u32::MAX,
        relations@.len() < u32::MAX,
    ensures
        graph_node_count(g) == person_ids@.len(),
        graph_edges(g) == resolved_edges(
            person_ids@.map_values(|s: String| s@),
            relations@.map_values(|r: (String, String)| (r.0@, r.1@)),
        ),
{
    let ghost ids = person_ids@.map_values(|s: String| s@);
    let ghost rels = relations@.map_values(|r: (String, String)| (r.0@, r.1@));
    let mut g = new_trade_graph();
    let mut i: usize = 0;
    while i < person_ids.len()
        invariant
            i <= person_ids@.len(),
            person_ids@.len() < u32::MAX,
            graph_node_count(g) == i,
            graph_edges(g) == Seq::<(nat, nat)>::empty(),
        decreases person_ids@.len() - i,
    {
        add_graph_node(&mut g, person_ids[i].clone());
        i = i + 1;
    }
    let mut j: usize = 0;
    while j < relations.len()
        invariant
            j <= relations@.len(),
            relations@.len() < u32::MAX,
            ids == person_ids@.map_values(|s: String| s@),
            rels == relations@.map_values(|r: (String, String)| (r.0@, r.1@)),
            graph_node_count(g) == person_ids@.len(),
            graph_edges(g) == resolved_edges(ids, rels.take(j as int)),
        decreases relations@.len() - j,
    {
        proof {
            assert(rels.take(j + 1).drop_last() =~= rels.take(j as int));
            assert(rels.take(j + 1).last() == rels[j as int]);
            lemma_resolved_edges_bounds(ids, rels.take(j as int));
            lemma_last_position_bounds(ids, rels[j as int].0);
            lemma_last_position_bounds(ids, rels[j as int].1);
        }
        let source = find_last(person_ids, &relations[j].0);
        let target = find_last(person_ids, &relations[j].1);
        match (source, target) {
            (Some(a), Some(b)) => {
                add_graph_edge(&mut g, a, b);
            },
            _ => {},
        }
        j = j + 1;
    }
    proof {
        assert(rels.take(relations@.len() as int) =~= rels);
    }
    g
}

/// The degree of every node: how many neighbours petgraph lists for it.
pub fn node_degrees(g: &TradeGraph) -> (degrees: Vec<usize>)
    ensures
        degrees@.len() == graph_node_count(*g),
        forall|i: int|
            0 <= i < degrees@.len() ==> #[trigger] degrees@[i] == neighbor_seq(graph_edges(*g), i as nat).len(),
{
    let node_count = node_total(g);
    let mut degrees: Vec<usize> = Vec::new();
    let mut i: usize = 0;
    while i < node_count
        invariant
            i <= node_count,
            node_count == graph_node_count(*g),
            degrees@.len() == i,
            forall|k: int|
                0 <= k < i ==> #[trigger] degrees@[k] == neighbor_seq(graph_edges(*g), k as nat).len(),
        decreases node_count - i,
    {
        let neighbors = graph_neighbors(g, i);
        degrees.push(neighbors.len());
        i = i + 1;
    }
    degrees
}

/// The integer structure of a trading network that its centrality analysis
/// starts from: the network itself, every person's degree and the number of
/// connected components.
pub struct NetworkStructure {
    pub graph: TradeGraph,
    pub degrees: Vec<usize>,
    pub connected_components: usize,
}

/// Builds the trading network of `person_ids` and `relations` (as
/// [`build_trade_graph`] does) and counts its degrees and components.
pub fn network_structure(person_ids: &Vec<String>, relations: &Vec<(String, String)>) -> (s: NetworkStructure)
    requires
        person_ids@.len() < u32::MAX,
        relations@.len() < u32::MAX,
    ensures
        graph_node_count(s.graph) == person_ids@.len(),
        graph_edges(s.graph) == resolved_edges(
            person_ids@.map_values(|id: String| id@),
            relations@.map_values(|r: (String, String)| (r.0@, r.1@)),
        ),
        s.degrees@.len() == person_ids@.len(),
        forall|i: int|
            0 <= i < s.degrees@.len() ==> #[trigger] s.degrees@[i] == neighbor_seq(graph_edges(s.graph), i as nat).len(),
        s.connected_components == component_leaders(person_ids@.len(), graph_edges(s.graph)).len(),
{
    let graph = build_trade_graph(person_ids, relations);
    let degrees = node_degrees(&graph);
    let connected_components = connected_component_count(&graph);
    NetworkStructure { graph, degrees, connected_components }
}

/// Adding an edge raises the degree of each of its ends by one (a loop raises
/// its node's degree by one) and leaves every other degree as it was.
pub proof fn law_degree_of_added_edge(edges: Seq<(nat, nat)>, a: nat, b: nat, v: nat)
    ensures
        neighbor_seq(edges.push((a, b)), v).len() == neighbor_seq(edges, v).len() + if v == a
            || v == b {
            1nat
        } else {
            0nat
        },
{
    assert(edges.push((a, b)).drop_last() =~= edges);
}

} // verus!

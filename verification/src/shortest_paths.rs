//! Shortest paths in the trading network, as the betweenness measure of the
//! centrality analysis uses them: a breadth-first search from one person that
//! finds every reachable person's distance and predecessors on shortest
//! paths, and the number of shortest paths to each.
use vstd::prelude::*;
use crate::centrality::{
    adjacent, graph_edges, graph_neighbors, graph_node_count, is_walk, neighbor_seq, node_total,
    reachable_within, walk_step, TradeGraph,
};

verus! {

/// `d` is the length of a shortest path from `source` to `v`.
pub open spec fn is_distance(edges: Seq<(nat, nat)>, source: nat, v: nat, d: nat) -> bool {
    reachable_within(edges, source, d, v) && (d == 0 || !reachable_within(
        edges,
        source,
        (d - 1) as nat,
        v,
    ))
}

/// `order` extended by the nodes of `ns` it does not hold yet, in the order
/// of `ns`, each once.
pub open spec fn append_new(order: Seq<usize>, ns: Seq<nat>) -> Seq<usize>
    decreases ns.len(),
{
    if ns.len() == 0 {
        order
    } else {
        let prev = append_new(order, ns.drop_last());
        let w = ns.last();
        if exists|i: int| 0 <= i < prev.len() && prev[i] == w {
            prev
        } else {
            prev.push(w as usize)
        }
    }
}

/// The queue of a breadth-first search from `source` once its first `h`
/// entries have been taken out and their neighbours, in petgraph's order,
/// added when new.
pub open spec fn bfs_order(edges: Seq<(nat, nat)>, source: nat, h: nat) -> Seq<usize>
    decreases h,
{
    if h == 0 {
        seq![source as usize]
    } else {
        let prev = bfs_order(edges, source, (h - 1) as nat);
        if h - 1 < prev.len() {
            append_new(prev, neighbor_seq(edges, prev[h - 1] as nat))
        } else {
            prev
        }
    }
}

proof fn lemma_bfs_order_settled(edges: Seq<(nat, nat)>, source: nat, h0: nat, h: nat)
    requires
        h0 <= h,
        bfs_order(edges, source, h0).len() <= h0,
    ensures
        bfs_order(edges, source, h) == bfs_order(edges, source, h0),
    decreases h,
{
    if h > h0 {
        lemma_bfs_order_settled(edges, source, h0, (h - 1) as nat);
    }
}

/// Number of positions that hold a value.
pub open spec fn count_some(s: Seq<Option<usize>>) -> nat
    decreases s.len(),
{
    if s.len() == 0 {
        0
    } else {
        count_some(s.drop_last()) + if s.last() is Some { 1nat } else { 0nat }
    }
}

proof fn lemma_count_some_bound(s: Seq<Option<usize>>)
    ensures
        count_some(s) <= s.len(),
    decreases s.len(),
{
    if s.len() > 0 {
        lemma_count_some_bound(s.drop_last());
    }
}

proof fn lemma_count_some_none(s: Seq<Option<usize>>)
    requires
        forall|i: int| 0 <= i < s.len() ==> #[trigger] s[i] is None,
    ensures
        count_some(s) == 0,
    decreases s.len(),
{
    if s.len() > 0 {
        assert forall|i: int| 0 <= i < s.drop_last().len() implies #[trigger] s.drop_last()[i] is None by {
            assert(s.drop_last()[i] == s[i]);
        }
        lemma_count_some_none(s.drop_last());
    }
}

proof fn lemma_count_some_fill(s: Seq<Option<usize>>, i: int, x: usize)
    requires
        0 <= i < s.len(),
        s[i] is None,
    ensures
        count_some(s.update(i, Some(x))) == count_some(s) + 1,
    decreases s.len(),
{
    let t = s.update(i, Some(x));
    if i == s.len() - 1 {
        assert(t.drop_last() =~= s.drop_last());
    } else {
        assert(t.drop_last() =~= s.drop_last().update(i, Some(x)));
        lemma_count_some_fill(s.drop_last(), i, x);
    }
}

/// Number of times `x` occurs in `s`.
pub open spec fn occurrences(s: Seq<nat>, x: nat) -> nat
    decreases s.len(),
{
    if s.len() == 0 {
        0
    } else {
        occurrences(s.drop_last(), x) + if s.last() == x { 1nat } else { 0nat }
    }
}

/// What `v` contributes to the predecessors of `x`, given `v`'s neighbour
/// list `s`: `v` once per listing of `x`, when `v` is one step closer to the
/// source than `x`.
pub open spec fn pred_block(distance: Seq<Option<usize>>, v: usize, s: Seq<nat>, x: nat) -> Seq<usize> {
    if distance[x as int] is Some && distance[v as int] is Some && distance[v as int]->0 + 1
        == distance[x as int]->0 {
        Seq::new(occurrences(s, x), |_i: int| v)
    } else {
        Seq::empty()
    }
}

/// The predecessors of `x` on shortest paths, in the order a search that
/// visits the nodes of `order` finds them.
pub open spec fn predecessor_seq(
    edges: Seq<(nat, nat)>,
    order: Seq<usize>,
    distance: Seq<Option<usize>>,
    x: nat,
) -> Seq<usize>
    decreases order.len(),
{
    if order.len() == 0 {
        Seq::empty()
    } else {
        predecessor_seq(edges, order.drop_last(), distance, x) + pred_block(
            distance,
            order.last(),
            neighbor_seq(edges, order.last() as nat),
            x,
        )
    }
}

proof fn lemma_occurrences_absent(s: Seq<nat>, x: nat)
    requires
        forall|i: int| 0 <= i < s.len() ==> #[trigger] s[i] != x,
    ensures
        occurrences(s, x) == 0,
    decreases s.len(),
{
    if s.len() > 0 {
        assert forall|i: int| 0 <= i < s.drop_last().len() implies #[trigger] s.drop_last()[i] != x by {
            assert(s.drop_last()[i] == s[i]);
        }
        lemma_occurrences_absent(s.drop_last(), x);
    }
}

proof fn lemma_pred_seq_undiscovered(
    edges: Seq<(nat, nat)>,
    order: Seq<usize>,
    distance: Seq<Option<usize>>,
    x: nat,
)
    requires
        distance[x as int] is None,
    ensures
        predecessor_seq(edges, order, distance, x) == Seq::<usize>::empty(),
    decreases order.len(),
{
    if order.len() > 0 {
        lemma_pred_seq_undiscovered(edges, order.drop_last(), distance, x);
        assert(predecessor_seq(edges, order, distance, x) =~= Seq::<usize>::empty());
    }
}

proof fn lemma_pred_seq_fresh(
    edges: Seq<(nat, nat)>,
    order: Seq<usize>,
    distance: Seq<Option<usize>>,
    x: nat,
)
    requires
        forall|i: int| 0 <= i < order.len() ==> !#[trigger] adjacent(edges, order[i] as nat, x),
    ensures
        predecessor_seq(edges, order, distance, x) == Seq::<usize>::empty(),
    decreases order.len(),
{
    if order.len() > 0 {
        let prefix = order.drop_last();
        assert forall|i: int| 0 <= i < prefix.len() implies !#[trigger] adjacent(edges, prefix[i] as nat, x) by {
            assert(prefix[i] == order[i]);
        }
        lemma_pred_seq_fresh(edges, prefix, distance, x);
        let v = order.last();
        assert(!adjacent(edges, order[order.len() - 1] as nat, x));
        let nv = neighbor_seq(edges, v as nat);
        assert forall|i: int| 0 <= i < nv.len() implies #[trigger] nv[i] != x by {
            if nv[i] == x {
                assert(nv.contains(x));
            }
        }
        lemma_occurrences_absent(nv, x);
        assert(pred_block(distance, v, nv, x) =~= Seq::<usize>::empty());
        assert(predecessor_seq(edges, order, distance, x) =~= Seq::<usize>::empty());
    }
}

proof fn lemma_pred_seq_update(
    edges: Seq<(nat, nat)>,
    order: Seq<usize>,
    distance: Seq<Option<usize>>,
    w: nat,
    value: Option<usize>,
    x: nat,
)
    requires
        w < distance.len(),
        x < distance.len(),
        x != w,
        forall|i: int| 0 <= i < order.len() ==> #[trigger] order[i] < distance.len() && order[i] != w,
    ensures
        predecessor_seq(edges, order, distance.update(w as int, value), x) == predecessor_seq(
            edges,
            order,
            distance,
            x,
        ),
    decreases order.len(),
{
    if order.len() > 0 {
        let prefix = order.drop_last();
        assert forall|i: int| 0 <= i < prefix.len() implies #[trigger] prefix[i] < distance.len()
            && prefix[i] != w by {
            assert(prefix[i] == order[i]);
        }
        lemma_pred_seq_update(edges, prefix, distance, w, value, x);
        let v = order.last();
        assert(v == order[order.len() - 1]);
        let updated = distance.update(w as int, value);
        assert(updated[v as int] == distance[v as int]);
        assert(updated[x as int] == distance[x as int]);
    }
}

/// The nodes that a breadth-first search from `source` reaches, in the order
/// it reaches them, the length of a shortest path to every node (`None` for a
/// node it cannot reach), and every node's predecessors on shortest paths.
pub struct BreadthFirst {
    pub order: Vec<usize>,
    pub distance: Vec<Option<usize>>,
    pub predecessors: Vec<Vec<usize>>,
}

/// What a breadth-first search from `source` over `node_count` nodes joined by
/// `edges` yields: every node's shortest distance (`None` exactly when it cannot
/// be reached, and only nodes of the network can be), the reached nodes each
/// once, starting at `source`, in order of distance and, within a distance,
/// in the order the search's queue takes them, and every node's predecessors
/// on shortest paths.
pub open spec fn is_breadth_first(
    edges: Seq<(nat, nat)>,
    node_count: nat,
    source: nat,
    bfs: BreadthFirst,
) -> bool {
    &&& bfs.distance@.len() == node_count
    &&& forall|v: int|
        0 <= v < node_count ==> match #[trigger] bfs.distance@[v] {
            Some(d) => is_distance(edges, source, v as nat, d as nat),
            None => forall|k: nat| !#[trigger] reachable_within(edges, source, k, v as nat),
        }
    &&& forall|k: nat, v: nat|
        #[trigger] reachable_within(edges, source, k, v) ==> v < node_count
            && bfs.distance@[v as int] is Some && bfs.distance@[v as int]->0 <= k
    &&& bfs.order@ == bfs_order(edges, source, node_count)
    &&& bfs.order@.len() > 0
    &&& bfs.order@[0] == source
    &&& forall|i: int, j: int|
        0 <= i < bfs.order@.len() && 0 <= j < bfs.order@.len() && i != j ==> #[trigger] bfs.order@[i]
            != #[trigger] bfs.order@[j]
    &&& forall|i: int|
        0 <= i < bfs.order@.len() ==> #[trigger] bfs.order@[i] < node_count
            && bfs.distance@[bfs.order@[i] as int] is Some
    &&& forall|v: int|
        0 <= v < node_count && (#[trigger] bfs.distance@[v]) is Some ==> exists|i: int|
            0 <= i < bfs.order@.len() && bfs.order@[i] == v
    &&& forall|i: int, j: int|
        0 <= i <= j < bfs.order@.len() ==> #[trigger] bfs.distance@[bfs.order@[i] as int]->0
            <= #[trigger] bfs.distance@[bfs.order@[j] as int]->0
    &&& bfs.predecessors@.len() == node_count
    &&& forall|x: int|
        0 <= x < node_count ==> (#[trigger] bfs.predecessors@[x])@ == predecessor_seq(
            edges,
            bfs.order@,
            bfs.distance@,
            x as nat,
        )
}

/// Breadth-first search from `source` over the trading network.
pub fn breadth_first(g: &TradeGraph, source: usize) -> (bfs: BreadthFirst)
    requires
        source < graph_node_count(*g),
    ensures
        is_breadth_first(graph_edges(*g), graph_node_count(*g), source as nat, bfs),
{
    let ghost edges = graph_edges(*g);
    let node_count = node_total(g);
    let mut distance: Vec<Option<usize>> = Vec::new();
    let mut preds: Vec<Vec<usize>> = Vec::new();
    let mut k: usize = 0;
    while k < node_count
        invariant
            k <= node_count,
            distance@.len() == k,
            preds@.len() == k,
            forall|v: int| 0 <= v < k ==> #[trigger] distance@[v] is None,
            forall|v: int| 0 <= v < k ==> (#[trigger] preds@[v])@ == Seq::<usize>::empty(),
        decreases node_count - k,
    {
        distance.push(None);
        preds.push(Vec::new());
        k = k + 1;
    }
    proof {
        lemma_count_some_none(distance@);
        lemma_count_some_fill(distance@, source as int, 0);
        lemma_reach_start(graph_edges(*g), source as nat);
    }
    distance.set(source, Some(0));
    let mut order: Vec<usize> = Vec::new();
    order.push(source);
    let mut head: usize = 0;
    proof {
        assert forall|x: int| 0 <= x < node_count implies (#[trigger] preds@[x])@ == predecessor_seq(
            edges,
            order@.take(0),
            distance@,
            x as nat,
        ) by {
            assert(order@.take(0).len() == 0);
        }
    }
    while head < order.len()
        invariant
            order@ == bfs_order(edges, source as nat, head as nat),
            node_count == graph_node_count(*g),
            preds@.len() == node_count,
            forall|x: int|
                0 <= x < node_count ==> (#[trigger] preds@[x])@ == predecessor_seq(
                    edges,
                    order@.take(head as int),
                    distance@,
                    x as nat,
                ),
            edges == graph_edges(*g),
            source < node_count,
            distance@.len() == node_count,
            order@.len() >= 1,
            order@[0] == source,
            distance@[source as int] == Some(0usize),
            head <= order@.len(),
            count_some(distance@) == order@.len(),
            forall|i: int| 0 <= i < order@.len() ==> #[trigger] order@[i] < node_count,
            forall|i: int| 0 <= i < order@.len() ==> (#[trigger] distance@[order@[i] as int]) is Some,
            forall|i: int|
                0 <= i < order@.len() ==> #[trigger] distance@[order@[i] as int]->0 <= i,
            forall|v: int|
                0 <= v < node_count && (#[trigger] distance@[v]) is Some ==> exists|i: int| 0 <= i < order@.len() && order@[i] == v,
            forall|i: int, j: int|
                0 <= i < order@.len() && 0 <= j < order@.len() && i != j ==> #[trigger] order@[i]
                    != #[trigger] order@[j],
            forall|i: int, j: int|
                0 <= i <= j < order@.len() ==> #[trigger] distance@[order@[i] as int]->0
                    <= #[trigger] distance@[order@[j] as int]->0,
            head < order@.len() ==> distance@[order@[order@.len() - 1] as int]->0 <= distance@[order@[head as int] as int]->0 + 1,
            forall|v: int|
                0 <= v < node_count && (#[trigger] distance@[v]) is Some ==> reachable_within(edges, source as nat, distance@[v]->0 as nat, v as nat),
            forall|i: int, w: nat|
                0 <= i < head && #[trigger] adjacent(edges, order@[i] as nat, w) ==> w < node_count
                    && distance@[w as int] is Some && distance@[w as int]->0 <= distance@[order@[i] as int]->0 + 1,
        decreases node_count - head,
    {
        proof {
            lemma_count_some_bound(distance@);
        }
        let v = order[head];
        let dv = match distance[v] {
            Some(d) => d,
            None => 0,
        };
        let neighbors = graph_neighbors(g, v);
        let ghost nseq = neighbor_seq(edges, v as nat);
        proof {
            assert forall|i: int| 0 <= i < nseq.len() implies #[trigger] nseq[i] < node_count by {
                assert(nseq[i] == neighbors@[i] as nat);
            }
        }
        let mut j: usize = 0;
        let ghost base = order@;
        while j < neighbors.len()
            invariant
                base == bfs_order(edges, source as nat, head as nat),
                head < base.len(),
                base[head as int] == v,
                order@ == append_new(base, nseq.take(j as int)),
                node_count == graph_node_count(*g),
                preds@.len() == node_count,
                forall|x: int|
                    0 <= x < node_count ==> (#[trigger] preds@[x])@ == predecessor_seq(
                        edges,
                        order@.take(head as int),
                        distance@,
                        x as nat,
                    ) + pred_block(distance@, v, nseq.take(j as int), x as nat),
                edges == graph_edges(*g),
                    source < node_count,
                distance@.len() == node_count,
                order@.len() >= 1,
                order@[0] == source,
                distance@[source as int] == Some(0usize),
                head < order@.len(),
                v == order@[head as int],
                distance@[v as int] == Some(dv),
                dv <= head,
                neighbors@.map_values(|n: usize| n as nat) == nseq,
                nseq == neighbor_seq(edges, v as nat),
                forall|i: int| 0 <= i < nseq.len() ==> #[trigger] nseq[i] < node_count,
                j <= neighbors@.len(),
                count_some(distance@) == order@.len(),
                forall|i: int| 0 <= i < order@.len() ==> #[trigger] order@[i] < node_count,
                forall|i: int| 0 <= i < order@.len() ==> (#[trigger] distance@[order@[i] as int]) is Some,
                forall|i: int|
                    0 <= i < order@.len() ==> #[trigger] distance@[order@[i] as int]->0 <= i,
                forall|u: int|
                    0 <= u < node_count && (#[trigger] distance@[u]) is Some ==> exists|i: int| 0 <= i < order@.len() && order@[i] == u,
                forall|i: int, k2: int|
                    0 <= i < order@.len() && 0 <= k2 < order@.len() && i != k2 ==> #[trigger] order@[i]
                        != #[trigger] order@[k2],
                forall|i: int, k2: int|
                    0 <= i <= k2 < order@.len() ==> #[trigger] distance@[order@[i] as int]->0
                        <= #[trigger] distance@[order@[k2] as int]->0,
                distance@[order@[order@.len() - 1] as int]->0 <= dv + 1,
                forall|u: int|
                    0 <= u < node_count && (#[trigger] distance@[u]) is Some ==> reachable_within(edges, source as nat, distance@[u]->0 as nat, u as nat),
                forall|i: int, w: nat|
                    0 <= i < head && #[trigger] adjacent(edges, order@[i] as nat, w) ==> w < node_count
                        && distance@[w as int] is Some && distance@[w as int]->0 <= distance@[order@[i] as int]->0 + 1,
                forall|i: int|
                    0 <= i < j ==> distance@[#[trigger] nseq[i] as int] is Some && distance@[nseq[i] as int]->0 <= dv + 1,
            decreases neighbors@.len() - j,
        {
            let w = neighbors[j];
            let ghost preds0 = preds@;
            let ghost dist0 = distance@;
            let ghost order0 = order@;
            proof {
                assert(nseq[j as int] == w as nat);
                lemma_count_some_bound(distance@);
                assert(nseq.take(j + 1).drop_last() =~= nseq.take(j as int));
                assert(nseq.take(j + 1).last() == w as nat);
                if exists|i: int| 0 <= i < order@.len() && order@[i] == w {
                    let i = choose|i: int| 0 <= i < order@.len() && order@[i] == w;
                    assert(distance@[order@[i] as int] is Some);
                }
            }
            match distance[w] {
                Some(_) => {},
                None => {
                    proof {
                        lemma_count_some_fill(distance@, w as int, (dv + 1) as usize);
                        assert(adjacent(edges, v as nat, w as nat)) by {
                            assert(nseq[j as int] == w as nat);
                        }
                        assert(reachable_within(edges, source as nat, dv as nat, v as nat));
                        lemma_reach_step(edges, source as nat, dv as nat, v as nat, w as nat);
                        assert(forall|i: int| 0 <= i < order@.len() ==> order@[i] != w) by {
                            assert forall|i: int| 0 <= i < order@.len() implies order@[i] != w by {
                                assert(distance@[order@[i] as int] is Some);
                            }
                        }
                    }
                    assert(order@.len() < node_count) by {
                        lemma_count_some_bound(distance@.update(w as int, Some((dv + 1) as usize)));
                    }
                    let ghost old_order = order@;
                    let ghost old_distance = distance@;
                    distance.set(w, Some(dv + 1));
                    order.push(w);
                    proof {
                        assert forall|u: int|
                            0 <= u < node_count && (#[trigger] distance@[u]) is Some implies exists|i: int|
                                0 <= i < order@.len() && order@[i] == u by {
                            if u == w {
                                assert(order@[old_order.len() as int] == w);
                            } else {
                                assert(old_distance[u] is Some);
                                let i = choose|i: int| 0 <= i < old_order.len() && old_order[i] == u;
                                assert(order@[i] == old_order[i]);
                            }
                        }
                    }
                },
            }
            let is_pred = match distance[w] {
                Some(d) => d == dv + 1,
                None => false,
            };
            if is_pred {
                let mut pw: Vec<usize> = Vec::new();
                preds.set_and_swap(w, &mut pw);
                pw.push(v);
                preds.set_and_swap(w, &mut pw);
                proof {
                    assert(preds@ =~= preds0.update(w as int, preds@[w as int]));
                }
            }
            proof {
                lemma_pred_step(edges, order0, head as int, dist0, distance@, preds0, preds@, v, nseq, j as int, w as nat, dv, node_count as nat);
                assert(order@.take(head as int) =~= order0.take(head as int));
            }
            j = j + 1;
        }
        proof {
            assert forall|w: nat| #[trigger] adjacent(edges, v as nat, w) implies w < node_count
                && distance@[w as int] is Some && distance@[w as int]->0 <= dv + 1 by {
                let i = choose|i: int| 0 <= i < nseq.len() && nseq[i] == w;
            }
            assert(order@.take(head + 1).drop_last() =~= order@.take(head as int));
            assert(nseq.take(neighbors@.len() as int) =~= nseq);
            assert(((head + 1) as nat - 1) as nat == head as nat);
            assert(order@ == bfs_order(edges, source as nat, (head + 1) as nat));
            assert forall|x: int| 0 <= x < node_count implies (#[trigger] preds@[x])@ == predecessor_seq(
                edges,
                order@.take(head + 1),
                distance@,
                x as nat,
            ) by {
                assert(order@.take(head + 1).last() == v);
            }
        }
        head = head + 1;
    }
    proof {
        lemma_bfs_complete(edges, distance@, order@, source as nat, node_count as nat);
        assert(order@.take(order@.len() as int) =~= order@);
        lemma_count_some_bound(distance@);
        lemma_bfs_order_settled(edges, source as nat, head as nat, node_count as nat);
    }
    BreadthFirst { order, distance, predecessors: preds }
}

/// One neighbour `w = nseq[j]` of `v` handled: the predecessor lists go on
/// matching the nodes visited so far plus `v`'s part up to `j + 1`.
proof fn lemma_pred_step(
    edges: Seq<(nat, nat)>,
    order0: Seq<usize>,
    head: int,
    dist0: Seq<Option<usize>>,
    dist1: Seq<Option<usize>>,
    preds0: Seq<Vec<usize>>,
    preds1: Seq<Vec<usize>>,
    v: usize,
    nseq: Seq<nat>,
    j: int,
    w: nat,
    dv: usize,
    node_count: nat,
)
    requires
        0 <= head < order0.len(),
        0 <= j < nseq.len(),
        nseq[j] == w,
        w < node_count,
        dist0.len() == node_count,
        preds0.len() == node_count,
        v == order0[head],
        v < node_count,
        dist0[v as int] == Some(dv),
        dv < usize::MAX,
        forall|i: int| 0 <= i < order0.len() ==> #[trigger] order0[i] < node_count,
        forall|i: int| 0 <= i < order0.len() ==> (#[trigger] dist0[order0[i] as int]) is Some,
        forall|i: int, u: nat|
            0 <= i < head && #[trigger] adjacent(edges, order0[i] as nat, u) ==> dist0[u as int] is Some,
        forall|i: int| 0 <= i < j ==> dist0[#[trigger] nseq[i] as int] is Some,
        forall|x: int|
            0 <= x < node_count ==> (#[trigger] preds0[x])@ == predecessor_seq(
                edges,
                order0.take(head),
                dist0,
                x as nat,
            ) + pred_block(dist0, v, nseq.take(j), x as nat),
        dist0[w as int] is None ==> dist1 == dist0.update(w as int, Some((dv + 1) as usize)),
        dist0[w as int] is Some ==> dist1 == dist0,
        dist1[w as int] == Some((dv + 1) as usize) ==> preds1 == preds0.update(
            w as int,
            preds1[w as int],
        ) && preds1[w as int]@ == preds0[w as int]@.push(v),
        dist1[w as int] != Some((dv + 1) as usize) ==> preds1 == preds0,
    ensures
        forall|x: int|
            0 <= x < node_count ==> (#[trigger] preds1[x])@ == predecessor_seq(
                edges,
                order0.take(head),
                dist1,
                x as nat,
            ) + pred_block(dist1, v, nseq.take(j + 1), x as nat),
{
    let prefix = order0.take(head);
    assert(nseq.take(j + 1).drop_last() =~= nseq.take(j));
    assert(nseq.take(j + 1).last() == w);
    assert forall|i: int| 0 <= i < prefix.len() implies #[trigger] prefix[i] < dist0.len() && prefix[i]
        != w || dist0[w as int] is Some by {
        assert(prefix[i] == order0[i]);
        assert(dist0[order0[i] as int] is Some);
    }
    assert forall|x: int| 0 <= x < node_count implies (#[trigger] preds1[x])@ == predecessor_seq(
        edges,
        prefix,
        dist1,
        x as nat,
    ) + pred_block(dist1, v, nseq.take(j + 1), x as nat) by {
        let occ0 = occurrences(nseq.take(j), x as nat);
        assert(occurrences(nseq.take(j + 1), x as nat) == occ0 + if w == x { 1nat } else { 0nat });
        if dist0[w as int] is None {
            assert(v != w);
            assert forall|i: int| 0 <= i < prefix.len() implies #[trigger] prefix[i] < dist0.len()
                && prefix[i] != w by {
                assert(prefix[i] == order0[i]);
                assert(dist0[order0[i] as int] is Some);
            }
            if x == w {
                assert forall|i: int| 0 <= i < prefix.len() implies !#[trigger] adjacent(
                    edges,
                    prefix[i] as nat,
                    x as nat,
                ) by {
                    assert(prefix[i] == order0[i]);
                    if adjacent(edges, order0[i] as nat, w) {
                        assert(dist0[w as int] is Some);
                    }
                }
                lemma_pred_seq_fresh(edges, prefix, dist1, x as nat);
                lemma_pred_seq_undiscovered(edges, prefix, dist0, x as nat);
                assert forall|i: int| 0 <= i < nseq.take(j).len() implies #[trigger] nseq.take(j)[i]
                    != x as nat by {
                    assert(nseq.take(j)[i] == nseq[i]);
                }
                lemma_occurrences_absent(nseq.take(j), x as nat);
                assert(pred_block(dist0, v, nseq.take(j), x as nat) =~= Seq::<usize>::empty());
                assert(dist1[x] == Some((dv + 1) as usize));
                assert(dist1[v as int] == dist0[v as int]);
                assert(pred_block(dist1, v, nseq.take(j + 1), x as nat) =~= seq![v]);
                assert(preds1[x]@ =~= seq![v]);
            } else {
                lemma_pred_seq_update(edges, prefix, dist0, w, Some((dv + 1) as usize), x as nat);
                assert(dist1[x] == dist0[x]);
                assert(dist1[v as int] == dist0[v as int]);
                assert(pred_block(dist1, v, nseq.take(j + 1), x as nat) =~= pred_block(
                    dist0,
                    v,
                    nseq.take(j),
                    x as nat,
                ));
                assert(preds1[x] == preds0[x]);
            }
        } else {
            if x == w && dist1[w as int] == Some((dv + 1) as usize) {
                assert(pred_block(dist1, v, nseq.take(j + 1), x as nat) =~= pred_block(
                    dist0,
                    v,
                    nseq.take(j),
                    x as nat,
                ).push(v));
            } else if x == w {
                assert(pred_block(dist1, v, nseq.take(j + 1), x as nat) =~= Seq::<usize>::empty());
                assert(pred_block(dist0, v, nseq.take(j), x as nat) =~= Seq::<usize>::empty());
            } else {
                assert(pred_block(dist1, v, nseq.take(j + 1), x as nat) =~= pred_block(
                    dist0,
                    v,
                    nseq.take(j),
                    x as nat,
                ));
                assert(preds1[x] == preds0[x]);
            }
        }
    }
}

/// The predecessor lists of a search, as sequences.
pub open spec fn predecessor_lists(bfs: BreadthFirst) -> Seq<Seq<usize>> {
    bfs.predecessors@.map_values(|p: Vec<usize>| p@)
}

/// The number of shortest paths from `source` to `w`, counted along the
/// predecessor lists `preds` (a predecessor listed twice, over two parallel
/// trades, counts twice), where `w` lies `level` steps from the source.
pub open spec fn paths_to(preds: Seq<Seq<usize>>, source: nat, level: nat, w: nat) -> nat
    decreases level, 0nat, 0nat,
{
    if w == source {
        1
    } else if level == 0 {
        0
    } else {
        paths_through(preds, source, (level - 1) as nat, preds[w as int])
    }
}

/// The number of shortest paths from `source`, counted as in [`paths_to`],
/// that end with a step from one of `ps`, each `level` steps from the source.
pub open spec fn paths_through(preds: Seq<Seq<usize>>, source: nat, level: nat, ps: Seq<usize>) -> nat
    decreases level, 1nat, ps.len(),
{
    if ps.len() == 0 {
        0
    } else {
        paths_through(preds, source, level, ps.drop_last()) + paths_to(
            preds,
            source,
            level,
            ps.last() as nat,
        )
    }
}

/// The number of shortest paths from `source` to every node (0 for a node the
/// search did not reach): the source counts one, and every other node the sum
/// of its predecessors' counts, taken in the order of the search. `None` when
/// a count does not fit in `usize`.
pub fn shortest_path_counts(g: &TradeGraph, bfs: &BreadthFirst, source: usize) -> (counts: Option<Vec<usize>>)
    requires
        is_breadth_first(graph_edges(*g), graph_node_count(*g), source as nat, *bfs),
    ensures
        match counts {
            Some(c) => c@.len() == graph_node_count(*g) && forall|w: int|
                0 <= w < c@.len() ==> #[trigger] c@[w] == match bfs.distance@[w] {
                    Some(d) => paths_to(predecessor_lists(*bfs), source as nat, d as nat, w as nat),
                    None => 0,
                },
            None => exists|w: int|
                0 <= w < graph_node_count(*g) && (#[trigger] bfs.distance@[w]) is Some && paths_to(
                    predecessor_lists(*bfs),
                    source as nat,
                    bfs.distance@[w]->0 as nat,
                    w as nat,
                ) > usize::MAX,
        },
{
    let ghost edges = graph_edges(*g);
    let ghost preds = predecessor_lists(*bfs);
    let n = bfs.distance.len();
    let mut counts: Vec<usize> = Vec::new();
    let mut z: usize = 0;
    while z < n
        invariant
            z <= n,
            counts@.len() == z,
            forall|x: int| 0 <= x < z ==> #[trigger] counts@[x] == 0,
        decreases n - z,
    {
        counts.push(0);
        z = z + 1;
    }
    let mut i: usize = 0;
    while i < bfs.order.len()
        invariant
            is_breadth_first(edges, graph_node_count(*g), source as nat, *bfs),
            edges == graph_edges(*g),
            preds == predecessor_lists(*bfs),
            n == bfs.distance@.len(),
            counts@.len() == n,
            i <= bfs.order@.len(),
            forall|i2: int|
                0 <= i2 < i ==> #[trigger] counts@[bfs.order@[i2] as int] == paths_to(
                    preds,
                    source as nat,
                    bfs.distance@[bfs.order@[i2] as int]->0 as nat,
                    bfs.order@[i2] as nat,
                ),
            forall|x: int|
                0 <= x < n && (forall|i2: int| 0 <= i2 < i ==> bfs.order@[i2] != x) ==> #[trigger] counts@[x]
                    == 0,
        decreases bfs.order@.len() - i,
    {
        let w = bfs.order[i];
        let ghost level = bfs.distance@[w as int]->0 as nat;
        if w == source {
            counts.set(w, 1);
        } else {
            let ps = &bfs.predecessors[w];
            proof {
                lemma_pred_seq_members(edges, bfs.order@, bfs.distance@, w as nat);
                assert(ps@ == preds[w as int]);
            }
            let mut sum: usize = 0;
            let mut k: usize = 0;
            while k < ps.len()
                invariant
                    is_breadth_first(edges, graph_node_count(*g), source as nat, *bfs),
                    preds == predecessor_lists(*bfs),
                    n == bfs.distance@.len(),
                    counts@.len() == n,
                    i < bfs.order@.len(),
                    w == bfs.order@[i as int],
                    w != source,
                    level == bfs.distance@[w as int]->0,
                    ps@ == preds[w as int],
                    ps@ == predecessor_seq(edges, bfs.order@, bfs.distance@, w as nat),
                    forall|k2: int|
                        0 <= k2 < ps@.len() ==> {
                            let p = #[trigger] predecessor_seq(edges, bfs.order@, bfs.distance@, w as nat)[k2];
                            &&& bfs.order@.contains(p)
                            &&& bfs.distance@[p as int] is Some
                            &&& bfs.distance@[w as int] is Some
                            &&& bfs.distance@[p as int]->0 + 1 == bfs.distance@[w as int]->0
                        },
                    forall|i2: int|
                        0 <= i2 < i ==> #[trigger] counts@[bfs.order@[i2] as int] == paths_to(
                            preds,
                            source as nat,
                            bfs.distance@[bfs.order@[i2] as int]->0 as nat,
                            bfs.order@[i2] as nat,
                        ),
                    k <= ps@.len(),
                    sum == paths_through(preds, source as nat, (level - 1) as nat, ps@.take(k as int)),
                decreases ps@.len() - k,
            {
                let p = ps[k];
                proof {
                    assert(ps@[k as int] == p);
                    let i2 = choose|i2: int| 0 <= i2 < bfs.order@.len() && bfs.order@[i2] == p;
                    if i2 >= i {
                        assert(bfs.distance@[bfs.order@[i as int] as int]->0 <= bfs.distance@[bfs.order@[i2] as int]->0);
                    }
                    assert(counts@[bfs.order@[i2] as int] == paths_to(
                        preds,
                        source as nat,
                        bfs.distance@[bfs.order@[i2] as int]->0 as nat,
                        bfs.order@[i2] as nat,
                    ));
                    assert(ps@.take(k + 1).drop_last() =~= ps@.take(k as int));
                    assert(ps@.take(k + 1).last() == p);
                    assert(level >= 1);
                }
                match sum.checked_add(counts[p]) {
                    Some(t) => {
                        sum = t;
                    },
                    None => {
                        proof {
                            lemma_paths_through_prefix(preds, source as nat, (level - 1) as nat, ps@, k + 1);
                            assert(bfs.distance@[w as int] is Some);
                        }
                        return None;
                    },
                }
                k = k + 1;
            }
            proof {
                assert(ps@.take(ps@.len() as int) =~= ps@);
                if level == 0 {
                    assert(ps@.len() == 0);
                }
            }
            counts.set(w, sum);
        }
        proof {
            assert forall|i2: int| 0 <= i2 < i + 1 implies #[trigger] counts@[bfs.order@[i2] as int] == paths_to(
                preds,
                source as nat,
                bfs.distance@[bfs.order@[i2] as int]->0 as nat,
                bfs.order@[i2] as nat,
            ) by {
                if i2 < i {
                    assert(bfs.order@[i2] != bfs.order@[i as int]);
                }
            }
        }
        i = i + 1;
    }
    proof {
        assert forall|x: int| 0 <= x < counts@.len() implies #[trigger] counts@[x] == match bfs.distance@[x] {
            Some(d) => paths_to(preds, source as nat, d as nat, x as nat),
            None => 0,
        } by {
            if bfs.distance@[x] is Some {
                let i2 = choose|i2: int| 0 <= i2 < bfs.order@.len() && bfs.order@[i2] == x;
                assert(counts@[bfs.order@[i2] as int] == counts@[x]);
            } else {
                assert forall|i2: int| 0 <= i2 < bfs.order@.len() implies bfs.order@[i2] != x by {
                    assert(bfs.distance@[bfs.order@[i2] as int] is Some);
                }
            }
        }
    }
    Some(counts)
}

/// Every person the search reaches has at least one shortest path from the
/// source: no count that the betweenness measure divides by is zero.
pub proof fn law_reached_nodes_have_a_shortest_path(
    edges: Seq<(nat, nat)>,
    node_count: nat,
    source: nat,
    bfs: BreadthFirst,
    w: nat,
)
    requires
        is_breadth_first(edges, node_count, source, bfs),
        w < node_count,
        bfs.distance@[w as int] is Some,
    ensures
        paths_to(predecessor_lists(bfs), source, bfs.distance@[w as int]->0 as nat, w) >= 1,
    decreases bfs.distance@[w as int]->0,
{
    let d = bfs.distance@[w as int]->0 as nat;
    if w != source {
        assert(is_distance(edges, source, w, d));
        let path = choose|path: Seq<nat>|
            #[trigger] is_walk(edges, path) && path[0] == source && path.last() == w && path.len() <= d + 1;
        assert(path.len() >= 2);
        assert(d >= 1);
        let u = path[path.len() - 2];
        let prefix = path.drop_last();
        assert forall|i: int| 0 <= i < prefix.len() - 1 implies #[trigger] walk_step(edges, prefix, i) by {
            assert(walk_step(edges, path, i));
        }
        assert(is_walk(edges, prefix));
        assert(prefix.last() == u);
        assert(reachable_within(edges, source, (d - 1) as nat, u));
        assert(walk_step(edges, path, path.len() - 2));
        assert(adjacent(edges, u, w));
        assert(u < node_count && bfs.distance@[u as int] is Some);
        let du = bfs.distance@[u as int]->0 as nat;
        assert(is_distance(edges, source, u, du));
        if du + 1 < d {
            lemma_reach_step(edges, source, du, u, w);
            lemma_reach_monotone(edges, source, du + 1, (d - 1) as nat, w);
        }
        assert(du + 1 == d);
        let i = choose|i: int| 0 <= i < bfs.order@.len() && bfs.order@[i] == u;
        lemma_occurrences_present(neighbor_seq(edges, u), w);
        lemma_pred_seq_contains(edges, bfs.order@, bfs.distance@, w, i);
        let ps = predecessor_lists(bfs)[w as int];
        assert(ps == bfs.predecessors@[w as int]@);
        assert(ps.contains(u as usize));
        let k = choose|k: int| 0 <= k < ps.len() && ps[k] == u as usize;
        lemma_paths_through_member(predecessor_lists(bfs), source, (d - 1) as nat, ps, k);
        law_reached_nodes_have_a_shortest_path(edges, node_count, source, bfs, u);
    }
}

proof fn lemma_reach_monotone(edges: Seq<(nat, nat)>, source: nat, k1: nat, k2: nat, v: nat)
    requires
        k1 <= k2,
        reachable_within(edges, source, k1, v),
    ensures
        reachable_within(edges, source, k2, v),
{
    let path = choose|path: Seq<nat>|
        #[trigger] is_walk(edges, path) && path[0] == source && path.last() == v && path.len() <= k1 + 1;
    assert(is_walk(edges, path));
}

proof fn lemma_occurrences_present(s: Seq<nat>, x: nat)
    requires
        s.contains(x),
    ensures
        occurrences(s, x) >= 1,
    decreases s.len(),
{
    if s.last() != x {
        let i = choose|i: int| 0 <= i < s.len() && s[i] == x;
        assert(s.drop_last()[i] == x);
        lemma_occurrences_present(s.drop_last(), x);
    }
}

proof fn lemma_pred_seq_contains(
    edges: Seq<(nat, nat)>,
    order: Seq<usize>,
    distance: Seq<Option<usize>>,
    x: nat,
    i: int,
)
    requires
        0 <= i < order.len(),
        pred_block(distance, order[i], neighbor_seq(edges, order[i] as nat), x).len() > 0,
    ensures
        predecessor_seq(edges, order, distance, x).contains(order[i]),
    decreases order.len(),
{
    let prefix = order.drop_last();
    let front = predecessor_seq(edges, prefix, distance, x);
    let block = pred_block(distance, order.last(), neighbor_seq(edges, order.last() as nat), x);
    let all = predecessor_seq(edges, order, distance, x);
    assert(all == front + block);
    if i == order.len() - 1 {
        assert(all[front.len() as int] == block[0]);
        assert(block[0] == order[i]);
    } else {
        assert(prefix[i] == order[i]);
        lemma_pred_seq_contains(edges, prefix, distance, x, i);
        let k = choose|k: int| 0 <= k < front.len() && front[k] == order[i];
        assert(all[k] == front[k]);
    }
}

proof fn lemma_paths_through_member(preds: Seq<Seq<usize>>, source: nat, level: nat, ps: Seq<usize>, k: int)
    requires
        0 <= k < ps.len(),
    ensures
        paths_through(preds, source, level, ps) >= paths_to(preds, source, level, ps[k] as nat),
    decreases ps.len(),
{
    if k < ps.len() - 1 {
        assert(ps.drop_last()[k] == ps[k]);
        lemma_paths_through_member(preds, source, level, ps.drop_last(), k);
    }
}

proof fn lemma_paths_through_prefix(preds: Seq<Seq<usize>>, source: nat, level: nat, ps: Seq<usize>, k: int)
    requires
        0 <= k <= ps.len(),
    ensures
        paths_through(preds, source, level, ps.take(k)) <= paths_through(preds, source, level, ps),
    decreases ps.len(),
{
    if k < ps.len() {
        assert(ps.drop_last().take(k) =~= ps.take(k));
        lemma_paths_through_prefix(preds, source, level, ps.drop_last(), k);
    } else {
        assert(ps.take(k) =~= ps);
    }
}

proof fn lemma_pred_seq_members(
    edges: Seq<(nat, nat)>,
    order: Seq<usize>,
    distance: Seq<Option<usize>>,
    x: nat,
)
    ensures
        forall|k: int|
            0 <= k < predecessor_seq(edges, order, distance, x).len() ==> {
                let p = #[trigger] predecessor_seq(edges, order, distance, x)[k];
                &&& order.contains(p)
                &&& distance[p as int] is Some
                &&& distance[x as int] is Some
                &&& distance[p as int]->0 + 1 == distance[x as int]->0
            },
    decreases order.len(),
{
    if order.len() > 0 {
        let prefix = order.drop_last();
        lemma_pred_seq_members(edges, prefix, distance, x);
        let front = predecessor_seq(edges, prefix, distance, x);
        let v = order.last();
        let block = pred_block(distance, v, neighbor_seq(edges, v as nat), x);
        let all = predecessor_seq(edges, order, distance, x);
        assert(all == front + block);
        assert forall|k: int| 0 <= k < all.len() implies {
            let p = #[trigger] all[k];
            &&& order.contains(p)
            &&& distance[p as int] is Some
            &&& distance[x as int] is Some
            &&& distance[p as int]->0 + 1 == distance[x as int]->0
        } by {
            if k < front.len() {
                assert(all[k] == front[k]);
                let p = front[k];
                assert(prefix.contains(p));
                let i = choose|i: int| 0 <= i < prefix.len() && prefix[i] == p;
                assert(order[i] == prefix[i]);
            } else {
                assert(all[k] == block[k - front.len()]);
                assert(block.len() > 0);
                assert(order[order.len() - 1] == v);
            }
        }
    }
}

/// Once every discovered node has had its neighbours discovered, every node
/// reachable within `k` steps has been discovered at distance at most `k`.
proof fn lemma_bfs_complete(
    edges: Seq<(nat, nat)>,
    distance: Seq<Option<usize>>,
    order: Seq<usize>,
    source: nat,
    node_count: nat,
)
    requires
        distance.len() == node_count,
        source < node_count,
        distance[source as int] == Some(0usize),
        forall|i: int| 0 <= i < order.len() ==> #[trigger] order[i] < node_count,
        forall|v: int|
            0 <= v < node_count && (#[trigger] distance[v]) is Some ==> exists|i: int| 0 <= i < order.len() && order[i] == v,
        forall|i: int, w: nat|
            0 <= i < order.len() && #[trigger] adjacent(edges, order[i] as nat, w) ==> w < node_count
                && distance[w as int] is Some && distance[w as int]->0 <= distance[order[i] as int]->0
                + 1,
        forall|v: int|
            0 <= v < node_count && (#[trigger] distance[v]) is Some ==> reachable_within(edges, source, distance[v]->0 as nat, v as nat),
    ensures
        forall|k: nat, v: nat|
            #[trigger] reachable_within(edges, source, k, v) ==> v < node_count && distance[v as int]
                is Some && distance[v as int]->0 <= k,
        forall|v: int|
            0 <= v < node_count ==> match #[trigger] distance[v] {
                Some(d) => is_distance(edges, source, v as nat, d as nat),
                None => forall|k: nat| !#[trigger] reachable_within(edges, source, k, v as nat),
            },
{
    assert forall|k: nat, v: nat| #[trigger] reachable_within(edges, source, k, v) implies v
        < node_count && distance[v as int] is Some && distance[v as int]->0 <= k by {
        lemma_bfs_reach(edges, distance, order, source, node_count, k, v);
    }
    assert forall|v: int| 0 <= v < node_count implies match #[trigger] distance[v] {
        Some(d) => is_distance(edges, source, v as nat, d as nat),
        None => forall|k: nat| !#[trigger] reachable_within(edges, source, k, v as nat),
    } by {
        match distance[v] {
            Some(d) => {
                if d > 0 && reachable_within(edges, source, (d - 1) as nat, v as nat) {
                    lemma_bfs_reach(edges, distance, order, source, node_count, (d - 1) as nat, v as nat);
                }
            },
            None => {
                assert forall|k: nat| !#[trigger] reachable_within(edges, source, k, v as nat) by {
                    if reachable_within(edges, source, k, v as nat) {
                        lemma_bfs_reach(edges, distance, order, source, node_count, k, v as nat);
                    }
                }
            },
        }
    }
}

proof fn lemma_bfs_reach(
    edges: Seq<(nat, nat)>,
    distance: Seq<Option<usize>>,
    order: Seq<usize>,
    source: nat,
    node_count: nat,
    k: nat,
    v: nat,
)
    requires
        distance.len() == node_count,
        source < node_count,
        distance[source as int] == Some(0usize),
        forall|i: int| 0 <= i < order.len() ==> #[trigger] order[i] < node_count,
        forall|u: int|
            0 <= u < node_count && (#[trigger] distance[u]) is Some ==> exists|i: int| 0 <= i < order.len() && order[i] == u,
        forall|i: int, w: nat|
            0 <= i < order.len() && #[trigger] adjacent(edges, order[i] as nat, w) ==> w < node_count
                && distance[w as int] is Some && distance[w as int]->0 <= distance[order[i] as int]->0
                + 1,
        reachable_within(edges, source, k, v),
    ensures
        v < node_count && distance[v as int] is Some && distance[v as int]->0 <= k,
{
    let path = choose|path: Seq<nat>|
        #[trigger] is_walk(edges, path) && path[0] == source && path.last() == v && path.len() <= k + 1;
    lemma_bfs_walk(edges, distance, order, source, node_count, path);
}

proof fn lemma_bfs_walk(
    edges: Seq<(nat, nat)>,
    distance: Seq<Option<usize>>,
    order: Seq<usize>,
    source: nat,
    node_count: nat,
    path: Seq<nat>,
)
    requires
        distance.len() == node_count,
        source < node_count,
        distance[source as int] == Some(0usize),
        forall|i: int| 0 <= i < order.len() ==> #[trigger] order[i] < node_count,
        forall|u: int|
            0 <= u < node_count && (#[trigger] distance[u]) is Some ==> exists|i: int| 0 <= i < order.len() && order[i] == u,
        forall|i: int, w: nat|
            0 <= i < order.len() && #[trigger] adjacent(edges, order[i] as nat, w) ==> w < node_count
                && distance[w as int] is Some && distance[w as int]->0 <= distance[order[i] as int]->0
                + 1,
        is_walk(edges, path),
        path[0] == source,
    ensures
        path.last() < node_count && distance[path.last() as int] is Some && distance[path.last() as int]->0
            <= path.len() - 1,
    decreases path.len(),
{
    if path.len() > 1 {
        let prefix = path.drop_last();
        assert forall|i: int| 0 <= i < prefix.len() - 1 implies #[trigger] walk_step(edges, prefix, i) by {
            assert(walk_step(edges, path, i));
        }
        lemma_bfs_walk(edges, distance, order, source, node_count, prefix);
        let u = prefix.last();
        assert(walk_step(edges, path, path.len() - 2));
        assert(distance[u as int] is Some);
        let i = choose|i: int| 0 <= i < order.len() && order[i] == u;
        assert(adjacent(edges, order[i] as nat, path.last()));
    }
}

proof fn lemma_reach_start(edges: Seq<(nat, nat)>, source: nat)
    ensures
        reachable_within(edges, source, 0, source),
{
    let path = seq![source];
    assert(is_walk(edges, path));
}

proof fn lemma_reach_step(edges: Seq<(nat, nat)>, source: nat, k: nat, v: nat, w: nat)
    requires
        reachable_within(edges, source, k, v),
        adjacent(edges, v, w),
    ensures
        reachable_within(edges, source, k + 1, w),
{
    let path = choose|path: Seq<nat>|
        #[trigger] is_walk(edges, path) && path[0] == source && path.last() == v && path.len() <= k + 1;
    let longer = path.push(w);
    assert forall|i: int| 0 <= i < longer.len() - 1 implies #[trigger] walk_step(edges, longer, i) by {
        if i < path.len() - 1 {
            assert(walk_step(edges, path, i));
        }
    }
    assert(is_walk(edges, longer));
}

} // verus!

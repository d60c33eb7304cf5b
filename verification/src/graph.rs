//! The graph: owner of all node and edge storage, the only mutator of
//! either, and the driver of one simulation step per frame.
//!
//! Identity scheme: ids are slot indices into arenas that never reuse a
//! slot — removal leaves the slot empty forever, so a removed id can never
//! silently alias a later node or edge (staleness is checked by the slot
//! being empty).

use vstd::prelude::*;
use crate::geometry::{Vec2i, in_canvas, push_force_spec, push_force, FORCE_LIMIT};
use crate::node::{
    Node, NodeHighlight, default_node, add_clamped_spec, consumed_node_spec, clamped_add,
};
use crate::edge::{Edge, with_cache, edge_pull_spec};
use crate::config::{PushForceConfig, PullForceConfig};

verus! {

/// Stable handle to a node; valid while the node exists, never reused.
#[derive(Clone, Copy, PartialEq, Eq, Structural, Debug)]
pub struct NodeId {
    pub index: usize,
}

/// Stable handle to an edge; valid while the edge exists, never reused.
#[derive(Clone, Copy, PartialEq, Eq, Structural, Debug)]
pub struct EdgeId {
    pub index: usize,
}

/// Mathematical view of a [`Graph`].
#[verifier::ext_equal]
pub ghost struct GraphV {
    pub nodes: Seq<Option<Node>>,
    pub edges: Seq<Option<Edge>>,
    pub seed: u64,
}

impl GraphV {
    pub open spec fn node_live_at(self, i: int) -> bool {
        0 <= i < self.nodes.len() && self.nodes[i] is Some
    }

    pub open spec fn node_at(self, i: int) -> Node {
        self.nodes[i]->0
    }

    pub open spec fn edge_live_at(self, k: int) -> bool {
        0 <= k < self.edges.len() && self.edges[k] is Some
    }

    pub open spec fn edge_at(self, k: int) -> Edge {
        self.edges[k]->0
    }

    pub open spec fn node_live(self, id: NodeId) -> bool {
        self.node_live_at(id.index as int)
    }

    pub open spec fn edge_live(self, id: EdgeId) -> bool {
        self.edge_live_at(id.index as int)
    }

    /// Every live node satisfies its machine bounds.
    pub open spec fn nodes_wf(self) -> bool {
        forall|i: int|
            0 <= i < self.nodes.len() && self.nodes[i] is Some ==> (
            #[trigger] self.nodes[i])->0.wf()
    }

    /// Both endpoints of a live edge are live nodes.
    pub open spec fn edge_refs_ok_at(self, k: int) -> bool {
        self.node_live(self.edge_at(k).from) && self.node_live(self.edge_at(k).to)
    }

    pub open spec fn refs_ok(self) -> bool {
        forall|k: int| self.edge_live_at(k) ==> #[trigger] self.edge_refs_ok_at(k)
    }

    /// An edge's cached geometry agrees with its endpoints' positions.
    pub open spec fn edge_cache_ok_at(self, k: int) -> bool {
        self.edge_at(k).from_pos == self.node_at(self.edge_at(k).from.index as int).position
            && self.edge_at(k).to_pos == self.node_at(self.edge_at(k).to.index as int).position
    }

    pub open spec fn caches_ok(self) -> bool {
        forall|k: int| self.edge_live_at(k) ==> #[trigger] self.edge_cache_ok_at(k)
    }

    pub open spec fn wf(self) -> bool {
        self.nodes_wf() && self.refs_ok() && self.caches_ok()
    }

    /// The node at index `i` exists and contains the point.
    pub open spec fn node_hit(self, i: int, p: Vec2i) -> bool {
        self.node_live_at(i) && self.node_at(i).contains_spec(p)
    }

    /// Index of the first node containing `p`, scanning from `i` upward.
    pub open spec fn first_node_from(self, p: Vec2i, i: int) -> Option<int>
        decreases self.nodes.len() - i,
    {
        if i < 0 || i >= self.nodes.len() {
            None
        } else if self.node_hit(i, p) {
            Some(i)
        } else {
            self.first_node_from(p, i + 1)
        }
    }

    pub open spec fn first_node_at(self, p: Vec2i) -> Option<int> {
        self.first_node_from(p, 0)
    }

    /// The edge at index `k` exists and its stroke covers the point.
    pub open spec fn edge_hit_at(self, k: int, p: Vec2i) -> bool {
        self.edge_live_at(k) && crate::geometry::edge_hit_spec(
            self.edge_at(k).from_pos,
            self.edge_at(k).to_pos,
            p,
        )
    }

    pub open spec fn first_edge_from(self, p: Vec2i, k: int) -> Option<int>
        decreases self.edges.len() - k,
    {
        if k < 0 || k >= self.edges.len() {
            None
        } else if self.edge_hit_at(k, p) {
            Some(k)
        } else {
            self.first_edge_from(p, k + 1)
        }
    }

    pub open spec fn first_edge_at(self, p: Vec2i) -> Option<int> {
        self.first_edge_from(p, 0)
    }

    /// Scanning may start past a prefix with no hit.
    pub proof fn lemma_first_node_from_skip(self, p: Vec2i, i: int)
        requires
            0 <= i <= self.nodes.len(),
            forall|j: int| 0 <= j < i ==> !self.node_hit(j, p),
        ensures
            self.first_node_from(p, 0) == self.first_node_from(p, i),
        decreases i,
    {
        if i > 0 {
            self.lemma_first_node_from_skip(p, i - 1);
        }
    }

    pub proof fn lemma_first_edge_from_skip(self, p: Vec2i, k: int)
        requires
            0 <= k <= self.edges.len(),
            forall|j: int| 0 <= j < k ==> !self.edge_hit_at(j, p),
        ensures
            self.first_edge_from(p, 0) == self.first_edge_from(p, k),
        decreases k,
    {
        if k > 0 {
            self.lemma_first_edge_from_skip(p, k - 1);
        }
    }

    /// Number of live nodes among the first `i` slots.
    pub open spec fn live_nodes_upto(self, i: int) -> int
        decreases i,
    {
        if i <= 0 {
            0
        } else {
            self.live_nodes_upto(i - 1) + if self.node_live_at(i - 1) {
                1int
            } else {
                0int
            }
        }
    }

    pub open spec fn live_node_count(self) -> int {
        self.live_nodes_upto(self.nodes.len() as int)
    }

    pub open spec fn live_edges_upto(self, k: int) -> int
        decreases k,
    {
        if k <= 0 {
            0
        } else {
            self.live_edges_upto(k - 1) + if self.edge_live_at(k - 1) {
                1int
            } else {
                0int
            }
        }
    }

    pub open spec fn live_edge_count(self) -> int {
        self.live_edges_upto(self.edges.len() as int)
    }
}

/// The graph after `add_node(position)`: a fresh slot holding a default
/// node, everything else untouched.
pub open spec fn added_node(g: GraphV, position: Vec2i) -> GraphV {
    GraphV { nodes: g.nodes.push(Some(default_node(position))), ..g }
}

/// The graph after `remove_node(id)` of a live id: the slot is emptied and
/// every edge incident to `id` (as source or target) is removed.
pub open spec fn removed_node(g: GraphV, id: NodeId) -> GraphV {
    GraphV {
        nodes: g.nodes.update(id.index as int, None),
        edges: Seq::new(
            g.edges.len(),
            |k: int|
                if g.edge_live_at(k) && (g.edge_at(k).from == id || g.edge_at(k).to == id) {
                    None
                } else {
                    g.edges[k]
                },
        ),
        ..g
    }
}

/// The graph after `remove_edge(id)` of a live id.
pub open spec fn removed_edge(g: GraphV, id: EdgeId) -> GraphV {
    GraphV { edges: g.edges.update(id.index as int, None), ..g }
}

/// The graph after `add_edge(from, to)` with both endpoints live: a fresh
/// enabled edge whose cache is taken from the endpoints' positions.
pub open spec fn added_edge(g: GraphV, from: NodeId, to: NodeId) -> GraphV {
    GraphV {
        edges: g.edges.push(
            Some(
                Edge {
                    from,
                    to,
                    from_pos: g.node_at(from.index as int).position,
                    to_pos: g.node_at(to.index as int).position,
                    enabled: true,
                },
            ),
        ),
        ..g
    }
}

/// The graph with node `i` replaced.
pub open spec fn node_updated(g: GraphV, i: int, n: Node) -> GraphV {
    GraphV { nodes: g.nodes.update(i, Some(n)), ..g }
}

/// The graph with the highlight flag of a live node replaced.
pub open spec fn with_highlight(g: GraphV, id: NodeId, h: NodeHighlight) -> GraphV {
    node_updated(
        g,
        id.index as int,
        Node { highlight: h, ..g.node_at(id.index as int) },
    )
}

/// The graph with the ignore-force flag of a live node replaced; the force
/// accumulated so far is discarded either way.
pub open spec fn with_ignore(g: GraphV, id: NodeId, value: bool) -> GraphV {
    node_updated(
        g,
        id.index as int,
        Node {
            ignore_force: value,
            current_force: Vec2i { x: 0i64, y: 0i64 },
            ..g.node_at(id.index as int)
        },
    )
}

/// The graph with the enabled flag of a live edge replaced.
pub open spec fn with_edge_enabled(g: GraphV, id: EdgeId, enabled: bool) -> GraphV {
    GraphV {
        edges: g.edges.update(
            id.index as int,
            Some(crate::edge::with_enabled(g.edge_at(id.index as int), enabled)),
        ),
        ..g
    }
}

/// Every live edge with its cache refreshed from the endpoints' positions.
pub open spec fn refreshed_edges(g: GraphV) -> GraphV {
    GraphV {
        edges: Seq::new(
            g.edges.len(),
            |k: int|
                if g.edge_live_at(k) {
                    Some(
                        with_cache(
                            g.edge_at(k),
                            g.node_at(g.edge_at(k).from.index as int).position,
                            g.node_at(g.edge_at(k).to.index as int).position,
                        ),
                    )
                } else {
                    g.edges[k]
                },
        ),
        ..g
    }
}

/// The graph after a live node was dragged to `position`: the node moves and
/// every edge cache is refreshed.
pub open spec fn moved_node(g: GraphV, id: NodeId, position: Vec2i) -> GraphV {
    refreshed_edges(
        node_updated(g, id.index as int, Node { position, ..g.node_at(id.index as int) }),
    )
}

/// Deterministic perturbation choice for a coincident ordered pair, drawn
/// from the graph's random seed and the two slot indices.
pub open spec fn tie_spec(seed: u64, i: int, j: int) -> int {
    (seed + 3 * i + j) % 4
}

/// Push contribution of slot `j` to the force of node `i` (zero for `j`
/// itself and for empty slots).
pub open spec fn push_contrib(g: GraphV, i: int, j: int, conf: PushForceConfig) -> (int, int) {
    if j == i || !g.node_live_at(j) {
        (0, 0)
    } else {
        push_force_spec(
            g.node_at(i).position,
            g.node_at(j).position,
            conf.force as int,
            conf.distance as int,
            tie_spec(g.seed, i, j),
        )
    }
}

/// Force of node `i` after accumulating the push contributions of the slots
/// below `j`, starting from its current force.
pub open spec fn push_acc(g: GraphV, i: int, j: int, conf: PushForceConfig) -> (int, int)
    decreases j,
{
    if j <= 0 {
        (g.node_at(i).current_force.x as int, g.node_at(i).current_force.y as int)
    } else {
        add_clamped_spec(push_acc(g, i, j - 1, conf), push_contrib(g, i, j - 1, conf))
    }
}

pub open spec fn pushed_node(g: GraphV, i: int, conf: PushForceConfig) -> Node {
    Node {
        current_force: Vec2i {
            x: push_acc(g, i, g.nodes.len() as int, conf).0 as i64,
            y: push_acc(g, i, g.nodes.len() as int, conf).1 as i64,
        },
        ..g.node_at(i)
    }
}

/// The graph after the pairwise repulsion pass: every live node's force has
/// every other live node's push contribution accumulated.
pub open spec fn pushed_graph(g: GraphV, conf: PushForceConfig) -> GraphV {
    GraphV {
        nodes: Seq::new(
            g.nodes.len(),
            |i: int|
                if g.node_live_at(i) {
                    Some(pushed_node(g, i, conf))
                } else {
                    g.nodes[i]
                },
        ),
        ..g
    }
}

/// The current per-slot forces (zero for empty slots).
pub open spec fn forces_seq(nodes: Seq<Option<Node>>) -> Seq<(int, int)> {
    Seq::new(
        nodes.len(),
        |i: int|
            if nodes[i] is Some {
                (nodes[i]->0.current_force.x as int, nodes[i]->0.current_force.y as int)
            } else {
                (0, 0)
            },
    )
}

/// One enabled edge applies its pull to `from` and the exact opposite to
/// `to` (in that order, which matters only for a self-loop).
pub open spec fn pull_step(fs: Seq<(int, int)>, e: Edge, conf: PullForceConfig) -> Seq<(int, int)> {
    let f = edge_pull_spec(e, conf);
    let fs1 = fs.update(
        e.from.index as int,
        add_clamped_spec(fs[e.from.index as int], f),
    );
    fs1.update(
        e.to.index as int,
        add_clamped_spec(fs1[e.to.index as int], (-f.0, -f.1)),
    )
}

/// Per-slot forces after the pull pass over the first `k` edge slots.
pub open spec fn pull_acc(g: GraphV, k: int, conf: PullForceConfig) -> Seq<(int, int)>
    decreases k,
{
    if k <= 0 {
        forces_seq(g.nodes)
    } else if g.edge_live_at(k - 1) {
        pull_step(pull_acc(g, k - 1, conf), g.edge_at(k - 1), conf)
    } else {
        pull_acc(g, k - 1, conf)
    }
}

/// The graph after the edge attraction pass.
pub open spec fn pulled_graph(g: GraphV, conf: PullForceConfig) -> GraphV {
    GraphV {
        nodes: Seq::new(
            g.nodes.len(),
            |i: int|
                if g.node_live_at(i) {
                    Some(
                        Node {
                            current_force: Vec2i {
                                x: pull_acc(g, g.edges.len() as int, conf)[i].0 as i64,
                                y: pull_acc(g, g.edges.len() as int, conf)[i].1 as i64,
                            },
                            ..g.node_at(i)
                        },
                    )
                } else {
                    g.nodes[i]
                },
        ),
        ..g
    }
}

/// The graph after every live node consumed its force.
pub open spec fn consumed_graph(g: GraphV, ms: int) -> GraphV {
    GraphV {
        nodes: Seq::new(
            g.nodes.len(),
            |i: int|
                if g.node_live_at(i) {
                    Some(consumed_node_spec(g.node_at(i), ms))
                } else {
                    g.nodes[i]
                },
        ),
        ..g
    }
}

/// One full simulation step: repulsion over all node pairs, attraction over
/// all enabled edges, explicit-Euler integration (skipped for nodes that
/// ignore forces), and an edge-cache refresh.
pub open spec fn stepped_graph(g: GraphV, ms: int, pc: PushForceConfig, lc: PullForceConfig) -> GraphV {
    refreshed_edges(consumed_graph(pulled_graph(pushed_graph(g, pc), lc), ms))
}

/// No live edge of the graph left by a removal references the removed node.
pub proof fn lemma_removed_node_purges(g: GraphV, id: NodeId, k: int)
    requires
        removed_node(g, id).edge_live_at(k),
    ensures
        g.edge_live_at(k),
        removed_node(g, id).edge_at(k) == g.edge_at(k),
        removed_node(g, id).edge_at(k).from != id,
        removed_node(g, id).edge_at(k).to != id,
{
}

/// Disabling a live enabled edge and enabling it again leaves the whole
/// graph exactly as it was: soft disable is reversible without trace.
pub proof fn lemma_graph_disable_enable_roundtrip(g: GraphV, id: EdgeId)
    requires
        g.edge_live(id),
        g.edge_at(id.index as int).enabled,
    ensures
        with_edge_enabled(with_edge_enabled(g, id, false), id, true) == g,
{
    crate::edge::lemma_disable_enable_roundtrip(g.edge_at(id.index as int));
    assert(with_edge_enabled(with_edge_enabled(g, id, false), id, true).edges =~= g.edges);
    assert(with_edge_enabled(with_edge_enabled(g, id, false), id, true) =~= g);
}

/// The pull pass keeps every force within the saturation bound.
pub proof fn lemma_pull_acc_bounds(g: GraphV, k: int, conf: PullForceConfig)
    requires
        g.nodes_wf(),
        g.refs_ok(),
    ensures
        pull_acc(g, k, conf).len() == g.nodes.len(),
        forall|i: int|
            0 <= i < g.nodes.len() ==> -FORCE_LIMIT <= (#[trigger] pull_acc(g, k, conf)[i]).0
                <= FORCE_LIMIT && -FORCE_LIMIT <= pull_acc(g, k, conf)[i].1 <= FORCE_LIMIT,
    decreases k,
{
    if k <= 0 {
        assert forall|i: int|
            0 <= i < g.nodes.len() implies -FORCE_LIMIT <= (#[trigger] pull_acc(g, k, conf)[i]).0
            <= FORCE_LIMIT && -FORCE_LIMIT <= pull_acc(g, k, conf)[i].1 <= FORCE_LIMIT by {
            if g.nodes[i] is Some {
                assert(g.nodes[i]->0.wf());
            }
        }
    } else {
        lemma_pull_acc_bounds(g, k - 1, conf);
        if g.edge_live_at(k - 1) {
            assert(g.edge_refs_ok_at(k - 1));
        }
    }
}

/// The push pass keeps every force within the saturation bound.
pub proof fn lemma_push_acc_bounds(g: GraphV, i: int, j: int, conf: PushForceConfig)
    requires
        g.nodes_wf(),
        g.node_live_at(i),
    ensures
        -FORCE_LIMIT <= push_acc(g, i, j, conf).0 <= FORCE_LIMIT,
        -FORCE_LIMIT <= push_acc(g, i, j, conf).1 <= FORCE_LIMIT,
    decreases j,
{
    if j <= 0 {
        assert(g.nodes[i]->0.wf());
    } else {
        lemma_push_acc_bounds(g, i, j - 1, conf);
    }
}

/// Node liveness carried over (edges and a possibly longer node arena):
/// edge endpoints stay live.
pub proof fn lemma_refs_preserved(g0: GraphV, g1: GraphV)
    requires
        g0.refs_ok(),
        g1.edges == g0.edges,
        g1.nodes.len() >= g0.nodes.len(),
        forall|i: int|
            0 <= i < g0.nodes.len() ==> ((#[trigger] g1.nodes[i]) is Some <==> g0.nodes[i]
                is Some),
    ensures
        g1.refs_ok(),
{
    assert forall|k: int| g1.edge_live_at(k) implies #[trigger] g1.edge_refs_ok_at(k) by {
        assert(g0.edge_live_at(k));
        assert(g0.edge_refs_ok_at(k));
        let e = g0.edge_at(k);
        assert(g1.nodes[e.from.index as int] is Some);
        assert(g1.nodes[e.to.index as int] is Some);
    }
}

/// Node positions carried over as well: edge caches stay consistent.
pub proof fn lemma_caches_preserved(g0: GraphV, g1: GraphV)
    requires
        g0.refs_ok(),
        g0.caches_ok(),
        g1.edges == g0.edges,
        g1.nodes.len() >= g0.nodes.len(),
        forall|i: int|
            0 <= i < g0.nodes.len() ==> ((#[trigger] g1.nodes[i]) is Some <==> g0.nodes[i]
                is Some),
        forall|i: int|
            0 <= i < g0.nodes.len() && g0.nodes[i] is Some ==> (#[trigger] g1.nodes[i])->0.position
                == g0.nodes[i]->0.position,
    ensures
        g1.caches_ok(),
{
    assert forall|k: int| g1.edge_live_at(k) implies #[trigger] g1.edge_cache_ok_at(k) by {
        assert(g0.edge_live_at(k));
        assert(g0.edge_refs_ok_at(k));
        assert(g0.edge_cache_ok_at(k));
        let e = g0.edge_at(k);
        assert(g1.nodes[e.from.index as int]->0.position == g0.nodes[e.from.index as int]
            ->0.position);
        assert(g1.nodes[e.to.index as int]->0.position == g0.nodes[e.to.index as int]->0.position);
    }
}

pub struct Graph {
    pub nodes: Vec<Option<Node>>,
    pub edges: Vec<Option<Edge>>,
    pub seed: u64,
}

impl View for Graph {
    type V = GraphV;

    open spec fn view(&self) -> GraphV {
        GraphV { nodes: self.nodes@, edges: self.edges@, seed: self.seed }
    }
}

/// Relies on rand::random: one machine-random `u64`, used only to seed the
/// perturbation that separates coincident nodes; nothing is assumed of the
/// value returned.
#[verifier::external_body]
fn random_seed() -> u64 {
    rand::random::<u64>()
}

fn tie_of(seed: u64, i: usize, j: usize) -> (t: u64)
    ensures
        t as int == tie_spec(seed, i as int, j as int),
        t < 4,
{
    (((seed as u128) + 3 * (i as u128) + (j as u128)) % 4) as u64
}

impl Graph {
    /// A fresh, empty graph with a random perturbation seed.
    pub fn new() -> (g: Graph)
        ensures
            g@.nodes.len() == 0,
            g@.edges.len() == 0,
            g@.wf(),
    {
        Graph { nodes: Vec::new(), edges: Vec::new(), seed: random_seed() }
    }

    /// Insert a node at `position` with default state; always succeeds and
    /// returns its fresh, never-reused id.
    pub fn add_node(&mut self, position: Vec2i) -> (id: NodeId)
        requires
            old(self)@.wf(),
            in_canvas(position),
        ensures
            final(self)@ == added_node(old(self)@, position),
            id == (NodeId { index: old(self)@.nodes.len() as usize }),
            final(self)@.node_live(id),
            final(self)@.wf(),
    {
        let id = NodeId { index: self.nodes.len() };
        self.nodes.push(Some(Node::new(position)));
        proof {
            let g0 = old(self)@;
            let g1 = added_node(g0, position);
            assert(self@ =~= g1);
            assert forall|i: int| 0 <= i < g1.nodes.len() && g1.nodes[i] is Some implies (
            #[trigger] g1.nodes[i])->0.wf() by {
                if i < g0.nodes.len() {
                    assert(g1.nodes[i] == g0.nodes[i]);
                }
            }
            lemma_refs_preserved(g0, g1);
            lemma_caches_preserved(g0, g1);
        }
        id
    }

    /// Remove a node and every edge incident to it; a stale or unknown id is
    /// a no-op.
    pub fn remove_node(&mut self, id: NodeId)
        requires
            old(self)@.wf(),
        ensures
            old(self)@.node_live(id) ==> final(self)@ == removed_node(old(self)@, id),
            !old(self)@.node_live(id) ==> final(self)@ == old(self)@,
            !final(self)@.node_live(id),
            final(self)@.wf(),
    {
        if id.index >= self.nodes.len() {
            return ;
        }
        if self.nodes[id.index].is_none() {
            return ;
        }
        self.nodes[id.index] = None;
        let ghost g0 = old(self)@;
        let ghost g1 = removed_node(g0, id);
        let m = self.edges.len();
        for k in 0..m
            invariant
                self@.nodes == g1.nodes,
                self@.seed == g1.seed,
                self@.edges.len() == m == g0.edges.len(),
                g0.node_live(id),
                g1 == removed_node(g0, id),
                forall|t: int| k <= t < m ==> self@.edges[t] == g0.edges[t],
                forall|t: int| 0 <= t < k ==> self@.edges[t] == g1.edges[t],
                g0.wf(),
        {
            let slot = self.edges[k];
            if let Some(e) = slot {
                if e.from.index == id.index || e.to.index == id.index {
                    self.edges[k] = None;
                }
            }
        }
        proof {
            assert(self@ =~= g1);
            assert forall|i: int| 0 <= i < g1.nodes.len() && g1.nodes[i] is Some implies (
            #[trigger] g1.nodes[i])->0.wf() by {
                assert(g1.nodes[i] == g0.nodes.update(id.index as int, None)[i]);
                if i != id.index {
                    assert(g1.nodes[i] == g0.nodes[i]);
                }
            }
            assert forall|k: int| g1.edge_live_at(k) implies #[trigger] g1.edge_refs_ok_at(k) by {
                lemma_removed_node_purges(g0, id, k);
                assert(g0.edge_refs_ok_at(k));
                let e = g0.edge_at(k);
                assert(e.from.index != id.index && e.to.index != id.index);
                assert(g1.nodes[e.from.index as int] == g0.nodes[e.from.index as int]);
                assert(g1.nodes[e.to.index as int] == g0.nodes[e.to.index as int]);
            }
            assert forall|k: int| g1.edge_live_at(k) implies #[trigger] g1.edge_cache_ok_at(k) by {
                lemma_removed_node_purges(g0, id, k);
                assert(g0.edge_refs_ok_at(k));
                assert(g0.edge_cache_ok_at(k));
                let e = g0.edge_at(k);
                assert(e.from.index != id.index && e.to.index != id.index);
                assert(g1.nodes[e.from.index as int] == g0.nodes[e.from.index as int]);
                assert(g1.nodes[e.to.index as int] == g0.nodes[e.to.index as int]);
            }
        }
    }

    /// Remove a single edge; a stale or unknown id is a no-op.
    pub fn remove_edge(&mut self, id: EdgeId)
        requires
            old(self)@.wf(),
        ensures
            old(self)@.edge_live(id) ==> final(self)@ == removed_edge(old(self)@, id),
            !old(self)@.edge_live(id) ==> final(self)@ == old(self)@,
            !final(self)@.edge_live(id),
            final(self)@.wf(),
    {
        if id.index >= self.edges.len() {
            return ;
        }
        if self.edges[id.index].is_none() {
            return ;
        }
        self.edges[id.index] = None;
        proof {
            let g0 = old(self)@;
            let g1 = removed_edge(g0, id);
            assert(self@ =~= g1);
            assert(g1.nodes == g0.nodes);
            assert forall|i: int| 0 <= i < g1.nodes.len() && g1.nodes[i] is Some implies (
            #[trigger] g1.nodes[i])->0.wf() by {
                assert(g1.nodes[i] == g0.nodes[i]);
            }
            assert forall|k: int| g1.edge_live_at(k) implies #[trigger] g1.edge_refs_ok_at(k) by {
                assert(g1.edges[k] == g0.edges.update(id.index as int, None)[k]);
                assert(k != id.index);
                assert(g0.edge_live_at(k));
                assert(g1.edge_at(k) == g0.edge_at(k));
                assert(g0.edge_refs_ok_at(k));
            }
            assert forall|k: int| g1.edge_live_at(k) implies #[trigger] g1.edge_cache_ok_at(k) by {
                assert(g1.edges[k] == g0.edges.update(id.index as int, None)[k]);
                assert(k != id.index);
                assert(g0.edge_live_at(k));
                assert(g1.edge_at(k) == g0.edge_at(k));
                assert(g0.edge_cache_ok_at(k));
            }
        }
    }

    /// Insert a directed edge if both endpoints currently exist; otherwise a
    /// silent no-op (a click may land on empty space).
    pub fn add_edge(&mut self, from: NodeId, to: NodeId)
        requires
            old(self)@.wf(),
        ensures
            old(self)@.node_live(from) && old(self)@.node_live(to) ==> final(self)@ == added_edge(
                old(self)@,
                from,
                to,
            ),
            !(old(self)@.node_live(from) && old(self)@.node_live(to)) ==> final(self)@ == old(
                self,
            )@,
            final(self)@.wf(),
    {
        if from.index >= self.nodes.len() || to.index >= self.nodes.len() {
            return ;
        }
        let slot_f = self.nodes[from.index];
        let slot_t = self.nodes[to.index];
        if let (Some(nf), Some(nt)) = (slot_f, slot_t) {
            let e = Edge::new(from, to, nf.position, nt.position);
            self.edges.push(Some(e));
            proof {
                let g0 = old(self)@;
                let g1 = added_edge(g0, from, to);
                assert(self@ =~= g1);
                assert(g1.nodes == g0.nodes);
                assert forall|i: int| 0 <= i < g1.nodes.len() && g1.nodes[i] is Some implies (
                #[trigger] g1.nodes[i])->0.wf() by {
                    assert(g1.nodes[i] == g0.nodes[i]);
                }
                assert forall|k: int| g1.edge_live_at(k) implies #[trigger] g1.edge_refs_ok_at(k) by {
                    if k < g0.edges.len() {
                        assert(g1.edges[k] == g0.edges[k]);
                        assert(g0.edge_live_at(k));
                        assert(g0.edge_refs_ok_at(k));
                    } else {
                        assert(g1.edge_at(k) == (Edge {
                            from,
                            to,
                            from_pos: g0.node_at(from.index as int).position,
                            to_pos: g0.node_at(to.index as int).position,
                            enabled: true,
                        }));
                    }
                }
                assert forall|k: int| g1.edge_live_at(k) implies #[trigger] g1.edge_cache_ok_at(
                    k,
                ) by {
                    if k < g0.edges.len() {
                        assert(g1.edges[k] == g0.edges[k]);
                        assert(g0.edge_live_at(k));
                        assert(g0.edge_cache_ok_at(k));
                    } else {
                        assert(g1.edge_at(k) == (Edge {
                            from,
                            to,
                            from_pos: g0.node_at(from.index as int).position,
                            to_pos: g0.node_at(to.index as int).position,
                            enabled: true,
                        }));
                    }
                }
            }
        }
    }

    /// First node whose circle contains `point`, in slot order.
    pub fn get_node_at(&self, point: Vec2i) -> (r: Option<NodeId>)
        requires
            self@.wf(),
            in_canvas(point),
        ensures
            match r {
                Some(id) => self@.first_node_at(point) == Some(id.index as int) && self@.node_live(
                    id,
                ) && self@.node_at(id.index as int).contains_spec(point),
                None => self@.first_node_at(point) is None && forall|i: int|
                    !self@.node_hit(i, point),
            },
    {
        let n = self.nodes.len();
        for i in 0..n
            invariant
                self@.wf(),
                in_canvas(point),
                n == self@.nodes.len(),
                forall|j: int| 0 <= j < i ==> !self@.node_hit(j, point),
        {
            let slot = self.nodes[i];
            if let Some(node) = slot {
                assert(node.wf());
                if node.contains(point) {
                    proof {
                        self@.lemma_first_node_from_skip(point, i as int);
                    }
                    return Some(NodeId { index: i });
                }
            }
        }
        proof {
            self@.lemma_first_node_from_skip(point, n as int);
        }
        None
    }

    /// First edge whose stroke covers `point`, in slot order.
    pub fn get_edge_at(&self, point: Vec2i) -> (r: Option<EdgeId>)
        requires
            self@.wf(),
            in_canvas(point),
        ensures
            match r {
                Some(id) => self@.first_edge_at(point) == Some(id.index as int) && self@.edge_live(
                    id,
                ),
                None => self@.first_edge_at(point) is None && forall|k: int|
                    !self@.edge_hit_at(k, point),
            },
    {
        let m = self.edges.len();
        for k in 0..m
            invariant
                self@.wf(),
                in_canvas(point),
                m == self@.edges.len(),
                forall|j: int| 0 <= j < k ==> !self@.edge_hit_at(j, point),
        {
            let slot = self.edges[k];
            if let Some(e) = slot {
                proof {
                    assert(self@.edge_live_at(k as int));
                    assert(self@.edge_refs_ok_at(k as int));
                    assert(self@.edge_cache_ok_at(k as int));
                    assert(self@.nodes[e.from.index as int]->0.wf());
                    assert(self@.nodes[e.to.index as int]->0.wf());
                }
                if e.is_point_in_shape(point) {
                    proof {
                        self@.lemma_first_edge_from_skip(point, k as int);
                    }
                    return Some(EdgeId { index: k });
                }
            }
        }
        proof {
            self@.lemma_first_edge_from_skip(point, m as int);
        }
        None
    }

    /// Soft-disable or re-enable a live edge: a disabled edge exerts no pull
    /// force and renders dimmed, but stays in the edge set. Stale ids are a
    /// no-op.
    pub fn set_edge_enabled(&mut self, id: EdgeId, enabled: bool)
        requires
            old(self)@.wf(),
        ensures
            old(self)@.edge_live(id) ==> final(self)@ == with_edge_enabled(old(self)@, id, enabled),
            !old(self)@.edge_live(id) ==> final(self)@ == old(self)@,
            final(self)@.wf(),
    {
        if id.index >= self.edges.len() {
            return ;
        }
        let slot = self.edges[id.index];
        if let Some(mut e) = slot {
            if enabled {
                e.enable_edge();
            } else {
                e.disable_edge();
            }
            self.edges[id.index] = Some(e);
            proof {
                let g0 = old(self)@;
                let g1 = with_edge_enabled(g0, id, enabled);
                assert(self@ =~= g1);
                assert(g1.nodes == g0.nodes);
                assert forall|i: int| 0 <= i < g1.nodes.len() && g1.nodes[i] is Some implies (
                #[trigger] g1.nodes[i])->0.wf() by {
                    assert(g1.nodes[i] == g0.nodes[i]);
                }
                assert forall|k: int| g1.edge_live_at(k) implies #[trigger] g1.edge_refs_ok_at(
                    k,
                ) by {
                    assert(g0.edge_live_at(k));
                    assert(g0.edge_refs_ok_at(k));
                    if k == id.index {
                        assert(g1.edge_at(k).from == g0.edge_at(k).from);
                        assert(g1.edge_at(k).to == g0.edge_at(k).to);
                    } else {
                        assert(g1.edges[k] == g0.edges[k]);
                    }
                }
                assert forall|k: int| g1.edge_live_at(k) implies #[trigger] g1.edge_cache_ok_at(
                    k,
                ) by {
                    assert(g0.edge_live_at(k));
                    assert(g0.edge_cache_ok_at(k));
                    if k != id.index {
                        assert(g1.edges[k] == g0.edges[k]);
                    }
                }
            }
        }
    }

    /// Set a live node's highlight flag; stale ids are a no-op.
    pub fn set_node_highlight(&mut self, id: NodeId, h: NodeHighlight)
        requires
            old(self)@.wf(),
        ensures
            old(self)@.node_live(id) ==> final(self)@ == with_highlight(old(self)@, id, h),
            !old(self)@.node_live(id) ==> final(self)@ == old(self)@,
            final(self)@.wf(),
    {
        if id.index >= self.nodes.len() {
            return ;
        }
        let slot = self.nodes[id.index];
        if let Some(mut n) = slot {
            n.set_highlight(h);
            self.nodes[id.index] = Some(n);
            proof {
                let g0 = old(self)@;
                let g1 = with_highlight(g0, id, h);
                assert(self@ =~= g1);
                assert forall|i: int| 0 <= i < g1.nodes.len() && g1.nodes[i] is Some implies (
                #[trigger] g1.nodes[i])->0.wf() by {
                    if i != id.index {
                        assert(g1.nodes[i] == g0.nodes[i]);
                    }
                }
                lemma_refs_preserved(g0, g1);
                lemma_caches_preserved(g0, g1);
            }
        }
    }

    /// Set a live node's ignore-force flag (used while it is dragged); its
    /// accumulated force is discarded. Stale ids are a no-op.
    pub fn set_node_ignore(&mut self, id: NodeId, value: bool)
        requires
            old(self)@.wf(),
        ensures
            old(self)@.node_live(id) ==> final(self)@ == with_ignore(old(self)@, id, value),
            !old(self)@.node_live(id) ==> final(self)@ == old(self)@,
            final(self)@.wf(),
    {
        if id.index >= self.nodes.len() {
            return ;
        }
        let slot = self.nodes[id.index];
        if let Some(mut n) = slot {
            n.set_ignore_force(value);
            self.nodes[id.index] = Some(n);
            proof {
                let g0 = old(self)@;
                let g1 = with_ignore(g0, id, value);
                assert(self@ =~= g1);
                assert forall|i: int| 0 <= i < g1.nodes.len() && g1.nodes[i] is Some implies (
                #[trigger] g1.nodes[i])->0.wf() by {
                    if i != id.index {
                        assert(g1.nodes[i] == g0.nodes[i]);
                    }
                }
                lemma_refs_preserved(g0, g1);
                lemma_caches_preserved(g0, g1);
            }
        }
    }

    /// Move a live node to `position` (pointer drag) and refresh every edge
    /// cache; stale ids are a no-op.
    pub fn move_node_to(&mut self, id: NodeId, position: Vec2i)
        requires
            old(self)@.wf(),
            in_canvas(position),
        ensures
            old(self)@.node_live(id) ==> final(self)@ == moved_node(old(self)@, id, position),
            !old(self)@.node_live(id) ==> final(self)@ == old(self)@,
            final(self)@.wf(),
    {
        if id.index >= self.nodes.len() {
            return ;
        }
        let slot = self.nodes[id.index];
        if let Some(mut n) = slot {
            n.set_position(position);
            self.nodes[id.index] = Some(n);
            proof {
                let g0 = old(self)@;
                let gm = node_updated(
                    g0,
                    id.index as int,
                    Node { position, ..g0.node_at(id.index as int) },
                );
                assert(self@ =~= gm);
                assert forall|i: int| 0 <= i < gm.nodes.len() && gm.nodes[i] is Some implies (
                #[trigger] gm.nodes[i])->0.wf() by {
                    if i != id.index {
                        assert(gm.nodes[i] == g0.nodes[i]);
                    }
                }
                lemma_refs_preserved(g0, gm);
            }
            self.refresh_edges();
        }
    }

    /// Refresh every live edge's cached endpoint positions.
    fn refresh_edges(&mut self)
        requires
            old(self)@.nodes_wf(),
            old(self)@.refs_ok(),
        ensures
            final(self)@ == refreshed_edges(old(self)@),
            final(self)@.wf(),
    {
        let ghost g0 = old(self)@;
        let ghost g1 = refreshed_edges(g0);
        let m = self.edges.len();
        for k in 0..m
            invariant
                self@.nodes == g0.nodes,
                self@.seed == g0.seed,
                self@.edges.len() == m == g0.edges.len(),
                g1 == refreshed_edges(g0),
                forall|t: int| k <= t < m ==> self@.edges[t] == g0.edges[t],
                forall|t: int| 0 <= t < k ==> self@.edges[t] == g1.edges[t],
                g0.nodes_wf(),
                g0.refs_ok(),
        {
            let slot = self.edges[k];
            if let Some(e) = slot {
                proof {
                    assert(g0.edge_live_at(k as int));
                    assert(g0.edge_refs_ok_at(k as int));
                    assert(g0.nodes[e.from.index as int]->0.wf());
                    assert(g0.nodes[e.to.index as int]->0.wf());
                }
                let slot_f = self.nodes[e.from.index];
                let slot_t = self.nodes[e.to.index];
                if let (Some(nf), Some(nt)) = (slot_f, slot_t) {
                    let mut e2 = e;
                    e2.update_position(nf.position, nt.position);
                    self.edges[k] = Some(e2);
                }
            }
        }
        proof {
            assert(self@ =~= g1);
            assert(g1.nodes == g0.nodes);
            assert forall|i: int| 0 <= i < g1.nodes.len() && g1.nodes[i] is Some implies (
            #[trigger] g1.nodes[i])->0.wf() by {
                assert(g1.nodes[i] == g0.nodes[i]);
            }
            assert forall|k: int| g1.edge_live_at(k) implies #[trigger] g1.edge_refs_ok_at(k)
                && g1.edge_cache_ok_at(k) by {
                assert(g0.edge_live_at(k));
                assert(g0.edge_refs_ok_at(k));
                assert(g1.edge_at(k) == with_cache(
                    g0.edge_at(k),
                    g0.node_at(g0.edge_at(k).from.index as int).position,
                    g0.node_at(g0.edge_at(k).to.index as int).position,
                ));
            }
        }
    }

    /// Pairwise repulsion pass: accumulate, into every live node, the push
    /// contribution of every other live node.
    fn accumulate_push(&mut self, conf: &PushForceConfig)
        requires
            old(self)@.wf(),
            conf.wf(),
        ensures
            final(self)@ == pushed_graph(old(self)@, *conf),
            final(self)@.wf(),
    {
        let ghost g0 = old(self)@;
        let ghost g1 = pushed_graph(g0, *conf);
        let n = self.nodes.len();
        for i in 0..n
            invariant
                self@.edges == g0.edges,
                self@.seed == g0.seed,
                self@.nodes.len() == n == g0.nodes.len(),
                g1 == pushed_graph(g0, *conf),
                forall|t: int| i <= t < n ==> self@.nodes[t] == g0.nodes[t],
                forall|t: int| 0 <= t < i ==> self@.nodes[t] == g1.nodes[t],
                g0.wf(),
                conf.wf(),
        {
            let slot = self.nodes[i];
            if let Some(node_i) = slot {
                let pos_i = node_i.position;
                let mut acc = node_i.current_force;
                assert(node_i.wf());
                assert(acc.x as int == push_acc(g0, i as int, 0, *conf).0);
                assert(acc.y as int == push_acc(g0, i as int, 0, *conf).1);
                for j in 0..n
                    invariant
                        self@.edges == g0.edges,
                        self@.seed == g0.seed,
                        self@.nodes.len() == n == g0.nodes.len(),
                        g1 == pushed_graph(g0, *conf),
                        forall|t: int| i <= t < n ==> self@.nodes[t] == g0.nodes[t],
                        forall|t: int| 0 <= t < i ==> self@.nodes[t] == g1.nodes[t],
                        g0.wf(),
                        conf.wf(),
                        i < n,
                        g0.node_live_at(i as int),
                        pos_i == g0.node_at(i as int).position,
                        in_canvas(pos_i),
                        acc.x as int == push_acc(g0, i as int, j as int, *conf).0,
                        acc.y as int == push_acc(g0, i as int, j as int, *conf).1,
                        -FORCE_LIMIT <= acc.x <= FORCE_LIMIT,
                        -FORCE_LIMIT <= acc.y <= FORCE_LIMIT,
                {
                    proof {
                        assert(push_acc(g0, i as int, j as int + 1, *conf) == add_clamped_spec(
                            push_acc(g0, i as int, j as int, *conf),
                            push_contrib(g0, i as int, j as int, *conf),
                        ));
                    }
                    if j != i {
                        let slot_j = self.nodes[j];
                        match slot_j {
                            Some(node_j) => {
                                proof {
                                    if j < i {
                                        assert(self@.nodes[j as int] == g1.nodes[j as int]);
                                        assert(g1.nodes[j as int] == pushed_graph(
                                            g0,
                                            *conf,
                                        ).nodes[j as int]);
                                        assert(g0.node_live_at(j as int));
                                        assert(node_j == pushed_node(g0, j as int, *conf));
                                        assert(node_j.position == g0.node_at(j as int).position);
                                    } else {
                                        assert(self@.nodes[j as int] == g0.nodes[j as int]);
                                        assert(g0.node_live_at(j as int));
                                    }
                                    assert(g0.nodes[j as int]->0.wf());
                                    assert(in_canvas(g0.node_at(j as int).position));
                                }
                                let tie = tie_of(self.seed, i, j);
                                let f = push_force(pos_i, node_j.position, conf.force,
                                    conf.distance, tie);
                                proof {
                                    assert(tie as int % 4 == tie_spec(g0.seed, i as int, j as int));
                                    assert((f.x as int, f.y as int) == push_contrib(
                                        g0,
                                        i as int,
                                        j as int,
                                        *conf,
                                    ));
                                }
                                acc = clamped_add(acc, f);
                            },
                            None => {
                                proof {
                                    if j < i {
                                        assert(self@.nodes[j as int] == g1.nodes[j as int]);
                                        assert(g1.nodes[j as int] == pushed_graph(
                                            g0,
                                            *conf,
                                        ).nodes[j as int]);
                                    } else {
                                        assert(self@.nodes[j as int] == g0.nodes[j as int]);
                                    }
                                    assert(!g0.node_live_at(j as int));
                                    assert(push_contrib(g0, i as int, j as int, *conf) == (
                                        0int,
                                        0int,
                                    ));
                                }
                            },
                        }
                    } else {
                        proof {
                            assert(push_contrib(g0, i as int, j as int, *conf) == (0int, 0int));
                        }
                    }
                }
                let mut node_i2 = node_i;
                node_i2.current_force = acc;
                self.nodes[i] = Some(node_i2);
                proof {
                    assert(node_i2 == pushed_node(g0, i as int, *conf));
                    assert(self@.nodes[i as int] == g1.nodes[i as int]);
                }
            }
        }
        proof {
            assert(self@ =~= g1);
            assert forall|i: int| 0 <= i < g1.nodes.len() && g1.nodes[i] is Some implies (
            #[trigger] g1.nodes[i])->0.wf() by {
                if g0.node_live_at(i) {
                    assert(g0.nodes[i]->0.wf());
                    assert(g1.nodes[i] == Some(pushed_node(g0, i, *conf)));
                    lemma_push_acc_bounds(g0, i, g0.nodes.len() as int, *conf);
                } else {
                    assert(g1.nodes[i] == g0.nodes[i]);
                }
            }
            assert forall|i: int|
                0 <= i < g0.nodes.len() implies ((#[trigger] g1.nodes[i]) is Some <==> g0.nodes[i]
                is Some) && (g0.nodes[i] is Some ==> g1.nodes[i]->0.position == g0.nodes[i]
                ->0.position) by {}
            lemma_refs_preserved(g0, g1);
            lemma_caches_preserved(g0, g1);
        }
    }

    /// Edge attraction pass: every live enabled edge pulls its endpoints
    /// together with equal and opposite forces.
    fn accumulate_pull(&mut self, conf: &PullForceConfig)
        requires
            old(self)@.wf(),
            conf.wf(),
        ensures
            final(self)@ == pulled_graph(old(self)@, *conf),
            final(self)@.wf(),
    {
        let ghost g0 = old(self)@;
        let ghost g1 = pulled_graph(g0, *conf);
        let m = self.edges.len();
        let n = self.nodes.len();
        for k in 0..m
            invariant
                self@.edges == g0.edges,
                self@.seed == g0.seed,
                self@.nodes.len() == n == g0.nodes.len(),
                m == g0.edges.len(),
                g1 == pulled_graph(g0, *conf),
                g0.wf(),
                conf.wf(),
                forall|t: int|
                    0 <= t < n ==> #[trigger] self@.nodes[t] == (if g0.node_live_at(t) {
                        Some(
                            Node {
                                current_force: Vec2i {
                                    x: pull_acc(g0, k as int, *conf)[t].0 as i64,
                                    y: pull_acc(g0, k as int, *conf)[t].1 as i64,
                                },
                                ..g0.node_at(t)
                            },
                        )
                    } else {
                        g0.nodes[t]
                    }),
        {
            proof {
                lemma_pull_acc_bounds(g0, k as int, *conf);
                lemma_pull_acc_bounds(g0, k as int + 1, *conf);
            }
            let slot = self.edges[k];
            if let Some(e) = slot {
                proof {
                    assert(g0.edge_live_at(k as int));
                    assert(g0.edge_refs_ok_at(k as int));
                    assert(g0.edge_cache_ok_at(k as int));
                    assert(g0.nodes[e.from.index as int]->0.wf());
                    assert(g0.nodes[e.to.index as int]->0.wf());
                }
                let f = e.calculate_pull_force(conf);
                let fi = e.from.index;
                let ti = e.to.index;
                let slot_f = self.nodes[fi];
                if let Some(mut nf) = slot_f {
                    nf.add_force(f);
                    self.nodes[fi] = Some(nf);
                }
                let neg = Vec2i { x: -f.x, y: -f.y };
                let slot_t = self.nodes[ti];
                if let Some(mut nt) = slot_t {
                    nt.add_force(neg);
                    self.nodes[ti] = Some(nt);
                }
            }
        }
        proof {
            lemma_pull_acc_bounds(g0, m as int, *conf);
            assert(self@ =~= g1);
            assert forall|i: int| 0 <= i < g1.nodes.len() && g1.nodes[i] is Some implies (
            #[trigger] g1.nodes[i])->0.wf() by {
                if g0.node_live_at(i) {
                    assert(g0.nodes[i]->0.wf());
                } else {
                    assert(g1.nodes[i] == g0.nodes[i]);
                }
            }
            assert forall|i: int|
                0 <= i < g0.nodes.len() implies ((#[trigger] g1.nodes[i]) is Some <==> g0.nodes[i]
                is Some) && (g0.nodes[i] is Some ==> g1.nodes[i]->0.position == g0.nodes[i]
                ->0.position) by {}
            lemma_refs_preserved(g0, g1);
            lemma_caches_preserved(g0, g1);
        }
    }

    /// Integration pass: every live node consumes its accumulated force.
    fn consume_all(&mut self, elapsed_ms: u32)
        requires
            old(self)@.nodes_wf(),
            old(self)@.refs_ok(),
        ensures
            final(self)@ == consumed_graph(old(self)@, elapsed_ms as int),
            final(self)@.nodes_wf(),
            final(self)@.refs_ok(),
    {
        let ghost g0 = old(self)@;
        let ghost g1 = consumed_graph(g0, elapsed_ms as int);
        let n = self.nodes.len();
        for i in 0..n
            invariant
                self@.edges == g0.edges,
                self@.seed == g0.seed,
                self@.nodes.len() == n == g0.nodes.len(),
                g1 == consumed_graph(g0, elapsed_ms as int),
                forall|t: int| i <= t < n ==> self@.nodes[t] == g0.nodes[t],
                forall|t: int| 0 <= t < i ==> self@.nodes[t] == g1.nodes[t],
                g0.nodes_wf(),
                g0.refs_ok(),
        {
            let slot = self.nodes[i];
            if let Some(mut node) = slot {
                proof {
                    assert(self@.nodes[i as int] == g0.nodes[i as int]);
                    assert(g0.nodes[i as int]->0.wf());
                }
                node.consume_force(elapsed_ms);
                self.nodes[i] = Some(node);
            }
        }
        proof {
            assert(self@ =~= g1);
            assert forall|i: int| 0 <= i < g1.nodes.len() && g1.nodes[i] is Some implies (
            #[trigger] g1.nodes[i])->0.wf() by {
                if g0.node_live_at(i) {
                    assert(g0.nodes[i]->0.wf());
                    crate::node::lemma_consumed_wf(g0.nodes[i]->0, elapsed_ms as int);
                } else {
                    assert(g1.nodes[i] == g0.nodes[i]);
                }
            }
            assert forall|i: int|
                0 <= i < g0.nodes.len() implies ((#[trigger] g1.nodes[i]) is Some <==> g0.nodes[i]
                is Some) by {}
            lemma_refs_preserved(g0, g1);
        }
    }

    /// One simulation step: push over all node pairs, pull over all enabled
    /// edges, integrate positions forward by `elapsed_ms` milliseconds
    /// (discarding the force of nodes that ignore forces), refresh caches.
    pub fn step(&mut self, elapsed_ms: u32, push_conf: &PushForceConfig, pull_conf: &PullForceConfig)
        requires
            old(self)@.wf(),
            push_conf.wf(),
            pull_conf.wf(),
        ensures
            final(self)@ == stepped_graph(
                old(self)@,
                elapsed_ms as int,
                *push_conf,
                *pull_conf,
            ),
            final(self)@.wf(),
    {
        self.accumulate_push(push_conf);
        self.accumulate_pull(pull_conf);
        self.consume_all(elapsed_ms);
        self.refresh_edges();
    }

    /// Number of live nodes.
    pub fn node_count(&self) -> (r: usize)
        ensures
            r as int == self@.live_node_count(),
    {
        let n = self.nodes.len();
        let mut cnt: usize = 0;
        for i in 0..n
            invariant
                n == self@.nodes.len(),
                cnt as int == self@.live_nodes_upto(i as int),
                cnt <= i,
        {
            if self.nodes[i].is_some() {
                cnt = cnt + 1;
            }
        }
        cnt
    }

    /// Number of live edges.
    pub fn edge_count(&self) -> (r: usize)
        ensures
            r as int == self@.live_edge_count(),
    {
        let m = self.edges.len();
        let mut cnt: usize = 0;
        for k in 0..m
            invariant
                m == self@.edges.len(),
                cnt as int == self@.live_edges_upto(k as int),
                cnt <= k,
        {
            if self.edges[k].is_some() {
                cnt = cnt + 1;
            }
        }
        cnt
    }

    /// Position of a live node, `None` for stale or unknown ids.
    pub fn node_position(&self, id: NodeId) -> (r: Option<Vec2i>)
        ensures
            r is Some <==> self@.node_live(id),
            r is Some ==> r->0 == self@.node_at(id.index as int).position,
    {
        if id.index >= self.nodes.len() {
            return None;
        }
        match self.nodes[id.index] {
            Some(n) => Some(n.position),
            None => None,
        }
    }

    /// Highlight flag of a live node, `None` for stale or unknown ids.
    pub fn node_highlight(&self, id: NodeId) -> (r: Option<NodeHighlight>)
        ensures
            r is Some <==> self@.node_live(id),
            r is Some ==> r->0 == self@.node_at(id.index as int).highlight,
    {
        if id.index >= self.nodes.len() {
            return None;
        }
        match self.nodes[id.index] {
            Some(n) => Some(n.highlight),
            None => None,
        }
    }

    /// Ignore-force flag of a live node, `None` for stale or unknown ids.
    pub fn node_ignores_force(&self, id: NodeId) -> (r: Option<bool>)
        ensures
            r is Some <==> self@.node_live(id),
            r is Some ==> r->0 == self@.node_at(id.index as int).ignore_force,
    {
        if id.index >= self.nodes.len() {
            return None;
        }
        match self.nodes[id.index] {
            Some(n) => Some(n.ignore_force),
            None => None,
        }
    }

    /// Enabled flag of a live edge, `None` for stale or unknown ids.
    pub fn edge_enabled(&self, id: EdgeId) -> (r: Option<bool>)
        ensures
            r is Some <==> self@.edge_live(id),
            r is Some ==> r->0 == self@.edge_at(id.index as int).enabled,
    {
        if id.index >= self.edges.len() {
            return None;
        }
        match self.edges[id.index] {
            Some(e) => Some(e.enabled),
            None => None,
        }
    }

    /// Endpoints of a live edge, `None` for stale or unknown ids.
    pub fn edge_endpoints(&self, id: EdgeId) -> (r: Option<(NodeId, NodeId)>)
        ensures
            r is Some <==> self@.edge_live(id),
            r is Some ==> (r->0).0 == self@.edge_at(id.index as int).from && (r->0).1
                == self@.edge_at(id.index as int).to,
    {
        if id.index >= self.edges.len() {
            return None;
        }
        match self.edges[id.index] {
            Some(e) => Some((e.from, e.to)),
            None => None,
        }
    }
}

} // verus!

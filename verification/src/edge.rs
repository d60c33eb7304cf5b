//! A directed edge between two node identities. It caches its endpoint
//! positions for drawing and hit-testing (the graph refreshes the cache
//! whenever an endpoint moves), can be soft-disabled (no pull force,
//! rendered dimmed, but kept in the edge set), and computes the pull force
//! it exerts.

use vstd::prelude::*;
use crate::geometry::{
    Vec2i, in_canvas, pull_force_spec, pull_force, edge_hit_spec, edge_hit,
};
use crate::config::PullForceConfig;
use crate::graph::NodeId;

verus! {

#[derive(Clone, Copy, PartialEq, Eq, Structural, Debug)]
pub struct Edge {
    pub from: NodeId,
    pub to: NodeId,
    pub from_pos: Vec2i,
    pub to_pos: Vec2i,
    pub enabled: bool,
}

/// The same edge with the enabled flag replaced.
pub open spec fn with_enabled(e: Edge, enabled: bool) -> Edge {
    Edge { enabled, ..e }
}

/// The same edge with the cached endpoint positions replaced.
pub open spec fn with_cache(e: Edge, from_pos: Vec2i, to_pos: Vec2i) -> Edge {
    Edge { from_pos, to_pos, ..e }
}

/// The pull force the edge exerts on its `from` endpoint; the `to` endpoint
/// receives the exact opposite. Disabled edges exert nothing.
pub open spec fn edge_pull_spec(e: Edge, conf: PullForceConfig) -> (int, int) {
    if e.enabled {
        pull_force_spec(
            e.from_pos,
            e.to_pos,
            conf.min_distance as int,
            conf.force_at_twice_distance as int,
        )
    } else {
        (0, 0)
    }
}

impl Edge {
    pub open spec fn wf(self) -> bool {
        in_canvas(self.from_pos) && in_canvas(self.to_pos)
    }

    pub fn new(from: NodeId, to: NodeId, from_pos: Vec2i, to_pos: Vec2i) -> (r: Edge)
        requires
            in_canvas(from_pos),
            in_canvas(to_pos),
        ensures
            r == (Edge { from, to, from_pos, to_pos, enabled: true }),
            r.wf(),
    {
        Edge { from, to, from_pos, to_pos, enabled: true }
    }

    /// Refresh the cached geometry after an endpoint moved.
    pub fn update_position(&mut self, from_pos: Vec2i, to_pos: Vec2i)
        requires
            in_canvas(from_pos),
            in_canvas(to_pos),
        ensures
            *final(self) == with_cache(*old(self), from_pos, to_pos),
            final(self).wf(),
    {
        self.from_pos = from_pos;
        self.to_pos = to_pos;
    }

    /// Soft removal: the edge stops pulling and renders dimmed, but stays.
    pub fn disable_edge(&mut self)
        ensures
            *final(self) == with_enabled(*old(self), false),
    {
        self.enabled = false;
    }

    pub fn enable_edge(&mut self)
        ensures
            *final(self) == with_enabled(*old(self), true),
    {
        self.reset_state();
    }

    pub fn reset_state(&mut self)
        ensures
            *final(self) == with_enabled(*old(self), true),
    {
        self.enabled = true;
    }

    /// The pull force this edge currently exerts on its `from` endpoint.
    pub fn calculate_pull_force(&self, config: &PullForceConfig) -> (r: Vec2i)
        requires
            self.wf(),
            config.wf(),
        ensures
            r.x as int == edge_pull_spec(*self, *config).0,
            r.y as int == edge_pull_spec(*self, *config).1,
            -4_000_000_000_000_000_000 <= r.x <= 4_000_000_000_000_000_000,
            -4_000_000_000_000_000_000 <= r.y <= 4_000_000_000_000_000_000,
    {
        if !self.enabled {
            return Vec2i::zero();
        }
        pull_force(self.from_pos, self.to_pos, config.min_distance, config.force_at_twice_distance)
    }

    /// Two-stage thin-stroke hit test against the cached segment.
    pub fn is_point_in_shape(&self, point: Vec2i) -> (r: bool)
        requires
            self.wf(),
            in_canvas(point),
        ensures
            r == edge_hit_spec(self.from_pos, self.to_pos, point),
    {
        edge_hit(self.from_pos, self.to_pos, point)
    }
}

/// Disabling an edge and enabling it again restores it exactly: soft
/// disable is reversible and leaves no trace for force or hit-testing.
pub proof fn lemma_disable_enable_roundtrip(e: Edge)
    requires
        e.enabled,
    ensures
        with_enabled(with_enabled(e, false), true) == e,
{
}

} // verus!

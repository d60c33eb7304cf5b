//! A graph node: a canvas position, the force accumulated during the current
//! frame, and its visual flags. Forces are accumulated by the simulation and
//! consumed exactly once per frame.

use vstd::prelude::*;
use crate::geometry::{
    Vec2i, in_canvas, dist_sq_spec, dist_sq, clamp_spec, lemma_square_bound, push_force_spec,
    push_force, POS_LIMIT, FORCE_LIMIT,
};
use crate::config::PushForceConfig;

verus! {

/// Whether the node is drawn highlighted (the pending end of a connection).
#[derive(Clone, Copy, PartialEq, Eq, Structural, Debug)]
pub enum NodeHighlight {
    Highlighted,
    Normal,
}

/// An RGBA color, handed to the renderer as a plain value.
#[derive(Clone, Copy, PartialEq, Eq, Structural, Debug)]
pub struct Color {
    pub r: u8,
    pub g: u8,
    pub b: u8,
    pub a: u8,
}

impl Color {
    pub fn white() -> (c: Color)
        ensures
            c == (Color { r: 255u8, g: 255u8, b: 255u8, a: 255u8 }),
    {
        Color { r: 255, g: 255, b: 255, a: 255 }
    }

    pub fn black() -> (c: Color)
        ensures
            c == (Color { r: 0u8, g: 0u8, b: 0u8, a: 255u8 }),
    {
        Color { r: 0, g: 0, b: 0, a: 255 }
    }
}

/// Visual radius every node is created with; also its hit-test radius.
pub const NODE_RADIUS: i64 = 20;

#[derive(Clone, Copy, PartialEq, Eq, Structural, Debug)]
pub struct Node {
    pub position: Vec2i,
    pub radius: i64,
    pub border_color: Color,
    pub color: Color,
    pub highlight: NodeHighlight,
    pub current_force: Vec2i,
    pub ignore_force: bool,
}

/// The state a node is created in at `position`.
pub open spec fn default_node(position: Vec2i) -> Node {
    Node {
        position,
        radius: NODE_RADIUS,
        border_color: Color { r: 0u8, g: 0u8, b: 0u8, a: 255u8 },
        color: Color { r: 255u8, g: 255u8, b: 255u8, a: 255u8 },
        highlight: NodeHighlight::Normal,
        current_force: Vec2i { x: 0i64, y: 0i64 },
        ignore_force: false,
    }
}

/// Clamped accumulation of one force contribution into a running total.
pub open spec fn add_clamped_spec(acc: (int, int), f: (int, int)) -> (int, int) {
    (
        clamp_spec(acc.0 + f.0, -FORCE_LIMIT as int, FORCE_LIMIT as int),
        clamp_spec(acc.1 + f.1, -FORCE_LIMIT as int, FORCE_LIMIT as int),
    )
}

/// Accumulate a force contribution into a running total, saturating at the
/// force bound.
pub fn clamped_add(acc: Vec2i, f: Vec2i) -> (r: Vec2i)
    ensures
        r.x as int == add_clamped_spec((acc.x as int, acc.y as int), (f.x as int, f.y as int)).0,
        r.y as int == add_clamped_spec((acc.x as int, acc.y as int), (f.x as int, f.y as int)).1,
        -FORCE_LIMIT <= r.x <= FORCE_LIMIT,
        -FORCE_LIMIT <= r.y <= FORCE_LIMIT,
{
    Vec2i {
        x: crate::geometry::clamp_i128(acc.x as i128 + f.x as i128, -FORCE_LIMIT, FORCE_LIMIT),
        y: crate::geometry::clamp_i128(acc.y as i128 + f.y as i128, -FORCE_LIMIT, FORCE_LIMIT),
    }
}

/// Distance a force component moves a node in `ms` milliseconds:
/// `f * ms / 1000`, rounding the magnitude toward zero.
pub open spec fn displacement_spec(f: int, ms: int) -> int {
    if f >= 0 {
        f * ms / 1000
    } else {
        -((-f) * ms / 1000)
    }
}

/// One explicit-Euler integration step of a coordinate, kept on the canvas.
pub open spec fn integrate_spec(pos: int, f: int, ms: int) -> int {
    clamp_spec(pos + displacement_spec(f, ms), -POS_LIMIT as int, POS_LIMIT as int)
}

/// A node after its accumulated force is consumed: position integrated
/// forward (discarded instead when the node ignores forces), force reset.
pub open spec fn consumed_node_spec(n: Node, ms: int) -> Node {
    if n.ignore_force {
        Node { current_force: Vec2i { x: 0i64, y: 0i64 }, ..n }
    } else {
        Node {
            position: Vec2i {
                x: integrate_spec(n.position.x as int, n.current_force.x as int, ms) as i64,
                y: integrate_spec(n.position.y as int, n.current_force.y as int, ms) as i64,
            },
            current_force: Vec2i { x: 0i64, y: 0i64 },
            ..n
        }
    }
}

impl Node {
    /// Machine bounds every live node satisfies: on-canvas position, bounded
    /// accumulated force, positive bounded radius.
    pub open spec fn wf(self) -> bool {
        &&& in_canvas(self.position)
        &&& -FORCE_LIMIT <= self.current_force.x <= FORCE_LIMIT
        &&& -FORCE_LIMIT <= self.current_force.y <= FORCE_LIMIT
        &&& 1 <= self.radius <= 1_000_000
    }

    pub fn new(position: Vec2i) -> (r: Node)
        requires
            in_canvas(position),
        ensures
            r == default_node(position),
            r.wf(),
    {
        Node {
            position,
            radius: NODE_RADIUS,
            border_color: Color::black(),
            color: Color::white(),
            highlight: NodeHighlight::Normal,
            current_force: Vec2i::zero(),
            ignore_force: false,
        }
    }

    /// The point lies inside the node's circle: its distance to the center is
    /// at most the radius (compared on squares, which is exact).
    pub open spec fn contains_spec(self, point: Vec2i) -> bool {
        dist_sq_spec(self.position, point) <= self.radius * self.radius
    }

    pub fn contains(&self, point: Vec2i) -> (r: bool)
        requires
            self.wf(),
            in_canvas(point),
        ensures
            r == self.contains_spec(point),
    {
        proof {
            lemma_square_bound(self.radius as int, 1_000_000);
        }
        dist_sq(self.position, point) <= self.radius * self.radius
    }

    pub fn get_color(&self) -> (r: Color)
        ensures
            r == self.color,
    {
        self.color
    }

    pub fn set_color(&mut self, color: Color)
        ensures
            *final(self) == (Node { color, ..*old(self) }),
    {
        self.color = color;
    }

    pub fn set_highlight(&mut self, highlight: NodeHighlight)
        ensures
            *final(self) == (Node { highlight, ..*old(self) }),
    {
        self.highlight = highlight;
    }

    pub fn position(&self) -> (r: Vec2i)
        ensures
            r == self.position,
    {
        self.position
    }

    pub fn set_position(&mut self, position: Vec2i)
        requires
            in_canvas(position),
        ensures
            *final(self) == (Node { position, ..*old(self) }),
    {
        self.position = position;
    }

    /// Accumulate one force contribution, saturating at the force bound.
    pub fn add_force(&mut self, force: Vec2i)
        ensures
            *final(self) == (Node {
                current_force: Vec2i {
                    x: add_clamped_spec(
                        (old(self).current_force.x as int, old(self).current_force.y as int),
                        (force.x as int, force.y as int),
                    ).0 as i64,
                    y: add_clamped_spec(
                        (old(self).current_force.x as int, old(self).current_force.y as int),
                        (force.x as int, force.y as int),
                    ).1 as i64,
                },
                ..*old(self)
            }),
            -FORCE_LIMIT <= final(self).current_force.x <= FORCE_LIMIT,
            -FORCE_LIMIT <= final(self).current_force.y <= FORCE_LIMIT,
    {
        self.current_force = clamped_add(self.current_force, force);
    }

    /// Accumulate the repulsion exerted by a node (or the pointer) at
    /// `point`; `tie` breaks the direction when the positions coincide.
    pub fn push_away_from_point(&mut self, point: Vec2i, push_conf: &PushForceConfig, tie: u64)
        requires
            old(self).wf(),
            in_canvas(point),
            push_conf.wf(),
        ensures
            *final(self) == (Node {
                current_force: Vec2i {
                    x: add_clamped_spec(
                        (old(self).current_force.x as int, old(self).current_force.y as int),
                        push_force_spec(
                            old(self).position,
                            point,
                            push_conf.force as int,
                            push_conf.distance as int,
                            tie as int % 4,
                        ),
                    ).0 as i64,
                    y: add_clamped_spec(
                        (old(self).current_force.x as int, old(self).current_force.y as int),
                        push_force_spec(
                            old(self).position,
                            point,
                            push_conf.force as int,
                            push_conf.distance as int,
                            tie as int % 4,
                        ),
                    ).1 as i64,
                },
                ..*old(self)
            }),
            final(self).wf(),
    {
        let f = push_force(self.position, point, push_conf.force, push_conf.distance, tie);
        self.add_force(f);
    }

    /// Consume the accumulated force: integrate the position forward by
    /// `elapsed_ms` milliseconds (nodes that ignore forces keep their
    /// position) and reset the force to zero.
    pub fn consume_force(&mut self, elapsed_ms: u32)
        requires
            old(self).wf(),
        ensures
            *final(self) == consumed_node_spec(*old(self), elapsed_ms as int),
            final(self).wf(),
    {
        if self.ignore_force {
            self.current_force = Vec2i::zero();
            return ;
        }
        let px = integrate_coord(self.position.x, self.current_force.x, elapsed_ms);
        let py = integrate_coord(self.position.y, self.current_force.y, elapsed_ms);
        self.position = Vec2i { x: px, y: py };
        self.current_force = Vec2i::zero();
    }

    /// Mark the node as dragged (forces ignored) or released; either way the
    /// force accumulated so far is discarded.
    pub fn set_ignore_force(&mut self, value: bool)
        ensures
            *final(self) == (Node {
                ignore_force: value,
                current_force: Vec2i { x: 0i64, y: 0i64 },
                ..*old(self)
            }),
    {
        self.ignore_force = value;
        self.current_force = Vec2i::zero();
    }
}

fn integrate_coord(pos: i64, f: i64, ms: u32) -> (r: i64)
    requires
        -POS_LIMIT <= pos <= POS_LIMIT,
        -FORCE_LIMIT <= f <= FORCE_LIMIT,
    ensures
        r as int == integrate_spec(pos as int, f as int, ms as int),
{
    let a: i64 = if f < 0 {
        -f
    } else {
        f
    };
    proof {
        crate::geometry::lemma_mul_le(a as int, 9_223_372_036_854_775_807, ms as int,
            4_294_967_295);
        vstd::arithmetic::mul::lemma_mul_nonnegative(a as int, ms as int);
        vstd::arithmetic::div_mod::lemma_div_pos_is_pos(a as int * ms as int, 1000);
        vstd::arithmetic::div_mod::lemma_div_is_ordered(a as int * ms as int,
            9_223_372_036_854_775_807int * 4_294_967_295int, 1000);
    }
    let mag: u128 = (a as u128) * (ms as u128) / 1000;
    let disp: i128 = if f < 0 {
        -(mag as i128)
    } else {
        mag as i128
    };
    crate::geometry::clamp_i128(pos as i128 + disp, -POS_LIMIT, POS_LIMIT)
}

/// Consuming the force keeps a node within its machine bounds.
pub proof fn lemma_consumed_wf(n: Node, ms: int)
    requires
        n.wf(),
    ensures
        consumed_node_spec(n, ms).wf(),
{
}

/// A node always contains its own center.
pub proof fn lemma_contains_center(n: Node)
    requires
        n.wf(),
    ensures
        n.contains_spec(n.position),
{
    lemma_square_bound(n.radius as int, 1_000_000);
}

} // verus!

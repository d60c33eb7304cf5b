//! Integer 2D geometry for the canvas: points, distances, and the two
//! hit-testing primitives (circle test, thin-stroke segment test).
//!
//! Coordinates are integer canvas units, bounded by [`POS_LIMIT`] so that
//! every squared distance and force product stays inside `i64`/`i128`.

use vstd::prelude::*;

verus! {

/// Greatest coordinate magnitude a canvas position may carry.
pub const POS_LIMIT: i64 = 1_000_000_000;

/// Greatest magnitude an accumulated per-frame force component may carry;
/// force accumulation saturates here instead of overflowing.
pub const FORCE_LIMIT: i64 = 1_000_000_000_000_000_000;

/// A 2D point or vector on the canvas, in integer canvas units.
#[derive(Clone, Copy, PartialEq, Eq, Structural, Debug)]
pub struct Vec2i {
    pub x: i64,
    pub y: i64,
}

impl Vec2i {
    pub fn new(x: i64, y: i64) -> (r: Vec2i)
        ensures
            r.x == x,
            r.y == y,
    {
        Vec2i { x, y }
    }

    pub fn zero() -> (r: Vec2i)
        ensures
            r.x == 0,
            r.y == 0,
    {
        Vec2i { x: 0, y: 0 }
    }

    pub open spec fn is_zero(self) -> bool {
        self.x == 0 && self.y == 0
    }
}

/// The position lies within the coordinate bound.
pub open spec fn in_canvas(v: Vec2i) -> bool {
    -POS_LIMIT <= v.x <= POS_LIMIT && -POS_LIMIT <= v.y <= POS_LIMIT
}

pub open spec fn abs_val(v: int) -> int {
    if v < 0 { -v } else { v }
}

pub open spec fn clamp_spec(v: int, lo: int, hi: int) -> int {
    if v < lo {
        lo
    } else if v > hi {
        hi
    } else {
        v
    }
}

/// Clamp a wide intermediate back into an `i64` interval.
pub fn clamp_i128(v: i128, lo: i64, hi: i64) -> (r: i64)
    requires
        lo <= hi,
    ensures
        r as int == clamp_spec(v as int, lo as int, hi as int),
{
    if v < lo as i128 {
        lo
    } else if v > hi as i128 {
        hi
    } else {
        v as i64
    }
}

/// Squared Euclidean distance between two canvas points.
pub open spec fn dist_sq_spec(a: Vec2i, b: Vec2i) -> int {
    (a.x - b.x) * (a.x - b.x) + (a.y - b.y) * (a.y - b.y)
}

pub fn dist_sq(a: Vec2i, b: Vec2i) -> (r: i64)
    requires
        in_canvas(a),
        in_canvas(b),
    ensures
        r as int == dist_sq_spec(a, b),
        0 <= r,
{
    let dx: i64 = a.x - b.x;
    let dy: i64 = a.y - b.y;
    proof {
        lemma_square_bound(dx as int, 2 * POS_LIMIT as int);
        lemma_square_bound(dy as int, 2 * POS_LIMIT as int);
    }
    dx * dx + dy * dy
}

/// |v| <= b implies v * v <= b * b (and v * v >= 0).
pub proof fn lemma_square_bound(v: int, b: int)
    requires
        -b <= v <= b,
    ensures
        0 <= v * v <= b * b,
{
    assert(0 <= v * v <= b * b) by (nonlinear_arith)
        requires
            -b <= v <= b,
    ;
}

/// `r` is the integer square root (floor) of `n`.
pub open spec fn is_sqrt(n: int, r: int) -> bool {
    0 <= r && r * r <= n && n < (r + 1) * (r + 1)
}

/// The integer square root, as a function; pinned down by
/// [`lemma_sqrt_floor_is`].
pub open spec fn sqrt_floor(n: int) -> int {
    choose|r: int| is_sqrt(n, r)
}

/// The integer square root is unique, so `sqrt_floor` returns exactly the
/// witness.
pub proof fn lemma_sqrt_floor_is(n: int, r: int)
    requires
        is_sqrt(n, r),
    ensures
        sqrt_floor(n) == r,
{
    let c = sqrt_floor(n);
    assert(is_sqrt(n, c));
    if c < r {
        assert((c + 1) * (c + 1) <= r * r) by (nonlinear_arith)
            requires
                0 <= c + 1 <= r,
        ;
    }
    if r < c {
        assert((r + 1) * (r + 1) <= c * c) by (nonlinear_arith)
            requires
                0 <= r + 1 <= c,
        ;
    }
}

/// Every non-negative integer has an integer square root, so `sqrt_floor`
/// of it satisfies `is_sqrt`.
pub proof fn lemma_sqrt_floor_exists(n: int)
    requires
        0 <= n,
    ensures
        is_sqrt(n, sqrt_floor(n)),
    decreases n,
{
    if n == 0 {
        lemma_sqrt_floor_is(0, 0);
    } else {
        lemma_sqrt_floor_exists(n - 1);
        let r = sqrt_floor(n - 1);
        if (r + 1) * (r + 1) <= n {
            assert(n == (r + 1) * (r + 1));
            assert((r + 1) * (r + 1) < (r + 2) * (r + 2)) by (nonlinear_arith)
                requires
                    0 <= r,
            ;
            lemma_sqrt_floor_is(n, r + 1);
        } else {
            lemma_sqrt_floor_is(n, r);
        }
    }
}

/// Integer square root by bisection.
pub fn isqrt(n: i64) -> (r: i64)
    requires
        0 <= n,
    ensures
        r as int == sqrt_floor(n as int),
        is_sqrt(n as int, r as int),
{
    // Smallest integer whose square exceeds i64::MAX.
    let mut lo: i64 = 0;
    let mut hi: i64 = 3_037_000_500;
    proof {
        assert(n < 3_037_000_500i64 * 3_037_000_500i64);
    }
    while lo + 1 < hi
        invariant
            0 <= lo < hi <= 3_037_000_500,
            lo * lo <= n,
            n < hi * hi,
        decreases hi - lo,
    {
        let mid: i64 = lo + (hi - lo) / 2;
        proof {
            lemma_square_bound(mid as int, 3_037_000_500);
        }
        let sq: i128 = (mid as i128) * (mid as i128);
        if sq <= n as i128 {
            lo = mid;
        } else {
            hi = mid;
        }
    }
    proof {
        lemma_sqrt_floor_is(n as int, lo as int);
    }
    lo
}

/// Euclidean distance (floor of the real distance) between two canvas points.
pub open spec fn dist_spec(a: Vec2i, b: Vec2i) -> int {
    sqrt_floor(dist_sq_spec(a, b))
}

pub fn distance(a: Vec2i, b: Vec2i) -> (r: i64)
    requires
        in_canvas(a),
        in_canvas(b),
    ensures
        r as int == dist_spec(a, b),
        is_sqrt(dist_sq_spec(a, b), r as int),
        0 <= r <= 3_000_000_000,
{
    let r = isqrt(dist_sq(a, b));
    proof {
        lemma_square_bound((a.x - b.x) as int, 2 * POS_LIMIT as int);
        lemma_square_bound((a.y - b.y) as int, 2 * POS_LIMIT as int);
        assert(r as int <= 3_000_000_000) by (nonlinear_arith)
            requires
                (r as int) * (r as int) <= 8_000_000_000_000_000_000,
                0 <= r as int,
        ;
    }
    r
}

/// Each coordinate difference is bounded by the Euclidean distance.
pub proof fn lemma_component_le_dist(a: Vec2i, b: Vec2i, d: int)
    requires
        is_sqrt(dist_sq_spec(a, b), d),
    ensures
        -d <= a.x - b.x <= d,
        -d <= a.y - b.y <= d,
{
    let dx = a.x - b.x;
    let dy = a.y - b.y;
    assert(0 <= dx * dx && 0 <= dy * dy) by (nonlinear_arith);
    assert(dx * dx < (d + 1) * (d + 1));
    assert(dy * dy < (d + 1) * (d + 1));
    assert(-d <= dx <= d) by (nonlinear_arith)
        requires
            0 <= d,
            dx * dx < (d + 1) * (d + 1),
    ;
    assert(-d <= dy <= d) by (nonlinear_arith)
        requires
            0 <= d,
            dy * dy < (d + 1) * (d + 1),
    ;
}

/// 0 <= a <= A and 0 <= b <= B imply a * b <= A * B.
pub proof fn lemma_mul_le(a: int, ca: int, b: int, cb: int)
    requires
        0 <= a <= ca,
        0 <= b <= cb,
    ensures
        0 <= a * b <= ca * cb,
{
    assert(0 <= a * b <= ca * cb) by (nonlinear_arith)
        requires
            0 <= a <= ca,
            0 <= b <= cb,
    ;
}

/// Scaling a quantity `m` by the ratio `a / d` with `a <= d` cannot
/// increase it: `0 <= a * m / d <= m`.
pub proof fn lemma_scale_bounded(a: int, m: int, d: int)
    requires
        0 <= a <= d,
        0 <= m,
        0 < d,
    ensures
        0 <= a * m / d <= m,
{
    vstd::arithmetic::mul::lemma_mul_inequality(a, d, m);
    vstd::arithmetic::div_mod::lemma_div_is_ordered(a * m, d * m, d);
    vstd::arithmetic::div_mod::lemma_div_multiples_vanish(m, d);
    assert(d * m == m * d) by (nonlinear_arith);
    vstd::arithmetic::mul::lemma_mul_nonnegative(a, m);
    vstd::arithmetic::div_mod::lemma_div_pos_is_pos(a * m, d);
}

/// One component of a vector of length `d`, scaled to length `m` and kept
/// pointing the same way: `delta * m / d`, with the division rounding the
/// magnitude toward zero.
pub open spec fn scale_toward_spec(delta: int, m: int, d: int) -> int {
    if delta >= 0 {
        delta * m / d
    } else {
        -((-delta) * m / d)
    }
}

/// Flipping the component flips the scaled component exactly.
pub proof fn lemma_scale_toward_antisymmetric(delta: int, m: int, d: int)
    requires
        0 < d,
    ensures
        scale_toward_spec(-delta, m, d) == -scale_toward_spec(delta, m, d),
{
    if delta == 0 {
        assert(0int * m == 0) by (nonlinear_arith);
        vstd::arithmetic::div_mod::lemma_div_pos_is_pos(0, d);
        vstd::arithmetic::div_mod::lemma_div_nonincreasing(0, d);
    }
}

pub fn scale_component(delta: i64, m: i64, d: i64) -> (r: i64)
    requires
        0 <= m,
        0 < d,
        -d <= delta <= d,
    ensures
        r as int == scale_toward_spec(delta as int, m as int, d as int),
        -m <= r <= m,
{
    let a: i64 = if delta < 0 {
        -delta
    } else {
        delta
    };
    proof {
        lemma_scale_bounded(a as int, m as int, d as int);
        lemma_mul_le(a as int, 9_223_372_036_854_775_807, m as int, 9_223_372_036_854_775_807);
    }
    let q128: u128 = (a as u128) * (m as u128) / (d as u128);
    let q: i64 = q128 as i64;
    if delta < 0 {
        -q
    } else {
        q
    }
}

/// Repulsion magnitude: `force * (1 - d / dist_cfg)` in integer form, zero
/// once the separation reaches the configured push distance.
pub open spec fn push_magnitude_spec(d: int, force: int, dist_cfg: int) -> int {
    if d >= dist_cfg {
        0
    } else {
        (dist_cfg - d) * force / dist_cfg
    }
}

/// Unit direction used to break the tie when two nodes coincide.
pub open spec fn axis_dir_spec(t: int) -> Vec2i {
    if t == 0 {
        Vec2i { x: 1i64, y: 0i64 }
    } else if t == 1 {
        Vec2i { x: -1i64, y: 0i64 }
    } else if t == 2 {
        Vec2i { x: 0i64, y: 1i64 }
    } else {
        Vec2i { x: 0i64, y: -1i64 }
    }
}

pub fn axis_dir(t: u64) -> (r: Vec2i)
    ensures
        r == axis_dir_spec(t as int),
        -1 <= r.x <= 1,
        -1 <= r.y <= 1,
{
    if t == 0 {
        Vec2i { x: 1, y: 0 }
    } else if t == 1 {
        Vec2i { x: -1, y: 0 }
    } else if t == 2 {
        Vec2i { x: 0, y: 1 }
    } else {
        Vec2i { x: 0, y: -1 }
    }
}

/// The push (repulsion) force exerted on a node at `pos` by a node at
/// `other`; `tie` picks the direction when the two coincide.
pub open spec fn push_force_spec(pos: Vec2i, other: Vec2i, force: int, dist_cfg: int, tie: int) -> (
    int,
    int,
) {
    let d = dist_spec(pos, other);
    if d >= dist_cfg {
        (0, 0)
    } else if d == 0 {
        let dir = axis_dir_spec(tie);
        (dir.x * force, dir.y * force)
    } else {
        let m = push_magnitude_spec(d, force, dist_cfg);
        (
            scale_toward_spec(pos.x - other.x, m, d),
            scale_toward_spec(pos.y - other.y, m, d),
        )
    }
}

pub fn push_force(pos: Vec2i, other: Vec2i, force: i64, dist_cfg: i64, tie: u64) -> (r: Vec2i)
    requires
        in_canvas(pos),
        in_canvas(other),
        0 <= force,
        1 <= dist_cfg,
    ensures
        r.x as int == push_force_spec(pos, other, force as int, dist_cfg as int, tie as int % 4).0,
        r.y as int == push_force_spec(pos, other, force as int, dist_cfg as int, tie as int % 4).1,
        -force <= r.x <= force,
        -force <= r.y <= force,
{
    let d: i64 = distance(pos, other);
    if d >= dist_cfg {
        Vec2i::zero()
    } else if d == 0 {
        let dir = axis_dir(tie % 4);
        proof {
            assert(-force <= dir.x * force <= force && -force <= dir.y * force <= force)
                by (nonlinear_arith)
                requires
                    -1 <= dir.x <= 1,
                    -1 <= dir.y <= 1,
                    0 <= force,
            ;
        }
        Vec2i { x: dir.x * force, y: dir.y * force }
    } else {
        proof {
            lemma_scale_bounded((dist_cfg - d) as int, force as int, dist_cfg as int);
            lemma_mul_le((dist_cfg - d) as int, 9_223_372_036_854_775_807, force as int,
                9_223_372_036_854_775_807);
        }
        let m128: u128 = ((dist_cfg - d) as u128) * (force as u128) / (dist_cfg as u128);
        let m: i64 = m128 as i64;
        proof {
            lemma_component_le_dist(pos, other, d as int);
        }
        Vec2i {
            x: scale_component(pos.x - other.x, m, d),
            y: scale_component(pos.y - other.y, m, d),
        }
    }
}

/// Attraction magnitude: `(d / min_d - 1) * force` in integer form, zero
/// while the endpoints are closer than the configured minimum distance.
pub open spec fn pull_magnitude_spec(d: int, min_d: int, force: int) -> int {
    if d < min_d {
        0
    } else {
        (d - min_d) * force / min_d
    }
}

/// The pull (attraction) force an enabled edge exerts on its `from` node;
/// the `to` node receives the exact opposite.
pub open spec fn pull_force_spec(from: Vec2i, to: Vec2i, min_d: int, force: int) -> (int, int) {
    let d = dist_spec(from, to);
    if d < min_d {
        (0, 0)
    } else {
        let m = pull_magnitude_spec(d, min_d, force);
        (
            scale_toward_spec(to.x - from.x, m, d),
            scale_toward_spec(to.y - from.y, m, d),
        )
    }
}

pub fn pull_force(from: Vec2i, to: Vec2i, min_d: i64, force: i64) -> (r: Vec2i)
    requires
        in_canvas(from),
        in_canvas(to),
        1 <= min_d,
        0 <= force <= 1_000_000_000,
    ensures
        r.x as int == pull_force_spec(from, to, min_d as int, force as int).0,
        r.y as int == pull_force_spec(from, to, min_d as int, force as int).1,
        -4_000_000_000_000_000_000 <= r.x <= 4_000_000_000_000_000_000,
        -4_000_000_000_000_000_000 <= r.y <= 4_000_000_000_000_000_000,
{
    let d: i64 = distance(from, to);
    if d < min_d {
        Vec2i::zero()
    } else {
        proof {
            lemma_mul_le((d - min_d) as int, 3_000_000_000, force as int, 1_000_000_000);
            vstd::arithmetic::mul::lemma_mul_nonnegative((d - min_d) as int, force as int);
            vstd::arithmetic::div_mod::lemma_div_pos_is_pos((d - min_d) as int * force as int, min_d as int);
            vstd::arithmetic::div_mod::lemma_div_nonincreasing((d - min_d) as int * force as int, min_d as int);
        }
        let m128: u128 = ((d - min_d) as u128) * (force as u128) / (min_d as u128);
        let m: i64 = m128 as i64;
        proof {
            assert(dist_sq_spec(to, from) == dist_sq_spec(from, to)) by (nonlinear_arith);
            lemma_component_le_dist(to, from, d as int);
        }
        Vec2i {
            x: scale_component(to.x - from.x, m, d),
            y: scale_component(to.y - from.y, m, d),
        }
    }
}

/// Twice the signed area of the triangle (a, b, p).
pub open spec fn cross_spec(a: Vec2i, b: Vec2i, p: Vec2i) -> int {
    (b.x - a.x) * (p.y - a.y) - (b.y - a.y) * (p.x - a.x)
}

/// `p` lies in the axis-aligned rectangle spanned by `a` and `b`
/// (component-wise between them, in either order).
pub open spec fn in_bbox_spec(p: Vec2i, a: Vec2i, b: Vec2i) -> bool {
    ((a.x <= p.x && p.x <= b.x) || (b.x <= p.x && p.x <= a.x)) && ((a.y <= p.y && p.y <= b.y) || (
    b.y <= p.y && p.y <= a.y))
}

/// Width of the stroke an edge is drawn with; the hit test accepts points
/// within 1.5 stroke half-widths of the segment's carrier line.
pub const STROKE_WIDTH: i64 = 5;

/// Two-stage thin-segment hit test: a bounding-rectangle check, then a
/// triangle-area comparison. `4 * |cross| <= 3 * STROKE_WIDTH * d` says the
/// perpendicular distance `|cross| / d` is at most `1.5 * STROKE_WIDTH / 2`.
pub open spec fn edge_hit_spec(a: Vec2i, b: Vec2i, p: Vec2i) -> bool {
    in_bbox_spec(p, a, b) && 4 * abs_val(cross_spec(a, b, p)) <= 3 * STROKE_WIDTH * dist_spec(a, b)
}

pub fn edge_hit(a: Vec2i, b: Vec2i, p: Vec2i) -> (r: bool)
    requires
        in_canvas(a),
        in_canvas(b),
        in_canvas(p),
    ensures
        r == edge_hit_spec(a, b, p),
{
    let in_x = (a.x <= p.x && p.x <= b.x) || (b.x <= p.x && p.x <= a.x);
    let in_y = (a.y <= p.y && p.y <= b.y) || (b.y <= p.y && p.y <= a.y);
    if !(in_x && in_y) {
        return false;
    }
    let d: i64 = distance(a, b);
    proof {
        lemma_mul_le(abs_val((b.x - a.x) as int), 2_000_000_000, abs_val((p.y - a.y) as int),
            2_000_000_000);
        lemma_mul_le(abs_val((b.y - a.y) as int), 2_000_000_000, abs_val((p.x - a.x) as int),
            2_000_000_000);
        assert(abs_val(((b.x - a.x) as int) * ((p.y - a.y) as int)) == abs_val((b.x - a.x) as int)
            * abs_val((p.y - a.y) as int)) by (nonlinear_arith);
        assert(abs_val(((b.y - a.y) as int) * ((p.x - a.x) as int)) == abs_val((b.y - a.y) as int)
            * abs_val((p.x - a.x) as int)) by (nonlinear_arith);
    }
    let cr: i128 = ((b.x - a.x) as i128) * ((p.y - a.y) as i128) - ((b.y - a.y) as i128) * ((p.x
        - a.x) as i128);
    let ac: i128 = if cr < 0 {
        -cr
    } else {
        cr
    };
    4 * ac <= 3 * (STROKE_WIDTH as i128) * (d as i128)
}

/// The segment hit test does not depend on the orientation of the edge.
pub proof fn lemma_edge_hit_symmetric(a: Vec2i, b: Vec2i, p: Vec2i)
    ensures
        edge_hit_spec(a, b, p) == edge_hit_spec(b, a, p),
{
    assert(cross_spec(b, a, p) == -cross_spec(a, b, p)) by (nonlinear_arith);
    assert(dist_sq_spec(a, b) == dist_sq_spec(b, a)) by (nonlinear_arith);
}

/// Beyond the configured push distance the repulsion force is exactly zero.
pub proof fn lemma_push_zero_beyond_range(pos: Vec2i, other: Vec2i, force: int, dist_cfg: int, tie: int)
    requires
        dist_spec(pos, other) >= dist_cfg,
    ensures
        push_force_spec(pos, other, force, dist_cfg, tie) == (0int, 0int),
{
}

/// Below the configured minimum distance the pull force is exactly zero.
pub proof fn lemma_pull_zero_within_min(from: Vec2i, to: Vec2i, min_d: int, force: int)
    requires
        dist_spec(from, to) < min_d,
    ensures
        pull_force_spec(from, to, min_d, force) == (0int, 0int),
{
}

/// At exactly twice the minimum distance the pull magnitude equals the
/// configured force.
pub proof fn lemma_pull_boundary_magnitude(min_d: int, force: int)
    requires
        1 <= min_d,
    ensures
        pull_magnitude_spec(2 * min_d, min_d, force) == force,
{
    vstd::arithmetic::div_mod::lemma_div_multiples_vanish(force, min_d);
    assert((2 * min_d - min_d) * force == min_d * force) by (nonlinear_arith);
}

/// Swapping the two nodes of a pair at distinct positions flips the push
/// force exactly: pairwise repulsion is equal and opposite.
pub proof fn lemma_push_antisymmetric(a: Vec2i, b: Vec2i, force: int, dist_cfg: int, t1: int, t2: int)
    requires
        a != b,
    ensures
        push_force_spec(a, b, force, dist_cfg, t1).0 == -push_force_spec(b, a, force, dist_cfg, t2).0,
        push_force_spec(a, b, force, dist_cfg, t1).1 == -push_force_spec(b, a, force, dist_cfg, t2).1,
{
    assert(dist_sq_spec(a, b) == dist_sq_spec(b, a)) by (nonlinear_arith);
    assert(dist_sq_spec(a, b) > 0) by (nonlinear_arith)
        requires
            a.x != b.x || a.y != b.y,
    ;
    lemma_sqrt_floor_exists(dist_sq_spec(a, b));
    let d = dist_spec(a, b);
    assert(is_sqrt(dist_sq_spec(a, b), d));
    assert((0int + 1) * (0int + 1) == 1) by (nonlinear_arith);
    assert(d != 0);
    if d < dist_cfg {
        let m = push_magnitude_spec(d, force, dist_cfg);
        lemma_scale_toward_antisymmetric((a.x - b.x) as int, m, d);
        lemma_scale_toward_antisymmetric((a.y - b.y) as int, m, d);
    }
}

} // verus!

//! Two-dimensional fixed-point vectors: positions, sizes and headings.

use vstd::prelude::*;
use crate::fixed::{FP, COORD_LIMIT, tdiv, sqrt_floor, isqrt, div_trunc, clamp_spec, clamp_i64,
    lemma_sqrt_floor_bounds};
use vstd::arithmetic::div_mod::{lemma_div_is_ordered, lemma_div_multiples_vanish,
    lemma_div_pos_is_pos};

verus! {

#[derive(Clone, Copy, PartialEq, Eq, Structural, Debug)]
pub struct Vec2Fx {
    pub x: i64,
    pub y: i64,
}

impl Vec2Fx {
    /// Both coordinates lie inside the simulation's coordinate box.
    pub open spec fn wf(self) -> bool {
        -COORD_LIMIT <= self.x <= COORD_LIMIT && -COORD_LIMIT <= self.y <= COORD_LIMIT
    }

}

/// Squared Euclidean distance between two points.
pub open spec fn dist_sq_spec(a: Vec2Fx, b: Vec2Fx) -> int {
    (a.x - b.x) * (a.x - b.x) + (a.y - b.y) * (a.y - b.y)
}

/// The length (rounded down) of the segment between two points.
pub open spec fn dist_len_spec(a: Vec2Fx, b: Vec2Fx) -> int {
    sqrt_floor(dist_sq_spec(a, b) as nat) as int
}

/// A coordinate difference of two in-box points squares to at most `4e18`,
/// so a squared distance stays below `8e18` and inside both `i64` and the
/// domain of `isqrt`.
pub proof fn lemma_dist_sq_bounds(a: Vec2Fx, b: Vec2Fx)
    requires
        a.wf(),
        b.wf(),
    ensures
        0 <= dist_sq_spec(a, b) <= 8_000_000_000_000_000_000,
        (a.x - b.x) * (a.x - b.x) <= 4_000_000_000_000_000_000,
        (a.y - b.y) * (a.y - b.y) <= 4_000_000_000_000_000_000,
        (a.x - b.x) * (a.x - b.x) >= 0,
        (a.y - b.y) * (a.y - b.y) >= 0,
{
    let dx = a.x - b.x;
    let dy = a.y - b.y;
    assert(0 <= dx * dx <= 4_000_000_000_000_000_000) by (nonlinear_arith)
        requires -2_000_000_000 <= dx <= 2_000_000_000;
    assert(0 <= dy * dy <= 4_000_000_000_000_000_000) by (nonlinear_arith)
        requires -2_000_000_000 <= dy <= 2_000_000_000;
}

pub fn dist_sq(a: Vec2Fx, b: Vec2Fx) -> (r: i64)
    requires
        a.wf(),
        b.wf(),
    ensures
        r == dist_sq_spec(a, b),
        0 <= r <= 8_000_000_000_000_000_000,
{
    proof { lemma_dist_sq_bounds(a, b); }
    let dx = a.x - b.x;
    let dy = a.y - b.y;
    dx * dx + dy * dy
}

/// Scaling a value of magnitude at most `len` by `c / len` keeps it within
/// `[-c, c]`.
pub proof fn lemma_tdiv_scale_bound(a: int, len: int, c: int)
    requires
        len >= 1,
        -len <= a <= len,
        0 <= c,
    ensures
        -c <= tdiv(a * c, len) <= c,
{
    if a >= 0 {
        assert(0 <= a * c <= len * c) by (nonlinear_arith)
            requires 0 <= a <= len, 0 <= c;
        lemma_div_is_ordered(a * c, len * c, len);
        lemma_div_multiples_vanish(c, len);
        lemma_div_pos_is_pos(a * c, len);
        assert(len * c == c * len) by (nonlinear_arith);
    } else {
        let m = -a;
        assert(0 <= m * c <= len * c) by (nonlinear_arith)
            requires 0 <= m <= len, 0 <= c;
        lemma_div_is_ordered(m * c, len * c, len);
        lemma_div_multiples_vanish(c, len);
        lemma_div_pos_is_pos(m * c, len);
        assert(len * c == c * len) by (nonlinear_arith);
        assert(-(a * c) == m * c) by (nonlinear_arith)
            requires m == -a;
    }
}

/// A quotient is bounded by `c` whenever the dividend is bounded by `d * c`.
pub proof fn lemma_tdiv_abs_bound(a: int, d: int, c: int)
    requires
        d >= 1,
        0 <= c,
        -(d * c) <= a <= d * c,
    ensures
        -c <= tdiv(a, d) <= c,
{
    if a >= 0 {
        lemma_div_is_ordered(a, d * c, d);
        lemma_div_multiples_vanish(c, d);
        lemma_div_pos_is_pos(a, d);
        assert(d * c == c * d) by (nonlinear_arith);
    } else {
        let m = -a;
        assert(m <= d * c);
        lemma_div_is_ordered(m, d * c, d);
        lemma_div_multiples_vanish(c, d);
        lemma_div_pos_is_pos(m, d);
        assert(d * c == c * d) by (nonlinear_arith);
    }
}

/// Fixed-point x component of the unit vector pointing from `from` to `to`;
/// zero when the points coincide.
pub open spec fn dir_x_spec(from: Vec2Fx, to: Vec2Fx) -> int {
    if dist_sq_spec(from, to) == 0 {
        0
    } else {
        tdiv((to.x - from.x) * FP, dist_len_spec(from, to))
    }
}

/// Fixed-point y component of the unit vector pointing from `from` to `to`.
pub open spec fn dir_y_spec(from: Vec2Fx, to: Vec2Fx) -> int {
    if dist_sq_spec(from, to) == 0 {
        0
    } else {
        tdiv((to.y - from.y) * FP, dist_len_spec(from, to))
    }
}

/// The heading from `from` toward `to` as a fixed-point unit vector
/// (components in `[-FP, FP]`); the zero vector when the points coincide.
pub fn direction_to(from: Vec2Fx, to: Vec2Fx) -> (d: Vec2Fx)
    requires
        from.wf(),
        to.wf(),
    ensures
        d.x == dir_x_spec(from, to),
        d.y == dir_y_spec(from, to),
        -FP <= d.x <= FP,
        -FP <= d.y <= FP,
{
    proof { lemma_dist_sq_bounds(from, to); }
    let d2 = dist_sq(from, to);
    if d2 == 0 {
        return Vec2Fx { x: 0, y: 0 };
    }
    let dx = to.x - from.x;
    let dy = to.y - from.y;
    proof {
        // The squared distance is symmetric in the sign of the differences.
        assert(dx as int * dx as int + dy as int * dy as int == d2 as int) by (nonlinear_arith)
            requires
                d2 as int == (from.x - to.x) * (from.x - to.x) + (from.y - to.y) * (from.y - to.y),
                dx as int == to.x - from.x,
                dy as int == to.y - from.y;
        assert(dx as int * dx as int >= 0 && dy as int * dy as int >= 0) by (nonlinear_arith);
    }
    let len_u = isqrt(d2 as u64);
    proof {
        assert(len_u as int <= 3_000_000_000) by (nonlinear_arith)
            requires
                len_u as int * len_u as int <= d2 as int,
                d2 as int <= 8_000_000_000_000_000_000;
        assert(len_u as int >= 1) by (nonlinear_arith)
            requires
                d2 as int >= 1,
                (d2 as int) < (len_u as int + 1) * (len_u as int + 1),
                len_u as int >= 0;
    }
    let len = len_u as i64;
    proof {
        assert(len as int == dist_len_spec(from, to));
        // |dx| <= len: otherwise dx * dx alone would reach (len + 1)^2 > d2.
        assert(-(len as int) <= dx as int <= len as int
            && -(len as int) <= dy as int <= len as int) by (nonlinear_arith)
            requires
                dx as int * dx as int + dy as int * dy as int == d2 as int,
                dx as int * dx as int >= 0,
                dy as int * dy as int >= 0,
                (d2 as int) < (len as int + 1) * (len as int + 1),
                len as int >= 1;
        lemma_tdiv_scale_bound(dx as int, len as int, FP as int);
        lemma_tdiv_scale_bound(dy as int, len as int, FP as int);
        assert(-30_000_000_000_000 <= dx as int * (FP as int) <= 30_000_000_000_000
            && -30_000_000_000_000 <= dy as int * (FP as int) <= 30_000_000_000_000)
            by (nonlinear_arith)
            requires
                -3_000_000_000 <= dx as int <= 3_000_000_000,
                -3_000_000_000 <= dy as int <= 3_000_000_000,
                FP == 10_000;
    }
    let nx = div_trunc(dx * FP, len);
    let ny = div_trunc(dy * FP, len);
    Vec2Fx { x: nx, y: ny }
}

/// The spec-level heading components are unit-sized: never beyond one
/// whole fixed-point unit in magnitude.
pub proof fn lemma_dir_spec_bounds(from: Vec2Fx, to: Vec2Fx)
    requires
        from.wf(),
        to.wf(),
    ensures
        -FP <= dir_x_spec(from, to) <= FP,
        -FP <= dir_y_spec(from, to) <= FP,
{
    lemma_dist_sq_bounds(from, to);
    let d2 = dist_sq_spec(from, to);
    if d2 != 0 {
        let len = dist_len_spec(from, to);
        lemma_sqrt_floor_bounds(d2 as nat);
        assert(len * len <= d2 < (len + 1) * (len + 1));
        assert(len >= 1) by (nonlinear_arith)
            requires d2 >= 1, d2 < (len + 1) * (len + 1), len >= 0;
        let dx = to.x - from.x;
        let dy = to.y - from.y;
        assert(dx * dx + dy * dy == d2 && dx * dx >= 0 && dy * dy >= 0) by (nonlinear_arith)
            requires
                d2 == (from.x - to.x) * (from.x - to.x) + (from.y - to.y) * (from.y - to.y),
                dx == to.x - from.x,
                dy == to.y - from.y;
        assert(-len <= dx <= len && -len <= dy <= len) by (nonlinear_arith)
            requires
                dx * dx + dy * dy == d2,
                dx * dx >= 0,
                dy * dy >= 0,
                d2 < (len + 1) * (len + 1),
                len >= 1;
        assert(-(len * (FP as int)) <= dx * (FP as int) <= len * (FP as int)
            && -(len * (FP as int)) <= dy * (FP as int) <= len * (FP as int))
            by (nonlinear_arith)
            requires -len <= dx <= len, -len <= dy <= len, len >= 1, FP == 10_000;
        lemma_tdiv_abs_bound(dx * (FP as int), len, FP as int);
        lemma_tdiv_abs_bound(dy * (FP as int), len, FP as int);
    }
}

/// Clamp a point into the simulation's coordinate box.
pub open spec fn clamp_coords_spec(x: int, y: int) -> Vec2Fx {
    Vec2Fx {
        x: clamp_spec(x, -COORD_LIMIT as int, COORD_LIMIT as int) as i64,
        y: clamp_spec(y, -COORD_LIMIT as int, COORD_LIMIT as int) as i64,
    }
}

pub fn clamp_coords(x: i64, y: i64) -> (v: Vec2Fx)
    ensures
        v == clamp_coords_spec(x as int, y as int),
        v.wf(),
{
    Vec2Fx { x: clamp_i64(x, -COORD_LIMIT, COORD_LIMIT), y: clamp_i64(y, -COORD_LIMIT, COORD_LIMIT) }
}

/// Axis-aligned boxes centered at `a` (of size `aw x ah`) and `b` (of
/// size `bw x bh`) touch or overlap (edge contact counts). Written with
/// doubled differences so no half-size is rounded.
pub open spec fn boxes_touch_spec(a: Vec2Fx, aw: int, ah: int, b: Vec2Fx, bw: int, bh: int) -> bool {
    &&& 2 * (a.x - b.x) <= aw + bw
    &&& 2 * (b.x - a.x) <= aw + bw
    &&& 2 * (a.y - b.y) <= ah + bh
    &&& 2 * (b.y - a.y) <= ah + bh
}

pub fn boxes_touch(a: Vec2Fx, aw: i64, ah: i64, b: Vec2Fx, bw: i64, bh: i64) -> (r: bool)
    requires
        a.wf(),
        b.wf(),
        0 <= aw <= COORD_LIMIT && 0 <= ah <= COORD_LIMIT,
        0 <= bw <= COORD_LIMIT && 0 <= bh <= COORD_LIMIT,
    ensures
        r == boxes_touch_spec(a, aw as int, ah as int, b, bw as int, bh as int),
{
    2 * (a.x - b.x) <= aw + bw && 2 * (b.x - a.x) <= aw + bw && 2 * (a.y - b.y) <= ah + bh
        && 2 * (b.y - a.y) <= ah + bh
}

} // verus!

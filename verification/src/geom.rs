use vstd::prelude::*;

use crate::config::P_MAX;
use crate::config::V_MAX;

verus! {

/// A point or displacement of the plane, in fixed-point position units.
#[derive(Clone, Copy, PartialEq, Eq, Structural, Debug)]
pub struct Vec2i {
    pub x: i64,
    pub y: i64,
}

/// An axis-aligned box, closed on all four sides.
#[derive(Clone, Copy, PartialEq, Eq, Structural, Debug)]
pub struct Aabb {
    pub min_x: i64,
    pub min_y: i64,
    pub max_x: i64,
    pub max_y: i64,
}

/// Both coordinates lie within the global coordinate bound.
pub open spec fn coord_ok(v: Vec2i) -> bool {
    -P_MAX <= v.x <= P_MAX && -P_MAX <= v.y <= P_MAX
}

/// Both velocity components lie within the global velocity bound.
pub open spec fn vel_ok(v: Vec2i) -> bool {
    -V_MAX <= v.x <= V_MAX && -V_MAX <= v.y <= V_MAX
}

/// The two boxes share at least one point.
pub open spec fn overlaps(a: Aabb, b: Aabb) -> bool {
    a.min_x <= b.max_x && b.min_x <= a.max_x && a.min_y <= b.max_y && b.min_y <= a.max_y
}

/// Every point of `inner` lies in `outer`.
pub open spec fn box_contains(outer: Aabb, inner: Aabb) -> bool {
    outer.min_x <= inner.min_x && inner.max_x <= outer.max_x && outer.min_y <= inner.min_y
        && inner.max_y <= outer.max_y
}

/// The box of half width `half` centered on `c`.
pub open spec fn box_at_spec(c: Vec2i, half: i64) -> Aabb {
    Aabb {
        min_x: (c.x - half) as i64,
        min_y: (c.y - half) as i64,
        max_x: (c.x + half) as i64,
        max_y: (c.y + half) as i64,
    }
}

/// Squared Euclidean distance between two points, as a mathematical integer.
pub open spec fn dist2_spec(a: Vec2i, b: Vec2i) -> int {
    (a.x - b.x) * (a.x - b.x) + (a.y - b.y) * (a.y - b.y)
}

/// `v` pulled back into `[-P_MAX, P_MAX]`.
pub open spec fn clip_spec(v: int) -> i64 {
    if v < -P_MAX {
        (-P_MAX) as i64
    } else if v > P_MAX {
        P_MAX
    } else {
        v as i64
    }
}

pub fn box_at(c: Vec2i, half: i64) -> (r: Aabb)
    requires
        coord_ok(c),
        0 <= half <= P_MAX,
    ensures
        r == box_at_spec(c, half),
{
    Aabb { min_x: c.x - half, min_y: c.y - half, max_x: c.x + half, max_y: c.y + half }
}

pub fn boxes_overlap(a: &Aabb, b: &Aabb) -> (r: bool)
    ensures
        r == overlaps(*a, *b),
{
    a.min_x <= b.max_x && b.min_x <= a.max_x && a.min_y <= b.max_y && b.min_y <= a.max_y
}

/// The smallest box that contains both arguments.
pub fn box_union(a: &Aabb, b: &Aabb) -> (r: Aabb)
    ensures
        box_contains(r, *a),
        box_contains(r, *b),
        forall|o: Aabb| box_contains(o, *a) && box_contains(o, *b) ==> box_contains(o, r),
{
    Aabb {
        min_x: if a.min_x <= b.min_x {
            a.min_x
        } else {
            b.min_x
        },
        min_y: if a.min_y <= b.min_y {
            a.min_y
        } else {
            b.min_y
        },
        max_x: if a.max_x >= b.max_x {
            a.max_x
        } else {
            b.max_x
        },
        max_y: if a.max_y >= b.max_y {
            a.max_y
        } else {
            b.max_y
        },
    }
}

/// Squared distance, exact; the coordinate bound keeps the squares in range.
pub fn dist2(a: Vec2i, b: Vec2i) -> (r: i64)
    requires
        coord_ok(a),
        coord_ok(b),
    ensures
        r == dist2_spec(a, b),
        r >= 0,
{
    let dx = a.x - b.x;
    let dy = a.y - b.y;
    proof {
        assert(dx * dx <= 4_000_000_000_000_000_000 && dx * dx >= 0) by (nonlinear_arith)
            requires
                -2_000_000_000 <= dx <= 2_000_000_000,
        ;
        assert(dy * dy <= 4_000_000_000_000_000_000 && dy * dy >= 0) by (nonlinear_arith)
            requires
                -2_000_000_000 <= dy <= 2_000_000_000,
        ;
    }
    dx * dx + dy * dy
}

pub fn clip(v: i64) -> (r: i64)
    ensures
        r == clip_spec(v as int),
        -P_MAX <= r <= P_MAX,
{
    if v < -P_MAX {
        -P_MAX
    } else if v > P_MAX {
        P_MAX
    } else {
        v
    }
}

/// A box that contains another box meets every box the inner one meets.
pub proof fn lemma_contains_overlaps(outer: Aabb, inner: Aabb, q: Aabb)
    requires
        box_contains(outer, inner),
        overlaps(inner, q),
    ensures
        overlaps(outer, q),
{
}

} // verus!

//! Points and the exact integer geometry behind simplification.
//!
//! A contour point is a corner of a pixel cell, so its coordinates are
//! integers in `0 ..= MAX_DIM`. Perpendicular-distance comparisons are made
//! without division or rounding: the deviation of a point `p` from the chord
//! `a..b` is compared through the squared cross product
//! `cross2(a, b, p)^2`, scaled by the squared chord length where two
//! different chords are involved.

use vstd::prelude::*;

verus! {

/// Largest accepted image dimension, and so the largest coordinate a contour
/// point can take. The bound keeps every squared-cross-product comparison
/// inside exact `i128` arithmetic.
pub const MAX_DIM: usize = 0x4000;

/// The tolerance unit: tolerances are given in thousandths of a pixel.
pub const TOLERANCE_SCALE: i64 = 1000;

/// A point in 2D image space; a corner of a pixel cell.
#[derive(Clone, Copy, Debug, PartialEq, Eq, Structural)]
pub struct Point {
    pub x: i64,
    pub y: i64,
}

impl Point {
    /// Builds the point (x, y).
    pub fn new(x: i64, y: i64) -> (r: Point)
        ensures
            r.x == x,
            r.y == y,
    {
        Point { x, y }
    }
}

/// A point lies within the coordinate range that traced contours can produce.
pub open spec fn pt_wf(p: Point) -> bool {
    &&& 0 <= p.x <= MAX_DIM
    &&& 0 <= p.y <= MAX_DIM
}

/// Every point of the sequence lies within range.
pub open spec fn pts_wf(s: Seq<Point>) -> bool {
    forall|i: int| 0 <= i < s.len() ==> pt_wf(#[trigger] s[i])
}

/// Cross product of the vectors `b - a` and `p - a`: twice the signed area of
/// the triangle `a b p`. Its magnitude is the perpendicular distance of `p`
/// from the line through `a` and `b`, times the length of `b - a`.
pub open spec fn cross2(a: Point, b: Point, p: Point) -> int {
    (b.x - a.x) * (p.y - a.y) - (p.x - a.x) * (b.y - a.y)
}

/// Squared euclidean distance between `a` and `b`.
pub open spec fn dist2(a: Point, b: Point) -> int {
    (b.x - a.x) * (b.x - a.x) + (b.y - a.y) * (b.y - a.y)
}

/// The perpendicular deviation of `p` from the chord `a..b` is strictly below
/// `num / TOLERANCE_SCALE` pixels. Multiplying the defining inequality
/// `(|cross2| / dist) * TOLERANCE_SCALE < num` by `dist * TOLERANCE_SCALE`
/// (both sides squared) gives this division-free form.
pub open spec fn within_tol_strict(a: Point, b: Point, p: Point, num: int) -> bool {
    cross2(a, b, p) * cross2(a, b, p) * (TOLERANCE_SCALE * TOLERANCE_SCALE) < num * num * dist2(
        a,
        b,
    )
}

/// The deviation of `p` from the chord `a..b` is strictly smaller than the
/// deviation of `q` from the chord `c..d` (cross-multiplied squared form).
pub open spec fn dev_lt(a: Point, b: Point, p: Point, c: Point, d: Point, q: Point) -> bool {
    cross2(a, b, p) * cross2(a, b, p) * dist2(c, d) < cross2(c, d, q) * cross2(c, d, q) * dist2(
        a,
        b,
    )
}

/// Product of values bounded in magnitude is bounded by the product of the
/// bounds.
pub proof fn lemma_mul_bound(x: int, y: int, bx: int, by: int)
    by (nonlinear_arith)
    requires
        -bx <= x <= bx,
        -by <= y <= by,
        0 <= bx,
        0 <= by,
    ensures
        -(bx * by) <= x * y <= bx * by,
{
}

/// A square is never negative.
pub proof fn lemma_sq_nonneg(x: int)
    by (nonlinear_arith)
    ensures
        x * x >= 0,
{
}

/// Computes `cross2(a, b, p)`; the result fits `i64` for in-range points.
pub fn cross2_i64(a: Point, b: Point, p: Point) -> (r: i64)
    requires
        pt_wf(a),
        pt_wf(b),
        pt_wf(p),
    ensures
        r == cross2(a, b, p),
        -0x40000000000 <= r <= 0x40000000000,
{
    let ux = b.x - a.x;
    let uy = b.y - a.y;
    let vx = p.x - a.x;
    let vy = p.y - a.y;
    proof {
        lemma_mul_bound(ux as int, vy as int, 0x100000, 0x100000);
        lemma_mul_bound(vx as int, uy as int, 0x100000, 0x100000);
    }
    ux * vy - vx * uy
}

/// Computes `dist2(a, b)`; the result fits `i64` for in-range points.
pub fn dist2_i64(a: Point, b: Point) -> (r: i64)
    requires
        pt_wf(a),
        pt_wf(b),
    ensures
        r == dist2(a, b),
        0 <= r <= 0x20000000000,
{
    let dx = b.x - a.x;
    let dy = b.y - a.y;
    proof {
        lemma_mul_bound(dx as int, dx as int, 0x100000, 0x100000);
        lemma_mul_bound(dy as int, dy as int, 0x100000, 0x100000);
        lemma_sq_nonneg(dx as int);
        lemma_sq_nonneg(dy as int);
    }
    dx * dx + dy * dy
}

/// Decides `within_tol_strict(a, b, p, num)` in exact integer arithmetic.
pub fn within_tol(a: Point, b: Point, p: Point, num: i64) -> (r: bool)
    requires
        pt_wf(a),
        pt_wf(b),
        pt_wf(p),
        num >= 0,
    ensures
        r == within_tol_strict(a, b, p, num as int),
{
    let cr = cross2_i64(a, b, p);
    let len2 = dist2_i64(a, b);
    proof {
        lemma_mul_bound(cr as int, cr as int, 0x40000000000, 0x40000000000);
        lemma_sq_nonneg(cr as int);
    }
    let lhs: i128 = (cr as i128) * (cr as i128) * 1000000;
    if len2 == 0 {
        // The right side of the comparison is zero while the left side is not
        // negative, so the strict inequality cannot hold.
        proof {
            vstd::arithmetic::mul::lemma_mul_basics((num as int) * (num as int));
        }
        return false;
    }
    proof {
        lemma_mul_bound(num as int, num as int, 0x8000000000000000, 0x8000000000000000);
        lemma_sq_nonneg(num as int);
    }
    let num2: i128 = (num as i128) * (num as i128);
    let cap: i128 = 0x4000000000000000000000000000 / (len2 as i128);
    if num2 > cap {
        // The true product num^2 * len2 exceeds 2^110, which is larger than
        // the left side can ever be for in-range points.
        proof {
            let c: int = 0x4000000000000000000000000000;
            let l: int = len2 as int;
            vstd::arithmetic::div_mod::lemma_fundamental_div_mod(c, l);
            vstd::arithmetic::div_mod::lemma_mod_bound(c, l);
            vstd::arithmetic::mul::lemma_mul_inequality(c / l + 1, num2 as int, l);
            vstd::arithmetic::mul::lemma_mul_is_distributive_add(l, c / l, 1);
            vstd::arithmetic::mul::lemma_mul_basics(l);
            vstd::arithmetic::mul::lemma_mul_is_commutative(c / l + 1, l);
        }
        true
    } else {
        proof {
            let c: int = 0x4000000000000000000000000000;
            let l: int = len2 as int;
            vstd::arithmetic::div_mod::lemma_fundamental_div_mod(c, l);
            vstd::arithmetic::div_mod::lemma_mod_bound(c, l);
            vstd::arithmetic::mul::lemma_mul_inequality(num2 as int, c / l, l);
            vstd::arithmetic::mul::lemma_mul_is_commutative(c / l, l);
            vstd::arithmetic::mul::lemma_mul_nonnegative(num2 as int, l);
        }
        let rhs: i128 = num2 * (len2 as i128);
        lhs < rhs
    }
}

/// Decides `dev_lt` in exact integer arithmetic.
pub fn dev_lt_exec(a: Point, b: Point, p: Point, c: Point, d: Point, q: Point) -> (r: bool)
    requires
        pt_wf(a),
        pt_wf(b),
        pt_wf(p),
        pt_wf(c),
        pt_wf(d),
        pt_wf(q),
    ensures
        r == dev_lt(a, b, p, c, d, q),
{
    let cr1 = cross2_i64(a, b, p);
    let cr2 = cross2_i64(c, d, q);
    let l1 = dist2_i64(a, b);
    let l2 = dist2_i64(c, d);
    proof {
        lemma_mul_bound(cr1 as int, cr1 as int, 0x40000000000, 0x40000000000);
        lemma_mul_bound(cr2 as int, cr2 as int, 0x40000000000, 0x40000000000);
        lemma_mul_bound(
            (cr1 * cr1) as int,
            l2 as int,
            0x1000000000000000000000,
            0x20000000000,
        );
        lemma_mul_bound(
            (cr2 * cr2) as int,
            l1 as int,
            0x1000000000000000000000,
            0x20000000000,
        );
    }
    let lhs: i128 = (cr1 as i128) * (cr1 as i128) * (l2 as i128);
    let rhs: i128 = (cr2 as i128) * (cr2 as i128) * (l1 as i128);
    lhs < rhs
}

} // verus!

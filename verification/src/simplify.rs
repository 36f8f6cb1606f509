//! Polyline simplification: Douglas–Peucker reduction within a tolerance,
//! then decimation down to the vertex budget.
//!
//! The closed contour is split at two anchors (its first point and the point
//! half way along it) into two open chains. Each chain is reduced: the
//! interior point of maximum deviation from the chord between the chain's
//! endpoints (ties broken towards the lowest index) is kept and the chain is
//! split there, unless even that point deviates strictly less than the
//! tolerance, in which case the whole chain collapses to its endpoints. If
//! the reassembled ring still exceeds the vertex budget, vertices of least
//! deviation from their cyclic neighbours are removed one at a time (ties
//! towards the lowest index), never going below 3 vertices.

use vstd::prelude::*;

use crate::PolygonizerError;
use crate::geom::Point;
use crate::geom::cross2;
use crate::geom::cross2_i64;
use crate::geom::dev_lt;
use crate::geom::dev_lt_exec;
use crate::geom::pts_wf;
use crate::geom::within_tol;
use crate::geom::within_tol_strict;

verus! {

/// Squared deviation (squared cross product) of interior point `i` from the
/// chord between the chain's endpoints.
pub open spec fn cr2(chain: Seq<Point>, i: int) -> int {
    let c = cross2(chain[0], chain[chain.len() - 1], chain[i]);
    c * c
}

/// The interior index in `1 .. n` of maximum squared deviation from the
/// chord, lowest index first on ties.
pub open spec fn max_in(chain: Seq<Point>, n: int) -> int
    decreases n,
{
    if n <= 2 {
        1
    } else if cr2(chain, n - 1) > cr2(chain, max_in(chain, n - 1)) {
        n - 1
    } else {
        max_in(chain, n - 1)
    }
}

/// Douglas–Peucker over one open chain: collapse the chain to its endpoints
/// when every interior point deviates strictly less than the tolerance, else
/// keep the point of maximum deviation and recurse on the two halves.
pub open spec fn dp(chain: Seq<Point>, num: int) -> Seq<Point>
    decreases chain.len(),
{
    let n = chain.len() as int;
    if n <= 2 {
        chain
    } else {
        let m0 = max_in(chain, n - 1);
        let m = if m0 < 1 {
            1
        } else if m0 > n - 2 {
            n - 2
        } else {
            m0
        };
        if within_tol_strict(chain[0], chain[n - 1], chain[m], num) {
            seq![chain[0], chain[n - 1]]
        } else {
            dp(chain.subrange(0, m + 1), num) + dp(chain.subrange(m, n), num).skip(1)
        }
    }
}

/// Cyclic predecessor of index `i` in a ring of length `len`.
pub open spec fn prev_ix(len: int, i: int) -> int {
    if i == 0 {
        len - 1
    } else {
        i - 1
    }
}

/// Cyclic successor of index `i` in a ring of length `len`.
pub open spec fn next_ix(len: int, i: int) -> int {
    if i == len - 1 {
        0
    } else {
        i + 1
    }
}

/// Vertex `i` of the ring deviates strictly less from the chord between its
/// cyclic neighbours than vertex `j` does from its own.
pub open spec fn vdev_lt(poly: Seq<Point>, i: int, j: int) -> bool {
    let n = poly.len() as int;
    dev_lt(
        poly[prev_ix(n, i)],
        poly[next_ix(n, i)],
        poly[i],
        poly[prev_ix(n, j)],
        poly[next_ix(n, j)],
        poly[j],
    )
}

/// The index in `0 .. n` of least deviation from its cyclic neighbours,
/// lowest index first on ties.
pub open spec fn min_in(poly: Seq<Point>, n: int) -> int
    decreases n,
{
    if n <= 1 {
        0
    } else if vdev_lt(poly, n - 1, min_in(poly, n - 1)) {
        n - 1
    } else {
        min_in(poly, n - 1)
    }
}

/// Removes vertices of least deviation, one at a time, until the ring is
/// within the target count; never below 3 vertices.
pub open spec fn decimate(poly: Seq<Point>, target: int) -> Seq<Point>
    decreases poly.len(),
{
    let n = poly.len() as int;
    if n <= target || n <= 3 {
        poly
    } else {
        let k0 = min_in(poly, n);
        let k = if k0 < 0 {
            0
        } else if k0 > n - 1 {
            n - 1
        } else {
            k0
        };
        decimate(poly.remove(k), target)
    }
}

/// The simplification of one closed contour: split at the first point and
/// the half-way point, reduce both chains by tolerance, reassemble, and
/// decimate to the vertex budget (at least 3).
pub open spec fn spec_simplify(contour: Seq<Point>, num: int, maxv: int) -> Seq<Point> {
    let n = contour.len() as int;
    let b = n / 2;
    let s1 = dp(contour.subrange(0, b + 1), num);
    let s2 = dp(contour.subrange(b, n).push(contour[0]), num);
    let ring = s1 + s2.subrange(1, s2.len() - 1);
    let base = if ring.len() < 3 {
        decimate(contour, 3)
    } else {
        ring
    };
    decimate(base, if maxv < 3 { 3 } else { maxv })
}

/// Copies `v[a .. b]` into a fresh vector.
fn subvec(v: &Vec<Point>, a: usize, b: usize) -> (r: Vec<Point>)
    requires
        a <= b <= v@.len(),
    ensures
        r@ == v@.subrange(a as int, b as int),
{
    let mut r: Vec<Point> = Vec::new();
    let mut i: usize = a;
    while i < b
        invariant
            a <= i <= b <= v@.len(),
            r@ == v@.subrange(a as int, i as int),
        decreases b - i,
    {
        r.push(v[i]);
        proof {
            assert(r@ =~= v@.subrange(a as int, i + 1 as int));
        }
        i = i + 1;
    }
    r
}

/// Douglas–Peucker over one open chain; mirrors [`dp`].
fn dp_exec(chain: &Vec<Point>, num: i64) -> (r: Vec<Point>)
    requires
        pts_wf(chain@),
        num >= 0,
    ensures
        r@ == dp(chain@, num as int),
        pts_wf(r@),
        r@.len() <= chain@.len() || chain@.len() <= 2,
        chain@.len() >= 2 ==> 2 <= r@.len() <= chain@.len(),
    decreases chain@.len(),
{
    let n = chain.len();
    if n <= 2 {
        let r = subvec(chain, 0, n);
        proof {
            assert(r@ =~= chain@);
        }
        return r;
    }
    let first = chain[0];
    let last = chain[n - 1];
    let mut m: usize = 1;
    let mut i: usize = 2;
    while i < n - 1
        invariant
            pts_wf(chain@),
            n == chain@.len(),
            3 <= n,
            first == chain@[0],
            last == chain@[n - 1],
            1 <= m < i <= n - 1,
            m == max_in(chain@, i as int),
        decreases n - 1 - i,
    {
        let ci = cross2_i64(first, last, chain[i]);
        let cm = cross2_i64(first, last, chain[m]);
        proof {
            crate::geom::lemma_mul_bound(ci as int, ci as int, 0x40000000000, 0x40000000000);
            crate::geom::lemma_mul_bound(cm as int, cm as int, 0x40000000000, 0x40000000000);
        }
        if (ci as i128) * (ci as i128) > (cm as i128) * (cm as i128) {
            m = i;
        }
        i = i + 1;
    }
    if m > n - 2 {
        m = n - 2;
    }
    if within_tol(first, last, chain[m], num) {
        let mut r: Vec<Point> = Vec::new();
        r.push(first);
        r.push(last);
        proof {
            assert(r@ =~= seq![chain@[0], chain@[n - 1]]);
        }
        r
    } else {
        let left = subvec(chain, 0, m + 1);
        let right = subvec(chain, m, n);
        proof {
            assert(pts_wf(left@));
            assert(pts_wf(right@));
        }
        let mut s1 = dp_exec(&left, num);
        let s2 = dp_exec(&right, num);
        let ghost s1_done = s1@;
        let mut k: usize = 1;
        while k < s2.len()
            invariant
                1 <= k <= s2@.len(),
                pts_wf(s1@),
                pts_wf(s2@),
                s1@ == s1_done + s2@.subrange(1, k as int),
            decreases s2@.len() - k,
        {
            s1.push(s2[k]);
            proof {
                assert(s1@ =~= s1_done + s2@.subrange(1, k + 1 as int));
            }
            k = k + 1;
        }
        proof {
            assert(s2@.subrange(1, s2@.len() as int) =~= s2@.skip(1));
            assert(s1@ =~= dp(chain@, num as int));
        }
        s1
    }
}

/// One decimation pass; mirrors [`decimate`].
fn decimate_exec(poly: &Vec<Point>, target: usize) -> (r: Vec<Point>)
    requires
        pts_wf(poly@),
    ensures
        r@ == decimate(poly@, target as int),
        pts_wf(r@),
        r@.len() <= poly@.len(),
        poly@.len() >= 3 ==> r@.len() >= 3,
        r@.len() <= poly@.len() && (r@.len() <= target || r@.len() <= 3),
    decreases poly@.len(),
{
    let n = poly.len();
    if n <= target || n <= 3 {
        let r = subvec(poly, 0, n);
        proof {
            assert(r@ =~= poly@);
        }
        return r;
    }
    let mut mi: usize = 0;
    let mut i: usize = 1;
    while i < n
        invariant
            pts_wf(poly@),
            n == poly@.len(),
            4 <= n,
            mi < i <= n,
            mi == min_in(poly@, i as int),
        decreases n - i,
    {
        let pi = poly[i - 1];
        let ni = poly[if i == n - 1 {
            0
        } else {
            i + 1
        }];
        let pm = poly[if mi == 0 {
            n - 1
        } else {
            mi - 1
        }];
        let nm = poly[if mi == n - 1 {
            0
        } else {
            mi + 1
        }];
        if dev_lt_exec(pi, ni, poly[i], pm, nm, poly[mi]) {
            mi = i;
        }
        i = i + 1;
    }
    let mut p2 = subvec(poly, 0, n);
    p2.remove(mi);
    proof {
        assert(p2@ =~= poly@.remove(mi as int));
        assert(pts_wf(p2@));
    }
    decimate_exec(&p2, target)
}

/// Reduces one closed contour to at most `max_vertices` points (at least 3),
/// every collapsed chain deviating strictly less than `tolerance` thousandths
/// of a pixel. A contour of fewer than 3 points cannot be a polygon and is
/// rejected.
pub fn simplify_contour(contour: &Vec<Point>, tolerance: i64, max_vertices: usize) -> (r: Result<
    Vec<Point>,
    PolygonizerError,
>)
    requires
        pts_wf(contour@),
        tolerance >= 0,
    ensures
        match r {
            Ok(p) => {
                &&& contour@.len() >= 3
                &&& p@ == spec_simplify(contour@, tolerance as int, max_vertices as int)
                &&& pts_wf(p@)
                &&& 3 <= p@.len() <= contour@.len()
                &&& max_vertices >= 3 ==> p@.len() <= max_vertices
            },
            Err(e) => {
                &&& contour@.len() < 3
                &&& e == PolygonizerError::DegenerateResult
            },
        },
{
    let n = contour.len();
    if n < 3 {
        return Err(PolygonizerError::DegenerateResult);
    }
    let b = n / 2;
    let chain1 = subvec(contour, 0, b + 1);
    let mut chain2 = subvec(contour, b, n);
    chain2.push(contour[0]);
    proof {
        assert(pts_wf(chain1@));
        assert(pts_wf(chain2@));
        assert(chain2@ == contour@.subrange(b as int, n as int).push(contour@[0]));
    }
    let mut ring = dp_exec(&chain1, tolerance);
    let s2 = dp_exec(&chain2, tolerance);
    let ghost s1_done = ring@;
    let mut k: usize = 1;
    while k < s2.len() - 1
        invariant
            1 <= k <= s2@.len() - 1,
            2 <= s2@.len(),
            pts_wf(ring@),
            pts_wf(s2@),
            ring@ == s1_done + s2@.subrange(1, k as int),
        decreases s2@.len() - 1 - k,
    {
        ring.push(s2[k]);
        proof {
            assert(ring@ =~= s1_done + s2@.subrange(1, k + 1 as int));
        }
        k = k + 1;
    }
    proof {
        assert(ring@ =~= s1_done + s2@.subrange(1, s2@.len() - 1));
    }
    let base = if ring.len() < 3 {
        decimate_exec(contour, 3)
    } else {
        ring
    };
    let t: usize = if max_vertices < 3 {
        3
    } else {
        max_vertices
    };
    let out = decimate_exec(&base, t);
    Ok(out)
}

} // verus!

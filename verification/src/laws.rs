//! The library's laws: properties that hold of the pipeline as a whole,
//! stated over the same spec functions that the executable functions are
//! proved against.

use vstd::prelude::*;

use crate::PolygonizerError;
use crate::geom::Point;
use crate::geom::cross2;
use crate::geom::dist2;
use crate::geom::lemma_sq_nonneg;
use crate::mask::ALPHA_CUTOFF;
use crate::mask::fg;
use crate::mask::mask_cells;
use crate::poly::spec_process;
use crate::simplify::dp;
use crate::simplify::spec_simplify;
use crate::trace::lemma_cell_index;
use crate::trace::side_edge;
use crate::trace::trace_rec;

verus! {

/// The pipeline is a pure function of its configuration and input: two
/// `process` results obtained from the same configuration and the same image
/// are identical.
pub proof fn lemma_process_deterministic(
    maxv: int,
    num: int,
    w: int,
    h: int,
    data: Seq<u8>,
    r1: Result<Seq<i64>, PolygonizerError>,
    r2: Result<Seq<i64>, PolygonizerError>,
)
    requires
        r1 == spec_process(maxv, num, w, h, data),
        r2 == spec_process(maxv, num, w, h, data),
    ensures
        r1 == r2,
{
}

/// On a grid with no foreground cell the raster scan finds no boundary edge,
/// so it adds nothing to its accumulator.
proof fn lemma_trace_rec_transparent(
    w: int,
    h: int,
    cells: Seq<bool>,
    rem: nat,
    used: Seq<bool>,
    acc: Seq<Seq<Point>>,
)
    requires
        forall|x: int, y: int| !fg(w, h, cells, x, y),
    ensures
        trace_rec(w, h, cells, rem, used, acc) == Some(acc),
    decreases rem,
{
    if rem != 0 {
        lemma_trace_rec_transparent(w, h, cells, (rem - 1) as nat, used, acc);
    }
}

/// A fully transparent image produces zero polygons: every pixel's alpha at
/// or below the cutoff makes `process` return the empty encoding.
pub proof fn lemma_process_transparent(maxv: int, num: int, w: int, h: int, data: Seq<u8>)
    requires
        data.len() == w * h * 4,
        forall|i: int| 0 <= i < w * h ==> #[trigger] data[4 * i + 3] <= ALPHA_CUTOFF,
    ensures
        spec_process(maxv, num, w, h, data) == Ok::<Seq<i64>, PolygonizerError>(Seq::empty()),
{
    let cells = mask_cells(w, h, data);
    assert forall|x: int, y: int| !fg(w, h, cells, x, y) by {
        if 0 <= x < w && 0 <= y < h {
            lemma_cell_index(x, y, w, h);
            assert(data[4 * (y * w + x) + 3] <= ALPHA_CUTOFF);
        }
    }
    lemma_trace_rec_transparent(
        w,
        h,
        cells,
        (4 * (w * h)) as nat,
        Seq::new((4 * (w * h)) as nat, |i: int| false),
        Seq::empty(),
    );
}

/// With zero tolerance, Douglas-Peucker never collapses a chain: the
/// deviation comparison is strict and nothing deviates strictly less than
/// zero.
proof fn lemma_dp_zero(chain: Seq<Point>)
    ensures
        dp(chain, 0) == chain,
    decreases chain.len(),
{
    let n = chain.len() as int;
    if n > 2 {
        let m0 = crate::simplify::max_in(chain, n - 1);
        let m = if m0 < 1 {
            1
        } else if m0 > n - 2 {
            n - 2
        } else {
            m0
        };
        lemma_sq_nonneg(cross2(chain[0], chain[n - 1], chain[m]));
        vstd::arithmetic::mul::lemma_mul_basics(dist2(chain[0], chain[n - 1]));
        lemma_dp_zero(chain.subrange(0, m + 1));
        lemma_dp_zero(chain.subrange(m, n));
        assert(chain.subrange(0, m + 1) + chain.subrange(m, n).skip(1) =~= chain);
    }
}

/// Round-trip sanity: with tolerance zero and a vertex budget at least the
/// contour's size, simplification returns the contour unchanged.
pub proof fn lemma_simplify_zero(contour: Seq<Point>, maxv: int)
    requires
        contour.len() >= 3,
        maxv >= contour.len(),
    ensures
        spec_simplify(contour, 0, maxv) == contour,
{
    let n = contour.len() as int;
    let b = n / 2;
    let chain1 = contour.subrange(0, b + 1);
    let chain2 = contour.subrange(b, n).push(contour[0]);
    lemma_dp_zero(chain1);
    lemma_dp_zero(chain2);
    assert(chain1 + chain2.subrange(1, chain2.len() - 1) =~= contour);
}

/// Douglas-Peucker keeps at least the two endpoints and never invents
/// points.
proof fn lemma_dp_len(chain: Seq<Point>, num: int)
    ensures
        chain.len() >= 2 ==> 2 <= dp(chain, num).len() <= chain.len(),
    decreases chain.len(),
{
    let n = chain.len() as int;
    if n > 2 {
        let m0 = crate::simplify::max_in(chain, n - 1);
        let m = if m0 < 1 {
            1
        } else if m0 > n - 2 {
            n - 2
        } else {
            m0
        };
        lemma_dp_len(chain.subrange(0, m + 1), num);
        lemma_dp_len(chain.subrange(m, n), num);
    }
}

/// `max_in` points at an interior index whose squared deviation dominates
/// every interior index below `n`.
proof fn lemma_max_in_max(chain: Seq<Point>, n: int, i: int)
    requires
        2 <= n,
        1 <= i <= n - 1,
    ensures
        1 <= crate::simplify::max_in(chain, n) <= n - 1,
        crate::simplify::cr2(chain, i) <= crate::simplify::cr2(
            chain,
            crate::simplify::max_in(chain, n),
        ),
    decreases n,
{
    if n > 2 {
        let ip = if i <= n - 2 {
            i
        } else {
            1
        };
        lemma_max_in_max(chain, n - 1, ip);
        if i <= n - 2 {
            lemma_max_in_max(chain, n - 1, i);
        }
    }
}

/// Simplification never hides a deviation beyond the tolerance: whenever
/// Douglas-Peucker collapses a whole chain to its two endpoints, every
/// interior point of that chain deviates strictly less than the tolerance
/// from the chord between the endpoints.
pub proof fn lemma_dp_collapse_within(chain: Seq<Point>, num: int, i: int)
    requires
        chain.len() >= 3,
        dp(chain, num).len() == 2,
        1 <= i < chain.len() - 1,
    ensures
        crate::geom::within_tol_strict(chain[0], chain[chain.len() - 1], chain[i], num),
{
    let n = chain.len() as int;
    let m0 = crate::simplify::max_in(chain, n - 1);
    let m = if m0 < 1 {
        1
    } else if m0 > n - 2 {
        n - 2
    } else {
        m0
    };
    lemma_dp_len(chain.subrange(0, m + 1), num);
    lemma_dp_len(chain.subrange(m, n), num);
    lemma_max_in_max(chain, n - 1, i);
    assert(crate::geom::within_tol_strict(chain[0], chain[n - 1], chain[m], num));
}

} // verus!

//! Contour tracing over the occupancy grid.
//!
//! Contours follow the edges of pixel cells, between a foreground pixel and a
//! background pixel (or the outside of the grid). Every boundary edge is a
//! directed unit segment between two lattice corners, oriented so that its
//! foreground pixel lies on the right of the direction of travel. Outer
//! boundaries therefore run clockwise in image coordinates (y growing
//! downward, positive shoelace sum) and holes counterclockwise.
//!
//! Each boundary edge is a side of exactly one foreground pixel, which gives
//! it a unique index (4 per pixel: top, right, bottom, left). The tracer
//! scans these indices in raster order; an unused boundary edge seeds a walk
//! that follows successor edges — preferring the right turn, then straight
//! on, then the left turn, which keeps diagonally touching foreground regions
//! separate — until it returns to the seed edge and the contour closes. Every
//! traversed edge is marked used, so each closed loop is emitted exactly
//! once, in the deterministic raster order of its first edge.
//!
//! A loop always closes within the number of boundary edges; a walk that
//! exhausts that budget, or finds no successor, signals a bug through
//! `InternalError` rather than looping forever.

use vstd::prelude::*;

use crate::PolygonizerError;
use crate::geom::Point;
use crate::geom::pts_wf;
use crate::mask::Grid;
use crate::mask::fg;

verus! {

/// A directed unit boundary edge: it starts at the lattice corner (x, y) and
/// travels in direction `d` (0 east, 1 south, 2 west, 3 north), with its
/// foreground pixel on the right.
#[derive(Clone, Copy, Debug, PartialEq, Eq, Structural)]
pub struct Edge {
    pub x: i64,
    pub y: i64,
    pub d: u8,
}

/// x-component of a direction of travel.
pub open spec fn dir_dx(d: u8) -> int {
    if d == 0 {
        1
    } else if d == 2 {
        -1
    } else {
        0
    }
}

/// y-component of a direction of travel.
pub open spec fn dir_dy(d: u8) -> int {
    if d == 1 {
        1
    } else if d == 3 {
        -1
    } else {
        0
    }
}

/// The edge is a boundary edge of the grid: the pixel on its right is
/// foreground and the pixel on its left is background.
pub open spec fn edge_exists(w: int, h: int, cells: Seq<bool>, e: Edge) -> bool {
    let x = e.x as int;
    let y = e.y as int;
    if e.d == 0 {
        fg(w, h, cells, x, y) && !fg(w, h, cells, x, y - 1)
    } else if e.d == 1 {
        fg(w, h, cells, x - 1, y) && !fg(w, h, cells, x, y)
    } else if e.d == 2 {
        fg(w, h, cells, x - 1, y - 1) && !fg(w, h, cells, x - 1, y)
    } else if e.d == 3 {
        fg(w, h, cells, x, y - 1) && !fg(w, h, cells, x - 1, y - 1)
    } else {
        false
    }
}

/// The index of the one (foreground pixel, side) pair that owns this edge,
/// in a row-major array of four sides per pixel.
pub open spec fn edge_sidx(w: int, e: Edge) -> int {
    let x = e.x as int;
    let y = e.y as int;
    if e.d == 0 {
        4 * (y * w + x)
    } else if e.d == 1 {
        4 * (y * w + (x - 1)) + 1
    } else if e.d == 2 {
        4 * ((y - 1) * w + (x - 1)) + 2
    } else {
        4 * ((y - 1) * w + x) + 3
    }
}

/// The edge seeded by side index `i`: pixel `i / 4` (row-major), side `i % 4`
/// (0 top, 1 right, 2 bottom, 3 left).
pub open spec fn side_edge(w: int, i: int) -> Edge {
    let px = (i / 4) % w;
    let py = (i / 4) / w;
    let s = i % 4;
    if s == 0 {
        Edge { x: px as i64, y: py as i64, d: 0 }
    } else if s == 1 {
        Edge { x: (px + 1) as i64, y: py as i64, d: 1 }
    } else if s == 2 {
        Edge { x: (px + 1) as i64, y: (py + 1) as i64, d: 2 }
    } else {
        Edge { x: px as i64, y: (py + 1) as i64, d: 3 }
    }
}

/// Right turn relative to a direction of travel.
pub open spec fn rot_right(d: u8) -> u8 {
    (((d + 1) as int) % 4) as u8
}

/// Left turn relative to a direction of travel.
pub open spec fn rot_left(d: u8) -> u8 {
    (((d + 3) as int) % 4) as u8
}

/// The successor of a boundary edge: of the boundary edges leaving its
/// endpoint, the first of right turn, straight on, left turn. (A U-turn is
/// impossible: both sides of the segment would have to be foreground and
/// background at once.)
pub open spec fn succ(w: int, h: int, cells: Seq<bool>, e: Edge) -> Option<Edge> {
    let qx = (e.x + dir_dx(e.d)) as i64;
    let qy = (e.y + dir_dy(e.d)) as i64;
    let c1 = Edge { x: qx, y: qy, d: rot_right(e.d) };
    let c2 = Edge { x: qx, y: qy, d: e.d };
    let c3 = Edge { x: qx, y: qy, d: rot_left(e.d) };
    if edge_exists(w, h, cells, c1) {
        Some(c1)
    } else if edge_exists(w, h, cells, c2) {
        Some(c2)
    } else if edge_exists(w, h, cells, c3) {
        Some(c3)
    } else {
        None
    }
}

/// One boundary walk: starting from `cur`, marks each traversed edge used and
/// records its start corner, until the successor is the seed `start` (the
/// contour is closed) or the fuel runs out (no result). Returns the recorded
/// points and the updated used-marks.
pub open spec fn walk(
    w: int,
    h: int,
    cells: Seq<bool>,
    start: Edge,
    cur: Edge,
    fuel: nat,
    acc: Seq<Point>,
    used: Seq<bool>,
) -> (Option<Seq<Point>>, Seq<bool>)
    decreases fuel,
{
    let used1 = used.update(edge_sidx(w, cur), true);
    let acc1 = acc.push(Point { x: cur.x, y: cur.y });
    match succ(w, h, cells, cur) {
        None => (None, used1),
        Some(n) => if n == start {
            (Some(acc1), used1)
        } else if fuel == 0 {
            (None, used1)
        } else {
            walk(w, h, cells, start, n, (fuel - 1) as nat, acc1, used1)
        },
    }
}

/// The raster scan over side indices, `rem` indices still to visit: an unused
/// boundary edge seeds a walk whose contour is appended. `None` when some
/// walk failed to close.
pub open spec fn trace_rec(
    w: int,
    h: int,
    cells: Seq<bool>,
    rem: nat,
    used: Seq<bool>,
    acc: Seq<Seq<Point>>,
) -> Option<Seq<Seq<Point>>>
    decreases rem,
{
    if rem == 0 {
        Some(acc)
    } else {
        let i = 4 * (w * h) - rem;
        let e = side_edge(w, i);
        if !used[i] && edge_exists(w, h, cells, e) {
            let ru = walk(w, h, cells, e, e, (4 * (w * h)) as nat, Seq::empty(), used);
            match ru.0 {
                None => None,
                Some(c) => trace_rec(w, h, cells, (rem - 1) as nat, ru.1, acc.push(c)),
            }
        } else {
            trace_rec(w, h, cells, (rem - 1) as nat, used, acc)
        }
    }
}

/// The full trace of a grid: every side index visited, nothing used, nothing
/// accumulated.
pub open spec fn spec_trace(w: int, h: int, cells: Seq<bool>) -> Option<Seq<Seq<Point>>> {
    trace_rec(w, h, cells, (4 * (w * h)) as nat, Seq::new((4 * (w * h)) as nat, |i: int| false), Seq::empty())
}

/// The views of a sequence of point vectors.
pub open spec fn vecs_view(s: Seq<Vec<Point>>) -> Seq<Seq<Point>> {
    Seq::new(s.len(), |i: int| s[i]@)
}

/// A row-major cell index stays below the cell count.
pub proof fn lemma_cell_index(px: int, py: int, w: int, h: int)
    by (nonlinear_arith)
    requires
        0 <= px < w,
        0 <= py < h,
    ensures
        0 <= py * w + px < w * h,
{
}

/// Reads one cell, background outside the grid.
fn fg_at(g: &Grid, x: i64, y: i64) -> (r: bool)
    requires
        g.wf(),
    ensures
        r == fg(g.width as int, g.height as int, g.cells@, x as int, y as int),
{
    if x < 0 || y < 0 || x >= g.width as i64 || y >= g.height as i64 {
        false
    } else {
        proof {
            lemma_cell_index(x as int, y as int, g.width as int, g.height as int);
            crate::geom::lemma_mul_bound(y as int, g.width as int, 0x4000, 0x4000);
        }
        let idx: usize = (y as usize) * g.width + (x as usize);
        g.cells[idx]
    }
}

/// Decides `edge_exists` for the edge (x, y, d).
fn edge_at(g: &Grid, x: i64, y: i64, d: u8) -> (r: bool)
    requires
        g.wf(),
        -2 <= x <= 0x7ffffffffffffffd,
        -2 <= y <= 0x7ffffffffffffffd,
    ensures
        r == edge_exists(g.width as int, g.height as int, g.cells@, Edge { x, y, d }),
{
    if d == 0 {
        fg_at(g, x, y) && !fg_at(g, x, y - 1)
    } else if d == 1 {
        fg_at(g, x - 1, y) && !fg_at(g, x, y)
    } else if d == 2 {
        fg_at(g, x - 1, y - 1) && !fg_at(g, x - 1, y)
    } else if d == 3 {
        fg_at(g, x, y - 1) && !fg_at(g, x - 1, y - 1)
    } else {
        false
    }
}

/// A boundary edge starts at a corner of its foreground pixel, so within the
/// corner lattice.
proof fn lemma_edge_bounds(w: int, h: int, cells: Seq<bool>, e: Edge)
    requires
        edge_exists(w, h, cells, e),
    ensures
        0 <= e.x <= w,
        0 <= e.y <= h,
        e.d <= 3,
{
}

/// Computes `edge_sidx`, in range for a boundary edge.
fn sidx_of(g: &Grid, e: Edge) -> (r: usize)
    requires
        g.wf(),
        edge_exists(g.width as int, g.height as int, g.cells@, e),
    ensures
        r == edge_sidx(g.width as int, e),
        r < 4 * (g.width * g.height),
{
    proof {
        lemma_edge_bounds(g.width as int, g.height as int, g.cells@, e);
    }
    let w = g.width;
    if e.d == 0 {
        proof {
            lemma_cell_index(e.x as int, e.y as int, w as int, g.height as int);
            crate::geom::lemma_mul_bound(e.y as int, w as int, 0x4000, 0x4000);
        }
        4 * ((e.y as usize) * w + (e.x as usize))
    } else if e.d == 1 {
        proof {
            lemma_cell_index(e.x - 1 as int, e.y as int, w as int, g.height as int);
            crate::geom::lemma_mul_bound(e.y as int, w as int, 0x4000, 0x4000);
        }
        4 * ((e.y as usize) * w + (e.x - 1) as usize) + 1
    } else if e.d == 2 {
        proof {
            lemma_cell_index(e.x - 1 as int, e.y - 1 as int, w as int, g.height as int);
            crate::geom::lemma_mul_bound(e.y - 1 as int, w as int, 0x4000, 0x4000);
        }
        4 * (((e.y - 1) as usize) * w + (e.x - 1) as usize) + 2
    } else {
        proof {
            lemma_cell_index(e.x as int, e.y - 1 as int, w as int, g.height as int);
            crate::geom::lemma_mul_bound(e.y - 1 as int, w as int, 0x4000, 0x4000);
        }
        4 * (((e.y - 1) as usize) * w + (e.x as usize)) + 3
    }
}

/// One boundary walk; mirrors [`walk`]. Returns false when the walk failed
/// to close (no successor, or fuel exhausted).
fn walk_exec(
    g: &Grid,
    start: Edge,
    cur: Edge,
    fuel: usize,
    acc: &mut Vec<Point>,
    used: &mut Vec<bool>,
) -> (ok: bool)
    requires
        g.wf(),
        edge_exists(g.width as int, g.height as int, g.cells@, cur),
        old(used)@.len() == 4 * (g.width * g.height),
        pts_wf(old(acc)@),
    ensures
        final(used)@.len() == old(used)@.len(),
        pts_wf(final(acc)@),
        ({
            let wr = walk(
                g.width as int,
                g.height as int,
                g.cells@,
                start,
                cur,
                fuel as nat,
                old(acc)@,
                old(used)@,
            );
            final(used)@ == wr.1 && (if ok {
                wr.0 == Some(final(acc)@)
            } else {
                wr.0 is None
            })
        }),
    decreases fuel,
{
    proof {
        lemma_edge_bounds(g.width as int, g.height as int, g.cells@, cur);
    }
    let sidx = sidx_of(g, cur);
    used.set(sidx, true);
    acc.push(Point { x: cur.x, y: cur.y });
    let qx: i64 = if cur.d == 0 {
        cur.x + 1
    } else if cur.d == 2 {
        cur.x - 1
    } else {
        cur.x
    };
    let qy: i64 = if cur.d == 1 {
        cur.y + 1
    } else if cur.d == 3 {
        cur.y - 1
    } else {
        cur.y
    };
    let d1: u8 = (cur.d + 1) % 4;
    let d3: u8 = (cur.d + 3) % 4;
    let next: Edge;
    if edge_at(g, qx, qy, d1) {
        next = Edge { x: qx, y: qy, d: d1 };
    } else if edge_at(g, qx, qy, cur.d) {
        next = Edge { x: qx, y: qy, d: cur.d };
    } else if edge_at(g, qx, qy, d3) {
        next = Edge { x: qx, y: qy, d: d3 };
    } else {
        return false;
    }
    if next == start {
        return true;
    }
    if fuel == 0 {
        return false;
    }
    walk_exec(g, start, next, fuel - 1, acc, used)
}

/// Traces all boundary contours of the grid, outer boundaries clockwise in
/// image coordinates and holes counterclockwise, in the raster order of each
/// contour's first boundary edge. Fails only with `InternalError`, when a
/// boundary walk does not close within its step budget.
pub fn trace_contours(g: &Grid) -> (r: Result<Vec<Vec<Point>>, PolygonizerError>)
    requires
        g.wf(),
    ensures
        match r {
            Ok(cs) => {
                &&& spec_trace(g.width as int, g.height as int, g.cells@) == Some(vecs_view(cs@))
                &&& forall|k: int| 0 <= k < cs@.len() ==> pts_wf(#[trigger] cs@[k]@)
            },
            Err(e) => {
                &&& spec_trace(g.width as int, g.height as int, g.cells@) is None
                &&& e == PolygonizerError::InternalError
            },
        },
{
    let w = g.width;
    let h = g.height;
    proof {
        crate::geom::lemma_mul_bound(w as int, h as int, 0x4000, 0x4000);
    }
    let total: usize = 4 * (w * h);
    let mut used: Vec<bool> = Vec::new();
    let mut j: usize = 0;
    while j < total
        invariant
            used@.len() == j <= total,
            forall|k: int| 0 <= k < j ==> !(#[trigger] used@[k]),
        decreases total - j,
    {
        used.push(false);
        j = j + 1;
    }
    proof {
        assert(used@ =~= Seq::new((4 * (w * h)) as nat, |i: int| false));
    }
    let ghost full = spec_trace(w as int, h as int, g.cells@);
    let mut contours: Vec<Vec<Point>> = Vec::new();
    proof {
        assert(vecs_view(contours@) =~= Seq::<Seq<Point>>::empty());
    }
    let mut i: usize = 0;
    while i < total
        invariant
            i <= total,
            total == 4 * (w as int * h as int),
            g.wf(),
            w == g.width,
            h == g.height,
            used@.len() == total,
            full == spec_trace(w as int, h as int, g.cells@),
            forall|k: int| 0 <= k < contours@.len() ==> pts_wf(#[trigger] contours@[k]@),
            trace_rec(
                w as int,
                h as int,
                g.cells@,
                (total - i) as nat,
                used@,
                vecs_view(contours@),
            ) == full,
        decreases total - i,
    {
        proof {
            if w == 0 {
                vstd::arithmetic::mul::lemma_mul_basics(h as int);
            }
            if h == 0 {
                vstd::arithmetic::mul::lemma_mul_basics(w as int);
            }
        }
        let q: usize = i / 4;
        let px: usize = q % w;
        let py: usize = q / w;
        let s: usize = i % 4;
        let e: Edge = if s == 0 {
            Edge { x: px as i64, y: py as i64, d: 0 }
        } else if s == 1 {
            Edge { x: px as i64 + 1, y: py as i64, d: 1 }
        } else if s == 2 {
            Edge { x: px as i64 + 1, y: py as i64 + 1, d: 2 }
        } else {
            Edge { x: px as i64, y: py as i64 + 1, d: 3 }
        };
        assert(e == side_edge(w as int, i as int));
        if !used[i] && edge_at(g, e.x, e.y, e.d) {
            let ghost used_before = used@;
            let ghost acc_before = vecs_view(contours@);
            let mut pts: Vec<Point> = Vec::new();
            let ok = walk_exec(g, e, e, total, &mut pts, &mut used);
            if !ok {
                return Err(PolygonizerError::InternalError);
            }
            contours.push(pts);
            proof {
                assert(vecs_view(contours@) =~= acc_before.push(contours@[contours@.len() - 1]@));
            }
        }
        i = i + 1;
    }
    Ok(contours)
}

} // verus!

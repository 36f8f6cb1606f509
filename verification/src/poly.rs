//! The polygonizer facade: configuration, the `process` pipeline, and the
//! flat output encoding.
//!
//! `process` composes the three stages — occupancy mask, contour trace,
//! simplification — and encodes the result as one flat `i64` buffer: for each
//! polygon its point count, then that many (x, y) pairs, in the deterministic
//! contour order of the tracer.

use vstd::prelude::*;

use crate::PolygonizerError;
use crate::geom::MAX_DIM;
use crate::geom::Point;
use crate::geom::pts_wf;
use crate::mask::build_mask;
use crate::mask::mask_cells;
use crate::simplify::simplify_contour;
use crate::simplify::spec_simplify;
use crate::trace::spec_trace;
use crate::trace::trace_contours;
use crate::trace::vecs_view;

verus! {

/// The flat encoding of one polygon: its point count, then its coordinate
/// pairs.
pub open spec fn encode_poly(p: Seq<Point>) -> Seq<i64> {
    Seq::new(
        (1 + 2 * p.len()) as nat,
        |i: int|
            if i == 0 {
                p.len() as i64
            } else if (i - 1) % 2 == 0 {
                p[(i - 1) / 2].x
            } else {
                p[(i - 1) / 2].y
            },
    )
}

/// The concatenated encodings of the first `k` polygons.
pub open spec fn enc_all(ps: Seq<Seq<Point>>, k: int) -> Seq<i64>
    decreases k,
{
    if k <= 0 {
        Seq::empty()
    } else {
        enc_all(ps, k - 1) + encode_poly(ps[k - 1])
    }
}

/// The simplifications of the first `k` contours; `None` when one of them
/// has fewer than 3 points.
pub open spec fn simp_all(cs: Seq<Seq<Point>>, num: int, maxv: int, k: int) -> Option<
    Seq<Seq<Point>>,
>
    decreases k,
{
    if k <= 0 {
        Some(Seq::empty())
    } else {
        match simp_all(cs, num, maxv, k - 1) {
            None => None,
            Some(acc) => if cs[k - 1].len() < 3 {
                None
            } else {
                Some(acc.push(spec_simplify(cs[k - 1], num, maxv)))
            },
        }
    }
}

/// What one `process` call returns: `InvalidInput` for a malformed buffer
/// length and nothing else, otherwise the encoded simplified contours of the
/// occupancy mask (`InternalError` for a walk that does not close,
/// `DegenerateResult` for a contour below 3 points; neither occurs for a
/// well-formed trace).
pub open spec fn spec_process(maxv: int, num: int, w: int, h: int, data: Seq<u8>) -> Result<
    Seq<i64>,
    PolygonizerError,
> {
    if data.len() != w * h * 4 {
        Err(PolygonizerError::InvalidInput)
    } else {
        match spec_trace(w, h, mask_cells(w, h, data)) {
            None => Err(PolygonizerError::InternalError),
            Some(cs) => match simp_all(cs, num, maxv, cs.len() as int) {
                None => Err(PolygonizerError::DegenerateResult),
                Some(ps) => Ok(enc_all(ps, ps.len() as int)),
            },
        }
    }
}

/// Once `simp_all` has failed on a prefix it fails on every longer prefix.
proof fn lemma_simp_all_none(cs: Seq<Seq<Point>>, num: int, maxv: int, k1: int, k2: int)
    requires
        simp_all(cs, num, maxv, k1) is None,
        k1 <= k2,
    ensures
        simp_all(cs, num, maxv, k2) is None,
    decreases k2 - k1,
{
    if k2 > k1 {
        lemma_simp_all_none(cs, num, maxv, k1, k2 - 1);
    }
}

/// The polygonization pipeline with its immutable configuration: the vertex
/// budget per polygon and the simplification tolerance, in thousandths of a
/// pixel.
#[derive(Debug)]
pub struct PolygonizerAlgorithm {
    pub max_vertices: usize,
    pub tolerance: i64,
}

impl PolygonizerAlgorithm {
    /// The configuration is valid: a vertex budget of at least 3 and a
    /// tolerance that is not negative.
    pub open spec fn wf(&self) -> bool {
        &&& self.max_vertices >= 3
        &&& self.tolerance >= 0
    }

    /// Builds a polygonizer; rejects a vertex budget below 3 or a negative
    /// tolerance (in thousandths of a pixel), and nothing else.
    pub fn new(max_vertices: usize, tolerance: i64) -> (r: Result<
        PolygonizerAlgorithm,
        PolygonizerError,
    >)
        ensures
            match r {
                Ok(p) => {
                    &&& max_vertices >= 3
                    &&& tolerance >= 0
                    &&& p.max_vertices == max_vertices
                    &&& p.tolerance == tolerance
                    &&& p.wf()
                },
                Err(e) => {
                    &&& (max_vertices < 3 || tolerance < 0)
                    &&& e == PolygonizerError::InvalidConfig
                },
            },
    {
        if max_vertices < 3 || tolerance < 0 {
            Err(PolygonizerError::InvalidConfig)
        } else {
            Ok(PolygonizerAlgorithm { max_vertices, tolerance })
        }
    }

    /// The vertex budget this polygonizer was built with.
    pub fn max_vertices(&self) -> (r: usize)
        ensures
            r == self.max_vertices,
    {
        self.max_vertices
    }

    /// The tolerance this polygonizer was built with, in thousandths of a
    /// pixel.
    pub fn tolerance(&self) -> (r: i64)
        ensures
            r == self.tolerance,
    {
        self.tolerance
    }

    /// Polygonizes one RGBA image: rejects a buffer whose length is not
    /// `width * height * 4` with `InvalidInput` and produces no output for
    /// it; otherwise returns the flat encoding of the simplified contours.
    pub fn process(&self, width: u32, height: u32, data: &[u8]) -> (r: Result<
        Vec<i64>,
        PolygonizerError,
    >)
        requires
            self.wf(),
            width <= MAX_DIM,
            height <= MAX_DIM,
        ensures
            ({
                let s = spec_process(
                    self.max_vertices as int,
                    self.tolerance as int,
                    width as int,
                    height as int,
                    data@,
                );
                match r {
                    Ok(v) => s == Ok::<Seq<i64>, PolygonizerError>(v@),
                    Err(e) => s == Err::<Seq<i64>, PolygonizerError>(e),
                }
            }),
            (data@.len() != width as int * height as int * 4) <==> r == Err::<
                Vec<i64>,
                PolygonizerError,
            >(PolygonizerError::InvalidInput),
    {
        proof {
            crate::geom::lemma_mul_bound(width as int, height as int, 0x4000, 0x4000);
        }
        let expected: u64 = width as u64 * height as u64 * 4;
        if data.len() as u64 != expected {
            return Err(PolygonizerError::InvalidInput);
        }
        let g = build_mask(width as usize, height as usize, data);
        let cs = match trace_contours(&g) {
            Ok(cs) => cs,
            Err(e) => {
                return Err(e);
            },
        };
        let ghost csv = vecs_view(cs@);
        let mut polys: Vec<Vec<Point>> = Vec::new();
        let mut j: usize = 0;
        proof {
            assert(vecs_view(polys@) =~= Seq::<Seq<Point>>::empty());
        }
        while j < cs.len()
            invariant
                j <= cs@.len(),
                self.wf(),
                width <= MAX_DIM,
                height <= MAX_DIM,
                data@.len() == width as int * height as int * 4,
                spec_trace(
                    width as int,
                    height as int,
                    mask_cells(width as int, height as int, data@),
                ) == Some(csv),
                csv == vecs_view(cs@),
                forall|k: int| 0 <= k < cs@.len() ==> pts_wf(#[trigger] cs@[k]@),
                forall|k: int| 0 <= k < polys@.len() ==> pts_wf(#[trigger] polys@[k]@),
                simp_all(csv, self.tolerance as int, self.max_vertices as int, j as int) == Some(
                    vecs_view(polys@),
                ),
            decreases cs@.len() - j,
        {
            let ghost before = vecs_view(polys@);
            let p = match simplify_contour(&cs[j], self.tolerance, self.max_vertices) {
                Ok(p) => p,
                Err(e) => {
                    proof {
                        lemma_simp_all_none(
                            csv,
                            self.tolerance as int,
                            self.max_vertices as int,
                            j + 1,
                            csv.len() as int,
                        );
                    }
                    return Err(e);
                },
            };
            polys.push(p);
            proof {
                assert(vecs_view(polys@) =~= before.push(polys@[polys@.len() - 1]@));
            }
            j = j + 1;
        }
        let mut out: Vec<i64> = Vec::new();
        let ghost pv = vecs_view(polys@);
        let mut k: usize = 0;
        proof {
            assert(out@ =~= enc_all(pv, 0));
        }
        while k < polys.len()
            invariant
                k <= polys@.len(),
                pv == vecs_view(polys@),
                out@ == enc_all(pv, k as int),
            decreases polys@.len() - k,
        {
            let p = &polys[k];
            let ghost base = out@;
            out.push(#[verifier::truncate] (p.len() as i64));
            proof {
                assert(out@ =~= base + encode_poly(p@).subrange(0, 1));
            }
            let mut t: usize = 0;
            while t < p.len()
                invariant
                    t <= p@.len(),
                    p@ == pv[k as int],
                    k < pv.len(),
                    out@ == base + encode_poly(p@).subrange(0, 1 + 2 * t),
                decreases p@.len() - t,
            {
                out.push(p[t].x);
                out.push(p[t].y);
                proof {
                    assert(out@ =~= base + encode_poly(p@).subrange(0, 1 + 2 * (t + 1)));
                }
                t = t + 1;
            }
            proof {
                assert(encode_poly(p@).subrange(0, 1 + 2 * (p@.len() as int)) =~= encode_poly(p@));
                assert(out@ =~= enc_all(pv, k + 1));
            }
            k = k + 1;
        }
        Ok(out)
    }
}

} // verus!

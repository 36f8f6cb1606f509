//! Occupancy grid: binarization of the RGBA pixel buffer.
//!
//! A pixel is foreground exactly when its alpha channel value exceeds
//! [`ALPHA_CUTOFF`]. Cells are stored row-major; coordinates outside the grid
//! count as background.

use vstd::prelude::*;

use crate::geom::MAX_DIM;

verus! {

/// A pixel is foreground when its alpha value exceeds this cutoff.
pub const ALPHA_CUTOFF: u8 = 127;

/// A width x height boolean raster marking foreground pixels, row-major.
pub struct Grid {
    pub width: usize,
    pub height: usize,
    pub cells: Vec<bool>,
}

impl Grid {
    /// Dimensions in range and exactly one cell per pixel.
    pub open spec fn wf(&self) -> bool {
        &&& self.width <= MAX_DIM
        &&& self.height <= MAX_DIM
        &&& self.cells@.len() == self.width * self.height
    }
}

/// The cell (x, y) of a row-major grid is foreground; out of range is
/// background.
pub open spec fn fg(w: int, h: int, cells: Seq<bool>, x: int, y: int) -> bool {
    &&& 0 <= x < w
    &&& 0 <= y < h
    &&& cells[y * w + x]
}

/// The occupancy cells derived from an RGBA buffer: cell i is foreground
/// exactly when the alpha byte of pixel i exceeds the cutoff.
pub open spec fn mask_cells(w: int, h: int, data: Seq<u8>) -> Seq<bool> {
    Seq::new((w * h) as nat, |i: int| data[4 * i + 3] > ALPHA_CUTOFF)
}

/// Derives the occupancy grid from an RGBA pixel buffer.
pub fn build_mask(width: usize, height: usize, data: &[u8]) -> (g: Grid)
    requires
        width <= MAX_DIM,
        height <= MAX_DIM,
        data@.len() == width * height * 4,
    ensures
        g.wf(),
        g.width == width,
        g.height == height,
        g.cells@ == mask_cells(width as int, height as int, data@),
{
    proof {
        crate::geom::lemma_mul_bound(width as int, height as int, 0x4000, 0x4000);
    }
    let n: usize = width * height;
    let mut cells: Vec<bool> = Vec::new();
    let mut i: usize = 0;
    while i < n
        invariant
            i <= n,
            n <= 0x10000000,
            n == width * height,
            data@.len() == n * 4,
            cells@.len() == i,
            forall|j: int|
                0 <= j < i ==> cells@[j] == (data@[4 * j + 3] > ALPHA_CUTOFF),
        decreases n - i,
    {
        let alpha: u8 = *vstd::slice::slice_index_get(data, 4 * i + 3);
        cells.push(alpha > ALPHA_CUTOFF);
        i = i + 1;
    }
    proof {
        assert(cells@ =~= mask_cells(width as int, height as int, data@));
    }
    Grid { width, height, cells }
}

} // verus!

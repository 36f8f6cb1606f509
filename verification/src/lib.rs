//! Polygonization of raster masks.
//!
//! The pipeline turns a raster image (width, height, RGBA pixel buffer) into
//! simplified polygon outlines of its opaque regions:
//!
//! 1. an occupancy grid is derived from the alpha channel ([`mask`]),
//! 2. closed contours are traced along the boundaries between foreground and
//!    background cells ([`trace`]),
//! 3. each contour is reduced to a bounded number of vertices within a
//!    distance tolerance ([`simplify`]),
//!
//! and the facade ([`poly`]) wires the stages together and encodes the result
//! as one flat numeric buffer.
//!
//! Contour points are corners of pixel cells and therefore have integer
//! coordinates. The simplification tolerance is likewise an integer, measured
//! in thousandths of a pixel ([`geom::TOLERANCE_SCALE`]), so the whole
//! pipeline works on exact integer arithmetic.

use vstd::prelude::*;
use vstd::string::StringExecFns;

pub mod geom;
pub mod laws;
pub mod poly;
pub mod mask;
pub mod simplify;
pub mod trace;

verus! {

/// Kinds of failure of construction or of a `process` call.
#[derive(Clone, Copy, Debug, PartialEq, Eq, Structural)]
pub enum PolygonizerError {
    /// Construction was asked for fewer than 3 vertices or a negative tolerance.
    InvalidConfig,
    /// The pixel buffer's length does not equal `width * height * 4`.
    InvalidInput,
    /// The boundary walk did not close within its step budget; a bug signal.
    InternalError,
    /// A contour with fewer than 3 points was handed to simplification.
    DegenerateResult,
}

/// A friendly readiness check: greets `name`.
pub fn greet(name: &str) -> (r: String)
    ensures
        r@ == "Hello, "@ + name@ + "! The image polygonizer is ready."@,
{
    let mut s = String::new();
    s.append("Hello, ");
    s.append(name);
    s.append("! The image polygonizer is ready.");
    s
}

} // verus!

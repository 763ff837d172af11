//! Error kinds reported by the mesh core.

use vstd::prelude::*;

verus! {

/// A recoverable, locally reported failure of the geometric core.
#[derive(Clone, Copy, Debug, PartialEq, Eq, Structural)]
pub enum MeshError {
    /// A vector was built from a collection whose size is not exactly three.
    InvalidLength,
    /// A probe ray and all three of its perturbed fallbacks still hit the
    /// mesh in duplicated points, so the crossing parity of that triangle
    /// cannot be determined.
    UnresolvableDegeneracy,
}

/// A failure to decode a binary STL byte stream.
#[derive(Clone, Copy, Debug, PartialEq, Eq, Structural)]
pub enum StlError {
    /// The stream ends before the header, the triangle count, or the
    /// declared number of triangle records.
    Truncated,
}

} // verus!

//! Triangles: an outward unit normal plus three vertices.
//!
//! A `Triangle` is an immutable value, created once from input data and
//! never mutated. The normal kept here is the one the caller supplies — for
//! binary STL input, the per-face normal the file declares. Recomputing a
//! normal from the vertex winding, and cross-validating it against the
//! declared one, are floating-point arithmetic and stay with the caller.

use vstd::prelude::*;
use crate::vector::Cvector;

verus! {

/// A mesh face: an outward unit normal and three vertices, in winding
/// order. Its invariant — that the normal is unit length and consistent
/// with the winding — is the supplier's responsibility and is not
/// revalidated here.
#[derive(Clone, Copy, Debug, PartialEq, Eq, Structural)]
pub struct Triangle {
    /// Bit patterns of the outward unit normal.
    pub unit_normal: Cvector,
    /// First vertex.
    pub v1: Cvector,
    /// Second vertex.
    pub v2: Cvector,
    /// Third vertex.
    pub v3: Cvector,
}

impl Triangle {
    /// Builds a triangle from a caller-supplied normal and the three
    /// vertices, trusting the normal without recomputation.
    pub fn from_cvectors(unit_normal: &Cvector, v1: &Cvector, v2: &Cvector, v3: &Cvector) -> (t:
        Triangle)
        ensures
            t == (Triangle { unit_normal: *unit_normal, v1: *v1, v2: *v2, v3: *v3 }),
    {
        Triangle { unit_normal: *unit_normal, v1: *v1, v2: *v2, v3: *v3 }
    }
}

} // verus!

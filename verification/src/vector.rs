//! Coordinate vectors, exact equality, and the lexicographic total order.
//!
//! A `Cvector` holds the three coordinates of a point or direction, each as
//! the bit pattern of an IEEE-754 single precision value. Two notions of
//! comparison are kept apart on purpose:
//!
//! * *exact* equality (`==`, bitwise-equal components), used for detecting
//!   duplicated intersection points, and
//! * the *total order* [`lex_le`], primarily by x, then y, then z, with each
//!   component compared in the total scalar order of [`crate::scalar`],
//!   used for sorting intersection points along a ray.
//!
//! Epsilon comparison of two vectors is floating-point arithmetic and is
//! left with the caller, beside the rest of the vector algebra.

use vstd::prelude::*;
use crate::errors::MeshError;
use crate::scalar::{lemma_scalar_key_injective, scalar_key, scalar_rank};

verus! {

/// A point or direction in space; each component is the bit pattern of an
/// IEEE-754 single precision coordinate. `==` on two `Cvector`s is exact,
/// bitwise equality of all three components.
#[derive(Clone, Copy, Debug, PartialEq, Eq, Structural)]
pub struct Cvector {
    /// Bit pattern of the x coordinate.
    pub x: u32,
    /// Bit pattern of the y coordinate.
    pub y: u32,
    /// Bit pattern of the z coordinate.
    pub z: u32,
}

impl Cvector {
    /// Builds a vector from its three components.
    pub fn from_parts(x: u32, y: u32, z: u32) -> (v: Cvector)
        ensures
            v == (Cvector { x, y, z }),
    {
        Cvector { x, y, z }
    }

    /// Builds a vector from a fixed-length array of components.
    pub fn from_array(arr: &[u32; 3]) -> (v: Cvector)
        ensures
            v == (Cvector { x: arr[0], y: arr[1], z: arr[2] }),
    {
        Cvector { x: arr[0], y: arr[1], z: arr[2] }
    }

    /// Builds a vector from a variable-length collection of components.
    /// Fails with [`MeshError::InvalidLength`] if and only if the collection
    /// does not hold exactly three elements.
    pub fn from_vec(vec: &Vec<u32>) -> (r: Result<Cvector, MeshError>)
        ensures
            match r {
                Ok(v) => vec@.len() == 3 && v == (Cvector { x: vec@[0], y: vec@[1], z: vec@[2] }),
                Err(e) => vec@.len() != 3 && e == MeshError::InvalidLength,
            },
    {
        if vec.len() != 3 {
            return Err(MeshError::InvalidLength);
        }
        Ok(Cvector { x: vec[0], y: vec[1], z: vec[2] })
    }

    /// Decides the total order [`lex_le`].
    pub fn le(&self, other: &Cvector) -> (r: bool)
        ensures
            r == lex_le(*self, *other),
    {
        proof {
            lemma_scalar_key_injective(self.x, other.x);
            lemma_scalar_key_injective(self.y, other.y);
        }
        let kx_s = scalar_rank(self.x);
        let kx_o = scalar_rank(other.x);
        if kx_s != kx_o {
            return kx_s < kx_o;
        }
        let ky_s = scalar_rank(self.y);
        let ky_o = scalar_rank(other.y);
        if ky_s != ky_o {
            return ky_s < ky_o;
        }
        scalar_rank(self.z) <= scalar_rank(other.z)
    }
}

/// The total order over vectors: primarily by x, then y, then z, each
/// component in the total scalar order. Ordering ties only on exactly equal
/// vectors, which [`lemma_lex_le_antisymmetric`] states.
pub open spec fn lex_le(a: Cvector, b: Cvector) -> bool {
    ||| scalar_key(a.x) < scalar_key(b.x)
    ||| (a.x == b.x && scalar_key(a.y) < scalar_key(b.y))
    ||| (a.x == b.x && a.y == b.y && scalar_key(a.z) <= scalar_key(b.z))
}

/// Any two vectors are comparable under [`lex_le`].
pub proof fn lemma_lex_le_total(a: Cvector, b: Cvector)
    ensures
        lex_le(a, b) || lex_le(b, a),
{
    lemma_scalar_key_injective(a.x, b.x);
    lemma_scalar_key_injective(a.y, b.y);
}

/// [`lex_le`] ties only on exact equality: a sorted run of mutually ordered
/// vectors can repeat a value only in bitwise-equal copies.
pub proof fn lemma_lex_le_antisymmetric(a: Cvector, b: Cvector)
    ensures
        lex_le(a, b) && lex_le(b, a) ==> a == b,
{
    lemma_scalar_key_injective(a.z, b.z);
}

/// [`lex_le`] is transitive.
pub proof fn lemma_lex_le_transitive(a: Cvector, b: Cvector, c: Cvector)
    ensures
        lex_le(a, b) && lex_le(b, c) ==> lex_le(a, c),
{
    lemma_scalar_key_injective(a.x, b.x);
    lemma_scalar_key_injective(b.x, c.x);
    lemma_scalar_key_injective(a.y, b.y);
    lemma_scalar_key_injective(b.y, c.y);
}

} // verus!

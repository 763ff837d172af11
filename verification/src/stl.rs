//! The binary STL layout.
//!
//! A binary STL stream is an 80-byte free-text header, a 4-byte
//! little-endian triangle count, and then one 50-byte record per triangle:
//! twelve little-endian 32-bit coordinates — the declared face normal, then
//! the three vertices in winding order — followed by a 2-byte attribute
//! field that is ignored. Each 32-bit coordinate is kept as the bit pattern
//! it was stored with; turning a pattern into a floating value, recomputing
//! a normal from the winding, and cross-checking it against the declared
//! one are the reader's side of the boundary and stay with the caller.

use vstd::prelude::*;
use crate::errors::StlError;
use crate::triangle::Triangle;
use crate::vector::Cvector;

verus! {

/// The 32-bit little-endian value stored at byte offset `i`.
pub open spec fn le_u32_at(data: Seq<u8>, i: int) -> int {
    data[i] + 0x100 * data[i + 1] + 0x1_0000 * data[i + 2] + 0x100_0000 * data[i + 3]
}

/// The coordinate triple stored at byte offset `off`.
pub open spec fn vector_at(data: Seq<u8>, off: int) -> Cvector {
    Cvector {
        x: le_u32_at(data, off) as u32,
        y: le_u32_at(data, off + 4) as u32,
        z: le_u32_at(data, off + 8) as u32,
    }
}

/// The triangle record at index `i`: declared normal, then the three
/// vertices; the trailing 2-byte attribute field carries no geometry.
pub open spec fn triangle_at(data: Seq<u8>, i: int) -> Triangle {
    let off = 84 + 50 * i;
    Triangle {
        unit_normal: vector_at(data, off),
        v1: vector_at(data, off + 12),
        v2: vector_at(data, off + 24),
        v3: vector_at(data, off + 36),
    }
}

/// The declared triangle count of the stream.
pub open spec fn triangle_count(data: Seq<u8>) -> int {
    le_u32_at(data, 80)
}

/// The stream holds its header, its count, and every declared record.
pub open spec fn well_formed(data: Seq<u8>) -> bool {
    data.len() >= 84 && data.len() >= 84 + 50 * triangle_count(data)
}

/// A decoded binary STL stream.
#[derive(Clone, Debug, PartialEq, Eq)]
pub struct StlMesh {
    /// The 80-byte free-text header, uninterpreted.
    pub header: Vec<u8>,
    /// The triangle records, in stream order.
    pub triangles: Vec<Triangle>,
}

/// Reads the 32-bit little-endian value at `offset`.
pub fn read_le_u32(data: &Vec<u8>, offset: usize) -> (r: u32)
    requires
        offset + 4 <= data@.len(),
    ensures
        r == le_u32_at(data@, offset as int),
{
    // Pins the length below the address-space bound, so the offsets fit.
    let _n = data.len();
    let b0 = data[offset] as u32;
    let b1 = data[offset + 1] as u32;
    let b2 = data[offset + 2] as u32;
    let b3 = data[offset + 3] as u32;
    b0 + 0x100 * b1 + 0x1_0000 * b2 + 0x100_0000 * b3
}

/// Reads the coordinate triple at `offset`.
fn read_vector(data: &Vec<u8>, offset: usize) -> (v: Cvector)
    requires
        offset + 12 <= data@.len(),
    ensures
        v == vector_at(data@, offset as int),
{
    // Pins the length below the address-space bound, so the offsets fit.
    let _n = data.len();
    let x = read_le_u32(data, offset);
    let y = read_le_u32(data, offset + 4);
    let z = read_le_u32(data, offset + 8);
    Cvector::from_parts(x, y, z)
}

/// Decodes a binary STL stream. Succeeds exactly on a well-formed stream —
/// one long enough for its header, its count, and every declared record —
/// and then returns the header and each record's triangle; trailing bytes
/// beyond the declared records are ignored. A stream that ends early fails
/// with [`StlError::Truncated`].
pub fn parse_binary_stl(data: &Vec<u8>) -> (r: Result<StlMesh, StlError>)
    ensures
        match r {
            Ok(mesh) => {
                &&& well_formed(data@)
                &&& mesh.header@ == data@.subrange(0, 80)
                &&& mesh.triangles@.len() == triangle_count(data@)
                &&& forall|i: int|
                    0 <= i < triangle_count(data@) ==> mesh.triangles@[i] == triangle_at(data@, i)
            },
            Err(e) => !well_formed(data@) && e == StlError::Truncated,
        },
{
    let n = data.len();
    if n < 84 {
        return Err(StlError::Truncated);
    }
    let count = read_le_u32(data, 80);
    if (n as u64) < 84u64 + 50u64 * (count as u64) {
        return Err(StlError::Truncated);
    }
    let mut header: Vec<u8> = Vec::new();
    let mut h: usize = 0;
    while h < 80
        invariant
            h <= 80,
            data@.len() >= 84,
            header@ == data@.subrange(0, h as int),
        decreases 80 - h,
    {
        header.push(data[h]);
        proof {
            assert(header@ =~= data@.subrange(0, h + 1));
        }
        h += 1;
    }
    let mut triangles: Vec<Triangle> = Vec::new();
    let mut i: usize = 0;
    while i < count as usize
        invariant
            i <= count,
            n == data@.len(),
            data@.len() >= 84 + 50 * count,
            count == triangle_count(data@),
            triangles@.len() == i,
            forall|j: int| 0 <= j < i ==> triangles@[j] == triangle_at(data@, j),
        decreases count - i,
    {
        let off = 84 + 50 * i;
        let unit_normal = read_vector(data, off);
        let v1 = read_vector(data, off + 12);
        let v2 = read_vector(data, off + 24);
        let v3 = read_vector(data, off + 36);
        triangles.push(Triangle::from_cvectors(&unit_normal, &v1, &v2, &v3));
        i += 1;
    }
    Ok(StlMesh { header, triangles })
}

} // verus!

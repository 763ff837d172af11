//! Total order over scalar coordinates.
//!
//! A coordinate is carried as the 32-bit pattern of an IEEE-754 single
//! precision value. Sorting intersection points along a ray needs a total
//! order over such scalars, and the usual floating comparison is only
//! partial (it is undefined on NaN and ties negative and positive zero).
//! The order realised here is the standard total order on sign-magnitude
//! patterns: negative values sort below positive ones, larger magnitudes
//! sort further from zero on either side, the negative zero pattern sorts
//! just below the positive zero pattern, and the patterns that extend past
//! the finite range (infinities, then NaN payloads) sort at the two
//! extremes. On finite, non-NaN values with distinct patterns it agrees
//! with the floating `<`, so no behaviour covered by the input precondition
//! (no NaN coordinates) is changed by choosing it.

use vstd::prelude::*;

verus! {

/// Rank of a scalar bit pattern in the total scalar order: patterns with the
/// sign bit set (negative values) are reflected below the others, so that
/// ranks increase from negative NaN payloads through the negative range,
/// the two zeros, and the positive range up to positive NaN payloads.
pub open spec fn scalar_key(bits: u32) -> int {
    if bits >= 0x8000_0000 {
        0xFFFF_FFFF - bits
    } else {
        bits + 0x8000_0000
    }
}

/// Executable form of [`scalar_key`].
pub fn scalar_rank(bits: u32) -> (k: u64)
    ensures
        k == scalar_key(bits),
{
    if bits >= 0x8000_0000 {
        0xFFFF_FFFFu64 - (bits as u64)
    } else {
        (bits as u64) + 0x8000_0000
    }
}

/// Distinct bit patterns have distinct ranks: the scalar order ties only on
/// bitwise-equal scalars, which is what lets a sort bring every exact
/// duplicate into an adjacent position.
pub proof fn lemma_scalar_key_injective(a: u32, b: u32)
    ensures
        scalar_key(a) == scalar_key(b) ==> a == b,
{
}

} // verus!

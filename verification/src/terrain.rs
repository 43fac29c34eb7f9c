//! The integer hash behind the terrain's gradient noise.

use vstd::prelude::*;

verus! {

/// The lattice hash: the two coordinates are scaled by 1619 and 31337
/// (wrapping), combined with exclusive or, reinterpreted as unsigned, scaled
/// by `0x45d9f3b` (wrapping), and the high half folded onto the low half.
pub open spec fn lattice_hash(ix: i32, iz: i32) -> u32 {
    let h0 = (ix.wrapping_mul(1619) ^ iz.wrapping_mul(31337)) as u32;
    let h1 = h0.wrapping_mul(0x45d9f3b);
    h1 ^ (h1 >> 16)
}

/// The hash of the lattice point `(ix, iz)`.
pub fn hash2(ix: i32, iz: i32) -> (r: u32)
    ensures
        r == lattice_hash(ix, iz),
{
    let mut h: u32 = (ix.wrapping_mul(1619) ^ iz.wrapping_mul(31337)) as u32;
    h = h.wrapping_mul(0x45d9f3b);
    h ^= h >> 16;
    h
}

/// Which of the four diagonal gradients a lattice point uses: the hash's two
/// lowest bits.
pub fn gradient_index(hash: u32) -> (r: u32)
    ensures
        r == hash % 4,
        r < 4,
{
    let r: u32 = hash & 3;
    assert(hash & 3 == hash % 4) by (bit_vector);
    r
}

} // verus!

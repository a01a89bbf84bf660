//! Block positions on the wire: one 64-bit number holding x (26 bits), z
//! (26 bits) and y (12 bits), each in two's complement.
use vstd::prelude::*;

verus! {

/// The packed form of a position: x in the top 26 bits, z in the next 26,
/// y in the low 12, each cut to its width.
pub open spec fn spec_pack_position(x: i64, y: i64, z: i64) -> i64 {
    ((x & 0x3FFFFFF) << 38u64) | ((z & 0x3FFFFFF) << 12u64) | (y & 0xFFF)
}

/// Packs the coordinates of a block position.
pub fn pack_position(x: i64, y: i64, z: i64) -> (r: i64)
    ensures
        r == spec_pack_position(x, y, z),
{
    ((x & 0x3FFFFFF) << 38u64) | ((z & 0x3FFFFFF) << 12u64) | (y & 0xFFF)
}

/// The coordinates held by a packed position, each sign-extended from its
/// width: x from the top 26 bits, y from the low 12, z from the 26 between.
pub fn unpack_position(val: i64) -> (r: (i64, i64, i64))
    ensures
        r == (val >> 38u64, (val << 52u64) >> 52u64, (val << 26u64) >> 38u64),
{
    (val >> 38u64, (val << 52u64) >> 52u64, (val << 26u64) >> 38u64)
}

/// Unpacking a packed position gives its coordinates back when they fit
/// their widths: x and z in `-2^25..2^25`, y in `-2^11..2^11`.
pub proof fn lemma_position_roundtrip(x: i64, y: i64, z: i64)
    requires
        -0x2000000 <= x < 0x2000000,
        -0x800 <= y < 0x800,
        -0x2000000 <= z < 0x2000000,
    ensures
        spec_pack_position(x, y, z) >> 38u64 == x,
        (spec_pack_position(x, y, z) << 52u64) >> 52u64 == y,
        (spec_pack_position(x, y, z) << 26u64) >> 38u64 == z,
{
    assert(((((x & 0x3FFFFFF) << 38u64) | ((z & 0x3FFFFFF) << 12u64) | (y & 0xFFF)) >> 38u64 == x)
        && (((((x & 0x3FFFFFF) << 38u64) | ((z & 0x3FFFFFF) << 12u64) | (y & 0xFFF)) << 52u64)
        >> 52u64 == y) && (((((x & 0x3FFFFFF) << 38u64) | ((z & 0x3FFFFFF) << 12u64) | (y
        & 0xFFF)) << 26u64) >> 38u64 == z)) by (bit_vector)
        requires
            -0x2000000 <= x < 0x2000000,
            -0x800 <= y < 0x800,
            -0x2000000 <= z < 0x2000000,
    ;
}

} // verus!

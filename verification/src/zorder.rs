//! Z-order (bit-interleaved) index codec.
//!
//! `interleave` combines the two 16-bit components of a coordinate into one
//! 32-bit index by spreading each component's bits over the even positions
//! (x) and the odd positions (y); `deinterleave` is its inverse.  The codec
//! is a bijection between pairs of 16-bit values and 32-bit indices, and it
//! is monotone in each component, which is what makes the index usable as a
//! cache-friendly dense storage layout that respects the coordinate order.

use vstd::prelude::*;

verus! {

/// Spread the 16 bits of `v` over the even bit positions of a 32-bit value.
pub open spec fn spec_spread(v: u16) -> u32 {
    let a = v as u32;
    let b = (a | (a << 8)) & 0x00FF_00FF;
    let c = (b | (b << 4)) & 0x0F0F_0F0F;
    let d = (c | (c << 2)) & 0x3333_3333;
    (d | (d << 1)) & 0x5555_5555
}

/// Collect the even bit positions of `z` back into a 16-bit value.
pub open spec fn spec_compress(z: u32) -> u16 {
    let a = z & 0x5555_5555;
    let b = (a | (a >> 1)) & 0x3333_3333;
    let c = (b | (b >> 2)) & 0x0F0F_0F0F;
    let d = (c | (c >> 4)) & 0x00FF_00FF;
    ((d | (d >> 8)) & 0x0000_FFFF) as u16
}

/// The Z-order index of the pair `(x, y)`: bits of `x` at even positions,
/// bits of `y` at odd positions.
pub open spec fn spec_interleave(x: u16, y: u16) -> u32 {
    spec_spread(x) | (spec_spread(y) << 1)
}

/// The pair `(x, y)` whose Z-order index is `z`.
pub open spec fn spec_deinterleave(z: u32) -> (u16, u16) {
    (spec_compress(z), spec_compress(z >> 1))
}

pub fn interleave(x: u16, y: u16) -> (r: u32)
    ensures
        r == spec_interleave(x, y),
{
    let a: u32 = spread(x);
    let b: u32 = spread(y);
    a | (b << 1u32)
}

pub fn deinterleave(z: u32) -> (r: (u16, u16))
    ensures
        r == spec_deinterleave(z),
{
    (compress(z), compress(z >> 1u32))
}

fn spread(v: u16) -> (r: u32)
    ensures
        r == spec_spread(v),
{
    let a: u32 = v as u32;
    let b: u32 = (a | (a << 8u32)) & 0x00FF_00FF;
    let c: u32 = (b | (b << 4u32)) & 0x0F0F_0F0F;
    let d: u32 = (c | (c << 2u32)) & 0x3333_3333;
    (d | (d << 1u32)) & 0x5555_5555
}

fn compress(z: u32) -> (r: u16)
    ensures
        r == spec_compress(z),
{
    let a: u32 = z & 0x5555_5555;
    let b: u32 = (a | (a >> 1u32)) & 0x3333_3333;
    let c: u32 = (b | (b >> 2u32)) & 0x0F0F_0F0F;
    let d: u32 = (c | (c >> 4u32)) & 0x00FF_00FF;
    ((d | (d >> 8u32)) & 0x0000_FFFF) as u16
}

/// Decoding inverts encoding: the codec loses nothing.
pub proof fn lemma_deinterleave_interleave(x: u16, y: u16)
    by (bit_vector)
    ensures
        spec_compress(spec_interleave(x, y)) == x,
        spec_compress(spec_interleave(x, y) >> 1) == y,
{
}

/// Encoding inverts decoding: every 32-bit index decodes to the unique pair
/// that encodes back to it, so the codec is a bijection.
pub proof fn lemma_interleave_deinterleave(z: u32)
    by (bit_vector)
    ensures
        spec_interleave(spec_compress(z), spec_compress(z >> 1)) == z,
{
}

/// The index is monotone consistent with the componentwise partial order:
/// growing neither component cannot grow the index past a pair that
/// dominates it, and growing one strictly grows the index strictly.
pub proof fn lemma_interleave_monotone(x1: u16, y1: u16, x2: u16, y2: u16)
    by (bit_vector)
    requires
        x1 <= x2,
        y1 <= y2,
    ensures
        spec_interleave(x1, y1) <= spec_interleave(x2, y2),
        x1 < x2 || y1 < y2 ==> spec_interleave(x1, y1) < spec_interleave(x2, y2),
{
}

} // verus!

//! Conversions between bytes and the fixed-width words the digest works on.
//!
//! Two byte orders occur. Message bytes are read into words least significant
//! byte first, and the bit length is written out the same way. The finished
//! digest is the other way round: each accumulator word is byte-swapped before
//! the four are packed into one 128-bit number.

use vstd::prelude::*;
use crate::md5_core::Md5;

verus! {

/// The word whose little-endian encoding is `b0, b1, b2, b3`.
pub open spec fn word_le(b0: u8, b1: u8, b2: u8, b3: u8) -> u32 {
    (b0 + 0x100 * b1 + 0x1_0000 * b2 + 0x100_0000 * b3) as u32
}

/// The word read from the four bytes of `bytes` that start at `offset`.
pub open spec fn word_at(bytes: Seq<u8>, offset: int) -> u32 {
    word_le(bytes[offset], bytes[offset + 1], bytes[offset + 2], bytes[offset + 3])
}

/// The eight bytes of `value`, least significant first.
pub open spec fn length_bytes_le(value: u64) -> Seq<u8> {
    seq![
        (value % 0x100) as u8,
        (value / 0x100 % 0x100) as u8,
        (value / 0x1_0000 % 0x100) as u8,
        (value / 0x100_0000 % 0x100) as u8,
        (value / 0x1_0000_0000 % 0x100) as u8,
        (value / 0x100_0000_0000 % 0x100) as u8,
        (value / 0x1_0000_0000_0000 % 0x100) as u8,
        (value / 0x100_0000_0000_0000 % 0x100) as u8,
    ]
}

/// `x` with the order of its four bytes reversed.
pub open spec fn byte_swapped(x: u32) -> u32 {
    word_le(
        (x / 0x100_0000) as u8,
        (x / 0x1_0000 % 0x100) as u8,
        (x / 0x100 % 0x100) as u8,
        (x % 0x100) as u8,
    )
}

/// `x` rotated left by `n` bits, for `0 < n < 32`.
pub open spec fn rotated_left(x: u32, n: u32) -> u32 {
    (x << n) | (x >> ((32 - n) as u32))
}

impl Md5 {
    /// Reads a word from four bytes, least significant byte first.
    pub fn as_u32_le(array: &[u8; 4]) -> (word: u32)
        ensures
            word == word_le(array[0], array[1], array[2], array[3]),
    {
        let b0: u32 = array[0] as u32;
        let b1: u32 = array[1] as u32;
        let b2: u32 = array[2] as u32;
        let b3: u32 = array[3] as u32;
        assert(b0 | (b1 << 8) | (b2 << 16) | (b3 << 24) == b0 + 0x100 * b1 + 0x1_0000 * b2 + 0x100_0000
            * b3) by (bit_vector)
            requires
                b0 < 0x100,
                b1 < 0x100,
                b2 < 0x100,
                b3 < 0x100,
        ;
        b0 | (b1 << 8) | (b2 << 16) | (b3 << 24)
    }

    /// Writes `value` out as eight bytes, least significant byte first.
    pub fn u64_to_vector_u8_be(value: u64) -> (bytes: Vec<u8>)
        ensures
            bytes@ == length_bytes_le(value),
    {
        assert({
            &&& value & 0xff == value % 0x100
            &&& (value >> 8) & 0xff == value / 0x100 % 0x100
            &&& (value >> 16) & 0xff == value / 0x1_0000 % 0x100
            &&& (value >> 24) & 0xff == value / 0x100_0000 % 0x100
            &&& (value >> 32) & 0xff == value / 0x1_0000_0000 % 0x100
            &&& (value >> 40) & 0xff == value / 0x100_0000_0000 % 0x100
            &&& (value >> 48) & 0xff == value / 0x1_0000_0000_0000 % 0x100
            &&& (value >> 56) & 0xff == value / 0x100_0000_0000_0000 % 0x100
        }) by (bit_vector);
        let mut bytes: Vec<u8> = Vec::new();
        bytes.push((value & 0xff) as u8);
        bytes.push(((value >> 8) & 0xff) as u8);
        bytes.push(((value >> 16) & 0xff) as u8);
        bytes.push(((value >> 24) & 0xff) as u8);
        bytes.push(((value >> 32) & 0xff) as u8);
        bytes.push(((value >> 40) & 0xff) as u8);
        bytes.push(((value >> 48) & 0xff) as u8);
        bytes.push(((value >> 56) & 0xff) as u8);
        bytes
    }
}

/// Reverses the order of the four bytes of `x`.
pub fn swap_bytes(x: u32) -> (swapped: u32)
    ensures
        swapped == byte_swapped(x),
{
    assert((x << 24) | ((x & 0xff00) << 8) | ((x >> 8) & 0xff00) | (x >> 24) == x / 0x100_0000
        + 0x100 * (x / 0x1_0000 % 0x100) + 0x1_0000 * (x / 0x100 % 0x100) + 0x100_0000 * (x
        % 0x100)) by (bit_vector);
    (x << 24) | ((x & 0xff00) << 8) | ((x >> 8) & 0xff00) | (x >> 24)
}

/// Rotates `x` left by `n` bits.
pub fn rotate_left(x: u32, n: u32) -> (rotated: u32)
    requires
        0 < n < 32,
    ensures
        rotated == rotated_left(x, n),
{
    (x << n) | (x >> (32 - n))
}

} // verus!

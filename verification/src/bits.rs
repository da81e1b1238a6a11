//! Bitfield primitives: extracting an N-bit field from a byte at a bit
//! offset counted from the most significant bit.

use vstd::prelude::*;

verus! {

/// The `len`-bit field of `byte` that starts `offset` bits below the most
/// significant bit.
pub open spec fn spec_get_bits(byte: u8, offset: u8, len: u8) -> u8
    recommends
        1 <= len,
        offset + len <= 8,
{
    (byte << offset) >> ((8 - len) as u8)
}

/// The single bit of `byte` at `offset` below the most significant bit.
pub open spec fn spec_get_bit(byte: u8, offset: u8) -> bool
    recommends
        offset < 8,
{
    spec_get_bits(byte, offset, 1) == 1
}

pub fn get_bits(byte: u8, offset: u8, len: u8) -> (r: u8)
    requires
        1 <= len,
        offset + len <= 8,
    ensures
        r == spec_get_bits(byte, offset, len),
        len == 1 ==> r < 2,
        len == 2 ==> r < 4,
        len == 3 ==> r < 8,
        len == 4 ==> r < 16,
        len == 5 ==> r < 32,
        len == 6 ==> r < 64,
        len == 7 ==> r < 128,
{
    proof {
        lemma_get_bits_bound(byte, offset, len);
    }
    (byte << offset) >> (8 - len)
}

/// An extracted `len`-bit field is below two to the `len`.
proof fn lemma_get_bits_bound(byte: u8, offset: u8, len: u8)
    requires
        1 <= len,
        offset + len <= 8,
    ensures
        len == 1 ==> spec_get_bits(byte, offset, len) < 2,
        len == 2 ==> spec_get_bits(byte, offset, len) < 4,
        len == 3 ==> spec_get_bits(byte, offset, len) < 8,
        len == 4 ==> spec_get_bits(byte, offset, len) < 16,
        len == 5 ==> spec_get_bits(byte, offset, len) < 32,
        len == 6 ==> spec_get_bits(byte, offset, len) < 64,
        len == 7 ==> spec_get_bits(byte, offset, len) < 128,
{
    assert((len == 1 ==> (byte << offset) >> ((8 - len) as u8) < 2) && (len == 2 ==> (byte
        << offset) >> ((8 - len) as u8) < 4) && (len == 3 ==> (byte << offset) >> ((8 - len) as u8)
        < 8) && (len == 4 ==> (byte << offset) >> ((8 - len) as u8) < 16) && (len == 5 ==> (byte
        << offset) >> ((8 - len) as u8) < 32) && (len == 6 ==> (byte << offset) >> ((8 - len) as u8)
        < 64) && (len == 7 ==> (byte << offset) >> ((8 - len) as u8) < 128)) by (bit_vector)
        requires
            1 <= len,
            offset + len <= 8,
    ;
}

pub fn get_bit(byte: u8, offset: u8) -> (r: bool)
    requires
        offset < 8,
    ensures
        r == spec_get_bit(byte, offset),
{
    get_bits(byte, offset, 1) == 1
}

} // verus!

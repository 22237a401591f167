//! Little-endian encodings of fixed-width integers.
use vstd::prelude::*;

verus! {

/// The two bytes of `x`, least significant first.
pub open spec fn le_u16(x: u16) -> Seq<u8> {
    seq![(x % 256) as u8, (x / 256) as u8]
}

/// The four bytes of `x`, least significant first.
pub open spec fn le_u32(x: u32) -> Seq<u8> {
    seq![
        (x % 256) as u8,
        ((x / 256) % 256) as u8,
        ((x / 65536) % 256) as u8,
        (x / 16777216) as u8,
    ]
}

/// The integer whose little-endian bytes are `b0, b1`.
pub open spec fn u16_of_le(b0: u8, b1: u8) -> u16 {
    (b0 as int + 256 * b1 as int) as u16
}

/// Decoding the encoding of a `u16` gives it back.
pub proof fn lemma_le_u16_round_trip(x: u16)
    ensures
        u16_of_le(le_u16(x)[0], le_u16(x)[1]) == x,
{
}

/// Encoding a decoded pair of bytes gives them back.
pub proof fn lemma_u16_of_le_round_trip(b0: u8, b1: u8)
    ensures
        le_u16(u16_of_le(b0, b1)) == seq![b0, b1],
{
    assert(le_u16(u16_of_le(b0, b1)) =~= seq![b0, b1]);
}

} // verus!

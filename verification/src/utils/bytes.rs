//! Conversions between integers and the bytes that represent them.
use vstd::prelude::*;

verus! {

/// The 4 bytes of `x`, least significant first.
pub open spec fn spec_u32_to_le(x: u32) -> Seq<u8> {
    seq![(x & 0xff) as u8, ((x >> 8u32) & 0xff) as u8, ((x >> 16u32) & 0xff) as u8, ((x >> 24u32) & 0xff) as u8]
}

/// The `u32` whose bytes, least significant first, are `b0`, `b1`, `b2`, `b3`.
pub open spec fn spec_u32_from_le(b0: u8, b1: u8, b2: u8, b3: u8) -> u32 {
    (b0 as u32) | ((b1 as u32) << 8u32) | ((b2 as u32) << 16u32) | ((b3 as u32) << 24u32)
}

/// The `u32` whose first 4 bytes in `bytes`, least significant first, are taken.
pub open spec fn spec_u32_from_le_seq(bytes: Seq<u8>) -> u32 {
    spec_u32_from_le(bytes[0], bytes[1], bytes[2], bytes[3])
}

/// The 4 bytes of `x`, most significant first.
pub open spec fn spec_u32_to_be(x: u32) -> Seq<u8> {
    spec_u32_to_le(x).reverse()
}

/// The 2 bytes of `x`, most significant first.
pub open spec fn spec_u16_to_be(x: u16) -> Seq<u8> {
    seq![spec_u16_to_le(x)[1], spec_u16_to_le(x)[0]]
}

/// The 2 bytes of `x`, least significant first.
pub open spec fn spec_u16_to_le(x: u16) -> Seq<u8> {
    seq![(x & 0xff) as u8, ((x >> 8u16) & 0xff) as u8]
}

/// The `u16` whose bytes, least significant first, are `b0` and `b1`.
pub open spec fn spec_u16_from_le(b0: u8, b1: u8) -> u16 {
    (b0 as u16) | ((b1 as u16) << 8u16)
}

/// The `u16` whose bytes, most significant first, are `b0` and `b1`.
pub open spec fn spec_u16_from_be(b0: u8, b1: u8) -> u16 {
    spec_u16_from_le(b1, b0)
}

/// Returns the bytes of `x`, least significant first.
pub fn u32_to_le_bytes(x: u32) -> (bytes: [u8; 4])
    ensures
        bytes@ == spec_u32_to_le(x),
{
    let bytes = [(x & 0xff) as u8, ((x >> 8) & 0xff) as u8, ((x >> 16) & 0xff) as u8, ((x >> 24) & 0xff) as u8];
    assert(bytes@ =~= spec_u32_to_le(x));
    bytes
}

/// Returns the bytes of `x`, most significant first.
pub fn u32_to_be_bytes(x: u32) -> (bytes: [u8; 4])
    ensures
        bytes@ == spec_u32_to_be(x),
{
    let bytes = [((x >> 24) & 0xff) as u8, ((x >> 16) & 0xff) as u8, ((x >> 8) & 0xff) as u8, (x & 0xff) as u8];
    assert(bytes@ =~= spec_u32_to_be(x));
    bytes
}

/// Returns the `u32` whose bytes, least significant first, are `bytes`.
pub fn u32_from_le_bytes(bytes: [u8; 4]) -> (x: u32)
    ensures
        x == spec_u32_from_le(bytes[0], bytes[1], bytes[2], bytes[3]),
{
    (bytes[0] as u32) | ((bytes[1] as u32) << 8) | ((bytes[2] as u32) << 16) | ((bytes[3] as u32) << 24)
}

/// Returns the `u16` whose bytes, least significant first, are `b0` and `b1`.
pub fn u16_from_le_bytes(b0: u8, b1: u8) -> (x: u16)
    ensures
        x == spec_u16_from_le(b0, b1),
{
    (b0 as u16) | ((b1 as u16) << 8)
}

/// Returns the bytes of `x`, least significant first.
pub fn u16_to_le_bytes(x: u16) -> (bytes: [u8; 2])
    ensures
        bytes@ == spec_u16_to_le(x),
{
    let bytes = [(x & 0xff) as u8, ((x >> 8) & 0xff) as u8];
    assert(bytes@ =~= spec_u16_to_le(x));
    bytes
}

/// Reading back the bytes of a `u32` gives the `u32`.
pub proof fn lemma_u32_le_roundtrip(x: u32)
    ensures
        spec_u32_from_le_seq(spec_u32_to_le(x)) == x,
{
    assert(((((x & 0xff) as u8) as u32) | (((((x >> 8u32) & 0xff) as u8) as u32) << 8u32) | (((((x
        >> 16u32) & 0xff) as u8) as u32) << 16u32) | (((((x >> 24u32) & 0xff) as u8) as u32) << 24u32))
        == x) by (bit_vector);
}

/// The bytes of the `u32` read from 4 bytes are those bytes.
pub proof fn lemma_u32_le_roundtrip_bytes(b0: u8, b1: u8, b2: u8, b3: u8)
    ensures
        spec_u32_to_le(spec_u32_from_le(b0, b1, b2, b3)) == seq![b0, b1, b2, b3],
{
    let x = spec_u32_from_le(b0, b1, b2, b3);
    assert((x & 0xff) as u8 == b0 && ((x >> 8u32) & 0xff) as u8 == b1 && ((x >> 16u32) & 0xff) as u8
        == b2 && ((x >> 24u32) & 0xff) as u8 == b3) by (bit_vector)
        requires
            x == (b0 as u32) | ((b1 as u32) << 8u32) | ((b2 as u32) << 16u32) | ((b3 as u32) << 24u32),
    ;
    assert(spec_u32_to_le(x) =~= seq![b0, b1, b2, b3]);
}

/// Reading back the bytes of a `u16` gives the `u16`.
pub proof fn lemma_u16_le_roundtrip(x: u16)
    ensures
        spec_u16_from_le(spec_u16_to_le(x)[0], spec_u16_to_le(x)[1]) == x,
{
    assert(((((x & 0xff) as u8) as u16) | (((((x >> 8u16) & 0xff) as u8) as u16) << 8u16)) == x)
        by (bit_vector);
}

} // verus!

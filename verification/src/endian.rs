//! Fixed-width byte conversions: 16-bit words to and from little- and
//! big-endian byte pairs, and 32-bit words to and from little-endian byte
//! quadruples, each with an exact specification and an inversion lemma.

use vstd::prelude::*;

verus! {

/// The little-endian byte pair of a 16-bit word.
pub open spec fn u16_le_seq(x: u16) -> Seq<u8> {
    seq![(x & 0xff) as u8, ((x >> 8) & 0xff) as u8]
}

/// The big-endian byte pair of a 16-bit word.
pub open spec fn u16_be_seq(x: u16) -> Seq<u8> {
    seq![((x >> 8) & 0xff) as u8, (x & 0xff) as u8]
}

/// The 16-bit word whose little-endian byte pair is `(b0, b1)`.
pub open spec fn u16_of_le(b0: u8, b1: u8) -> u16 {
    (b0 as u16) | ((b1 as u16) << 8)
}

/// The 16-bit word whose big-endian byte pair is `(b0, b1)`.
pub open spec fn u16_of_be(b0: u8, b1: u8) -> u16 {
    ((b0 as u16) << 8) | (b1 as u16)
}

/// The little-endian byte quadruple of a 32-bit word.
pub open spec fn u32_le_seq(x: u32) -> Seq<u8> {
    seq![
        (x & 0xff) as u8,
        ((x >> 8) & 0xff) as u8,
        ((x >> 16) & 0xff) as u8,
        ((x >> 24) & 0xff) as u8,
    ]
}

/// The 32-bit word whose little-endian byte quadruple is `(b0, b1, b2, b3)`.
pub open spec fn u32_of_le(b0: u8, b1: u8, b2: u8, b3: u8) -> u32 {
    (b0 as u32) | ((b1 as u32) << 8) | ((b2 as u32) << 16) | ((b3 as u32) << 24)
}

pub fn u16_to_le(x: u16) -> (r: (u8, u8))
    ensures
        seq![r.0, r.1] == u16_le_seq(x),
{
    proof {
        lemma_u16_byte_bounds(x);
    }
    ((x & 0xff) as u8, ((x >> 8) & 0xff) as u8)
}

pub fn u16_to_be(x: u16) -> (r: (u8, u8))
    ensures
        seq![r.0, r.1] == u16_be_seq(x),
{
    proof {
        lemma_u16_byte_bounds(x);
    }
    (((x >> 8) & 0xff) as u8, (x & 0xff) as u8)
}

pub fn u16_from_le(b0: u8, b1: u8) -> (r: u16)
    ensures
        r == u16_of_le(b0, b1),
{
    (b0 as u16) | ((b1 as u16) << 8)
}

pub fn u16_from_be(b0: u8, b1: u8) -> (r: u16)
    ensures
        r == u16_of_be(b0, b1),
{
    ((b0 as u16) << 8) | (b1 as u16)
}

pub fn u32_to_le(x: u32) -> (r: (u8, u8, u8, u8))
    ensures
        seq![r.0, r.1, r.2, r.3] == u32_le_seq(x),
{
    proof {
        lemma_u32_byte_bounds(x);
    }
    (
        (x & 0xff) as u8,
        ((x >> 8) & 0xff) as u8,
        ((x >> 16) & 0xff) as u8,
        ((x >> 24) & 0xff) as u8,
    )
}

pub fn u32_from_le(b0: u8, b1: u8, b2: u8, b3: u8) -> (r: u32)
    ensures
        r == u32_of_le(b0, b1, b2, b3),
{
    (b0 as u32) | ((b1 as u32) << 8) | ((b2 as u32) << 16) | ((b3 as u32) << 24)
}

/// Relies on u16::to_ne_bytes: the memory representation of the value in the
/// platform's native byte order, which is either its little-endian or its
/// big-endian byte pair.
#[verifier::external_body]
pub(crate) fn u16_to_ne(x: u16) -> (r: (u8, u8))
    ensures
        seq![r.0, r.1] == u16_le_seq(x) || seq![r.0, r.1] == u16_be_seq(x),
{
    let b = x.to_ne_bytes();
    (b[0], b[1])
}

/// Relies on u16::from_ne_bytes: reads a byte pair in the platform's native
/// byte order, so the argument is either the little-endian or the big-endian
/// byte pair of the result.
#[verifier::external_body]
pub(crate) fn u16_from_ne(b0: u8, b1: u8) -> (r: u16)
    ensures
        seq![b0, b1] == u16_le_seq(r) || seq![b0, b1] == u16_be_seq(r),
{
    u16::from_ne_bytes([b0, b1])
}

proof fn lemma_u16_byte_bounds(x: u16)
    ensures
        x & 0xff < 256,
        (x >> 8) & 0xff < 256,
{
    assert(x & 0xff < 256) by (bit_vector);
    assert((x >> 8) & 0xff < 256) by (bit_vector);
}

proof fn lemma_u32_byte_bounds(x: u32)
    ensures
        x & 0xff < 256,
        (x >> 8) & 0xff < 256,
        (x >> 16) & 0xff < 256,
        (x >> 24) & 0xff < 256,
{
    assert(x & 0xff < 256) by (bit_vector);
    assert((x >> 8) & 0xff < 256) by (bit_vector);
    assert((x >> 16) & 0xff < 256) by (bit_vector);
    assert((x >> 24) & 0xff < 256) by (bit_vector);
}

/// Reading back the little-endian byte pair of a word restores the word.
pub proof fn lemma_u16_le_round_trip(x: u16)
    ensures
        u16_of_le(u16_le_seq(x)[0], u16_le_seq(x)[1]) == x,
{
    assert((((x & 0xff) as u8) as u16) | (((((x >> 8) & 0xff) as u8) as u16) << 8) == x)
        by (bit_vector);
}

/// Reading back the big-endian byte pair of a word restores the word.
pub proof fn lemma_u16_be_round_trip(x: u16)
    ensures
        u16_of_be(u16_be_seq(x)[0], u16_be_seq(x)[1]) == x,
{
    assert(((((((x >> 8) & 0xff) as u8) as u16) << 8) | (((x & 0xff) as u8) as u16)) == x)
        by (bit_vector);
}

} // verus!

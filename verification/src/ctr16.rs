//! 16-bit counter flavors for counter-mode block generation: a running
//! counter plus a fixed array of eight 16-bit nonce lanes is written into a
//! 16-byte block. Sibling lanes keep the platform's native byte order; only
//! the counter lane is normalized, big-endian at the last lane position for
//! the big-endian flavor and little-endian at the first lane position for
//! the little-endian flavor.

use crate::endian::{
    u16_be_seq, u16_from_be, u16_from_le, u16_from_ne, u16_le_seq, u16_of_be, u16_of_le,
    u16_to_be, u16_to_le, u16_to_ne,
};
use vstd::arithmetic::div_mod::{
    lemma_fundamental_div_mod, lemma_mod_multiples_vanish, lemma_small_mod,
};
use vstd::prelude::*;

verus! {

/// The byte pair of a 16-bit word in the given order: big-endian when `big`
/// holds, little-endian otherwise.
pub open spec fn u16_ord_seq(x: u16, big: bool) -> Seq<u8> {
    if big {
        u16_be_seq(x)
    } else {
        u16_le_seq(x)
    }
}

/// The 16-bit word read from a byte pair in the given order.
pub open spec fn u16_of_ord(b0: u8, b1: u8, big: bool) -> u16 {
    if big {
        u16_of_be(b0, b1)
    } else {
        u16_of_le(b0, b1)
    }
}

/// A byte pair that holds `v` in the platform's native byte order: one of
/// the two byte orders, which one the model leaves open.
pub open spec fn is_ne_chunk(b: Seq<u8>, v: u16) -> bool {
    b == u16_le_seq(v) || b == u16_be_seq(v)
}

/// A sequence of 16-bit lanes written as consecutive byte pairs, lane `i` in
/// the byte order `big[i]`.
pub open spec fn encode_lanes(lanes: Seq<u16>, big: Seq<bool>) -> Seq<u8>
    recommends
        big.len() >= lanes.len(),
    decreases lanes.len(),
{
    if lanes.len() == 0 {
        Seq::<u8>::empty()
    } else {
        u16_ord_seq(lanes[0], big[0]) + encode_lanes(lanes.skip(1), big.skip(1))
    }
}

/// A byte block split into consecutive byte pairs, pair `i` read as a 16-bit
/// lane in the byte order `big[i]`.
pub open spec fn decode_lanes(block: Seq<u8>, big: Seq<bool>) -> Seq<u16>
    recommends
        2 * big.len() >= block.len(),
    decreases block.len(),
{
    if block.len() < 2 {
        Seq::<u16>::empty()
    } else {
        seq![u16_of_ord(block[0], block[1], big[0])] + decode_lanes(block.skip(2), big.skip(1))
    }
}

/// Reading each lane in the byte order it was written with restores every
/// lane value.
pub proof fn lemma_decode_encode(lanes: Seq<u16>, big: Seq<bool>)
    requires
        big.len() >= lanes.len(),
    ensures
        decode_lanes(encode_lanes(lanes, big), big) == lanes,
    decreases lanes.len(),
{
    if lanes.len() == 0 {
        assert(decode_lanes(encode_lanes(lanes, big), big) =~= lanes);
    } else {
        let head = u16_ord_seq(lanes[0], big[0]);
        let rest = encode_lanes(lanes.skip(1), big.skip(1));
        assert(encode_lanes(lanes, big) == head + rest);
        assert((head + rest).len() >= 2);
        assert((head + rest)[0] == head[0]);
        assert((head + rest)[1] == head[1]);
        if big[0] {
            crate::endian::lemma_u16_be_round_trip(lanes[0]);
        } else {
            crate::endian::lemma_u16_le_round_trip(lanes[0]);
        }
        assert(u16_of_ord(head[0], head[1], big[0]) == lanes[0]);
        assert((head + rest).skip(2) =~= rest);
        lemma_decode_encode(lanes.skip(1), big.skip(1));
        assert(decode_lanes(encode_lanes(lanes, big), big) =~= lanes);
    }
}

/// Law: for any counter-lane position and any per-lane byte orders, decoding
/// an encoded block restores every sibling lane unchanged and restores the
/// counter lane as the wrapping sum of the running counter and the stored
/// counter-lane value.
pub proof fn lemma_block_round_trip(ctr: u16, lanes: Seq<u16>, counter_lane: int, big: Seq<bool>)
    requires
        lanes.len() == 8,
        big.len() == 8,
        0 <= counter_lane < 8,
    ensures
        ({
            let written = lanes.update(counter_lane, ctr.wrapping_add(lanes[counter_lane]));
            let restored = decode_lanes(encode_lanes(written, big), big);
            restored.len() == 8 && (forall|i: int|
                0 <= i < 8 && i != counter_lane ==> restored[i] == lanes[i]) && restored[
                counter_lane] == ctr.wrapping_add(lanes[counter_lane])
        }),
{
    let written = lanes.update(counter_lane, ctr.wrapping_add(lanes[counter_lane]));
    lemma_decode_encode(written, big);
}

/// One wrapping counter step: the successor modulo `2^16`.
pub open spec fn spec_increment(x: u16) -> u16 {
    x.wrapping_add(1)
}

/// `n` wrapping counter steps applied in sequence.
pub open spec fn spec_increment_n(x: u16, n: nat) -> u16
    decreases n,
{
    if n == 0 {
        x
    } else {
        spec_increment(spec_increment_n(x, (n - 1) as nat))
    }
}

proof fn lemma_mod_succ_wrap(a: int)
    requires
        a >= 0,
    ensures
        (a + 1) % 0x10000 == if a % 0x10000 == 0xffff {
            0int
        } else {
            a % 0x10000 + 1
        },
{
    lemma_fundamental_div_mod(a, 0x10000);
    let q = a / 0x10000;
    let r = a % 0x10000;
    if r == 0xffff {
        assert(a + 1 == 0x10000 * (q + 1));
        lemma_mod_multiples_vanish(q + 1, 0, 0x10000);
        lemma_small_mod(0, 0x10000);
    } else {
        assert(a + 1 == 0x10000 * q + (r + 1));
        lemma_mod_multiples_vanish(q, r + 1, 0x10000);
        lemma_small_mod((r + 1) as nat, 0x10000);
    }
}

/// `n` wrapping steps advance the counter by `n` modulo `2^16`.
pub proof fn lemma_increment_n_mod(x: u16, n: nat)
    ensures
        spec_increment_n(x, n) == ((x + n) % 0x10000) as u16,
    decreases n,
{
    if n == 0 {
        lemma_small_mod(x as nat, 0x10000);
    } else {
        lemma_increment_n_mod(x, (n - 1) as nat);
        lemma_mod_succ_wrap(x + n - 1);
    }
}

/// Law: `2^16` wrapping steps return the counter to its original value.
pub proof fn lemma_increment_wraparound(x: u16)
    ensures
        spec_increment_n(x, 0x10000) == x,
{
    lemma_increment_n_mod(x, 0x10000);
    lemma_mod_multiples_vanish(1, x as int, 0x10000);
    lemma_small_mod(x as nat, 0x10000);
}

/// 16-bit big-endian counter flavor: the counter lane sits at the last lane
/// position and is written big-endian.
#[derive(Clone, Copy)]
pub struct Ctr16BE(u16);

impl View for Ctr16BE {
    type V = u16;

    closed spec fn view(&self) -> u16 {
        self.0
    }
}

impl Default for Ctr16BE {
    /// The zero-valued counter.
    fn default() -> (r: Self)
        ensures
            r@ == 0,
    {
        Ctr16BE(0)
    }
}

impl Ctr16BE {
    /// Write the eight nonce lanes into a 16-byte block: sibling lanes in
    /// native byte order, and the wrapping sum of the running counter and
    /// the last lane big-endian at the last lane position.
    pub fn generate_block(&self, nonce: &Vec<Ctr16BE>) -> (r: Vec<u8>)
        requires
            nonce@.len() == 8,
        ensures
            r@.len() == 16,
            is_ne_chunk(r@.subrange(0, 2), nonce@[0]@),
            is_ne_chunk(r@.subrange(2, 4), nonce@[1]@),
            is_ne_chunk(r@.subrange(4, 6), nonce@[2]@),
            is_ne_chunk(r@.subrange(6, 8), nonce@[3]@),
            is_ne_chunk(r@.subrange(8, 10), nonce@[4]@),
            is_ne_chunk(r@.subrange(10, 12), nonce@[5]@),
            is_ne_chunk(r@.subrange(12, 14), nonce@[6]@),
            r@.subrange(14, 16) == u16_be_seq(self@.wrapping_add(nonce@[7]@)),
    {
        let ctr = self.0.wrapping_add(nonce[7].0);
        let b0 = u16_to_ne(nonce[0].0);
        let b1 = u16_to_ne(nonce[1].0);
        let b2 = u16_to_ne(nonce[2].0);
        let b3 = u16_to_ne(nonce[3].0);
        let b4 = u16_to_ne(nonce[4].0);
        let b5 = u16_to_ne(nonce[5].0);
        let b6 = u16_to_ne(nonce[6].0);
        let b7 = u16_to_be(ctr);
        let mut r: Vec<u8> = Vec::new();
        r.push(b0.0);
        r.push(b0.1);
        r.push(b1.0);
        r.push(b1.1);
        r.push(b2.0);
        r.push(b2.1);
        r.push(b3.0);
        r.push(b3.1);
        r.push(b4.0);
        r.push(b4.1);
        r.push(b5.0);
        r.push(b5.1);
        r.push(b6.0);
        r.push(b6.1);
        r.push(b7.0);
        r.push(b7.1);
        proof {
            assert(r@.subrange(0, 2) =~= seq![b0.0, b0.1]);
            assert(r@.subrange(2, 4) =~= seq![b1.0, b1.1]);
            assert(r@.subrange(4, 6) =~= seq![b2.0, b2.1]);
            assert(r@.subrange(6, 8) =~= seq![b3.0, b3.1]);
            assert(r@.subrange(8, 10) =~= seq![b4.0, b4.1]);
            assert(r@.subrange(10, 12) =~= seq![b5.0, b5.1]);
            assert(r@.subrange(12, 14) =~= seq![b6.0, b6.1]);
            assert(r@.subrange(14, 16) =~= seq![b7.0, b7.1]);
        }
        r
    }

    /// Read a 16-byte block back into eight lanes: sibling lanes in native
    /// byte order, the last lane big-endian.
    pub fn load(block: &Vec<u8>) -> (r: Vec<Ctr16BE>)
        requires
            block@.len() == 16,
        ensures
            r@.len() == 8,
            is_ne_chunk(block@.subrange(0, 2), r@[0]@),
            is_ne_chunk(block@.subrange(2, 4), r@[1]@),
            is_ne_chunk(block@.subrange(4, 6), r@[2]@),
            is_ne_chunk(block@.subrange(6, 8), r@[3]@),
            is_ne_chunk(block@.subrange(8, 10), r@[4]@),
            is_ne_chunk(block@.subrange(10, 12), r@[5]@),
            is_ne_chunk(block@.subrange(12, 14), r@[6]@),
            r@[7]@ == u16_of_be(block@[14], block@[15]),
    {
        let l0 = u16_from_ne(block[0], block[1]);
        let l1 = u16_from_ne(block[2], block[3]);
        let l2 = u16_from_ne(block[4], block[5]);
        let l3 = u16_from_ne(block[6], block[7]);
        let l4 = u16_from_ne(block[8], block[9]);
        let l5 = u16_from_ne(block[10], block[11]);
        let l6 = u16_from_ne(block[12], block[13]);
        let l7 = u16_from_be(block[14], block[15]);
        let mut r: Vec<Ctr16BE> = Vec::new();
        r.push(Ctr16BE(l0));
        r.push(Ctr16BE(l1));
        r.push(Ctr16BE(l2));
        r.push(Ctr16BE(l3));
        r.push(Ctr16BE(l4));
        r.push(Ctr16BE(l5));
        r.push(Ctr16BE(l6));
        r.push(Ctr16BE(l7));
        proof {
            assert(block@.subrange(0, 2) =~= seq![block@[0], block@[1]]);
            assert(block@.subrange(2, 4) =~= seq![block@[2], block@[3]]);
            assert(block@.subrange(4, 6) =~= seq![block@[4], block@[5]]);
            assert(block@.subrange(6, 8) =~= seq![block@[6], block@[7]]);
            assert(block@.subrange(8, 10) =~= seq![block@[8], block@[9]]);
            assert(block@.subrange(10, 12) =~= seq![block@[10], block@[11]]);
            assert(block@.subrange(12, 14) =~= seq![block@[12], block@[13]]);
        }
        r
    }

    /// Advance the counter by `rhs`, reporting overflow of the 16-bit
    /// backend instead of wrapping.
    pub fn checked_add(&self, rhs: usize) -> (r: Option<Ctr16BE>)
        ensures
            match r {
                Some(c) => self@ + rhs <= 0xffff && c@ == self@ + rhs,
                None => self@ + rhs > 0xffff,
            },
    {
        if rhs <= 0xffff {
            match self.0.checked_add(rhs as u16) {
                Some(v) => Some(Ctr16BE(v)),
                None => None,
            }
        } else {
            None
        }
    }

    /// Advance the counter by one, wrapping modulo `2^16`.
    pub fn increment(&mut self)
        ensures
            final(self)@ == spec_increment(old(self)@),
    {
        self.0 = self.0.wrapping_add(1);
    }

    /// The raw backend value of the counter.
    pub fn to_backend(&self) -> (r: u16)
        ensures
            r == self@,
    {
        self.0
    }

    /// The counter holding the raw backend value `v`.
    pub fn from_backend(v: u16) -> (r: Self)
        ensures
            r@ == v,
    {
        Ctr16BE(v)
    }
}

/// 16-bit little-endian counter flavor: the counter lane sits at the first
/// lane position and is written little-endian.
#[derive(Clone, Copy)]
pub struct Ctr16LE(u16);

impl View for Ctr16LE {
    type V = u16;

    closed spec fn view(&self) -> u16 {
        self.0
    }
}

impl Default for Ctr16LE {
    /// The zero-valued counter.
    fn default() -> (r: Self)
        ensures
            r@ == 0,
    {
        Ctr16LE(0)
    }
}

impl Ctr16LE {
    /// Write the eight nonce lanes into a 16-byte block: the wrapping sum of
    /// the running counter and the first lane little-endian at the first
    /// lane position, sibling lanes in native byte order.
    pub fn generate_block(&self, nonce: &Vec<Ctr16LE>) -> (r: Vec<u8>)
        requires
            nonce@.len() == 8,
        ensures
            r@.len() == 16,
            r@.subrange(0, 2) == u16_le_seq(self@.wrapping_add(nonce@[0]@)),
            is_ne_chunk(r@.subrange(2, 4), nonce@[1]@),
            is_ne_chunk(r@.subrange(4, 6), nonce@[2]@),
            is_ne_chunk(r@.subrange(6, 8), nonce@[3]@),
            is_ne_chunk(r@.subrange(8, 10), nonce@[4]@),
            is_ne_chunk(r@.subrange(10, 12), nonce@[5]@),
            is_ne_chunk(r@.subrange(12, 14), nonce@[6]@),
            is_ne_chunk(r@.subrange(14, 16), nonce@[7]@),
    {
        let ctr = self.0.wrapping_add(nonce[0].0);
        let b0 = u16_to_le(ctr);
        let b1 = u16_to_ne(nonce[1].0);
        let b2 = u16_to_ne(nonce[2].0);
        let b3 = u16_to_ne(nonce[3].0);
        let b4 = u16_to_ne(nonce[4].0);
        let b5 = u16_to_ne(nonce[5].0);
        let b6 = u16_to_ne(nonce[6].0);
        let b7 = u16_to_ne(nonce[7].0);
        let mut r: Vec<u8> = Vec::new();
        r.push(b0.0);
        r.push(b0.1);
        r.push(b1.0);
        r.push(b1.1);
        r.push(b2.0);
        r.push(b2.1);
        r.push(b3.0);
        r.push(b3.1);
        r.push(b4.0);
        r.push(b4.1);
        r.push(b5.0);
        r.push(b5.1);
        r.push(b6.0);
        r.push(b6.1);
        r.push(b7.0);
        r.push(b7.1);
        proof {
            assert(r@.subrange(0, 2) =~= seq![b0.0, b0.1]);
            assert(r@.subrange(2, 4) =~= seq![b1.0, b1.1]);
            assert(r@.subrange(4, 6) =~= seq![b2.0, b2.1]);
            assert(r@.subrange(6, 8) =~= seq![b3.0, b3.1]);
            assert(r@.subrange(8, 10) =~= seq![b4.0, b4.1]);
            assert(r@.subrange(10, 12) =~= seq![b5.0, b5.1]);
            assert(r@.subrange(12, 14) =~= seq![b6.0, b6.1]);
            assert(r@.subrange(14, 16) =~= seq![b7.0, b7.1]);
        }
        r
    }

    /// Read a 16-byte block back into eight lanes: the first lane
    /// little-endian, sibling lanes in native byte order.
    pub fn load(block: &Vec<u8>) -> (r: Vec<Ctr16LE>)
        requires
            block@.len() == 16,
        ensures
            r@.len() == 8,
            r@[0]@ == u16_of_le(block@[0], block@[1]),
            is_ne_chunk(block@.subrange(2, 4), r@[1]@),
            is_ne_chunk(block@.subrange(4, 6), r@[2]@),
            is_ne_chunk(block@.subrange(6, 8), r@[3]@),
            is_ne_chunk(block@.subrange(8, 10), r@[4]@),
            is_ne_chunk(block@.subrange(10, 12), r@[5]@),
            is_ne_chunk(block@.subrange(12, 14), r@[6]@),
            is_ne_chunk(block@.subrange(14, 16), r@[7]@),
    {
        let l0 = u16_from_le(block[0], block[1]);
        let l1 = u16_from_ne(block[2], block[3]);
        let l2 = u16_from_ne(block[4], block[5]);
        let l3 = u16_from_ne(block[6], block[7]);
        let l4 = u16_from_ne(block[8], block[9]);
        let l5 = u16_from_ne(block[10], block[11]);
        let l6 = u16_from_ne(block[12], block[13]);
        let l7 = u16_from_ne(block[14], block[15]);
        let mut r: Vec<Ctr16LE> = Vec::new();
        r.push(Ctr16LE(l0));
        r.push(Ctr16LE(l1));
        r.push(Ctr16LE(l2));
        r.push(Ctr16LE(l3));
        r.push(Ctr16LE(l4));
        r.push(Ctr16LE(l5));
        r.push(Ctr16LE(l6));
        r.push(Ctr16LE(l7));
        proof {
            assert(block@.subrange(2, 4) =~= seq![block@[2], block@[3]]);
            assert(block@.subrange(4, 6) =~= seq![block@[4], block@[5]]);
            assert(block@.subrange(6, 8) =~= seq![block@[6], block@[7]]);
            assert(block@.subrange(8, 10) =~= seq![block@[8], block@[9]]);
            assert(block@.subrange(10, 12) =~= seq![block@[10], block@[11]]);
            assert(block@.subrange(12, 14) =~= seq![block@[12], block@[13]]);
            assert(block@.subrange(14, 16) =~= seq![block@[14], block@[15]]);
        }
        r
    }

    /// Advance the counter by `rhs`, reporting overflow of the 16-bit
    /// backend instead of wrapping.
    pub fn checked_add(&self, rhs: usize) -> (r: Option<Ctr16LE>)
        ensures
            match r {
                Some(c) => self@ + rhs <= 0xffff && c@ == self@ + rhs,
                None => self@ + rhs > 0xffff,
            },
    {
        if rhs <= 0xffff {
            match self.0.checked_add(rhs as u16) {
                Some(v) => Some(Ctr16LE(v)),
                None => None,
            }
        } else {
            None
        }
    }

    /// Advance the counter by one, wrapping modulo `2^16`.
    pub fn increment(&mut self)
        ensures
            final(self)@ == spec_increment(old(self)@),
    {
        self.0 = self.0.wrapping_add(1);
    }

    /// The raw backend value of the counter.
    pub fn to_backend(&self) -> (r: u16)
        ensures
            r == self@,
    {
        self.0
    }

    /// The counter holding the raw backend value `v`.
    pub fn from_backend(v: u16) -> (r: Self)
        ensures
            r@ == v,
    {
        Ctr16LE(v)
    }
}

} // verus!

//! The ChaCha block function: a 16-word state built from four fixed constant
//! words, a 32-byte key, a 64-bit block counter and an 8-byte nonce, mixed by
//! 8, 12 or 20 rounds of quarter-round operations, fed forward and serialized
//! as 64 little-endian keystream bytes.

use crate::endian::{u32_le_seq, u32_of_le, u32_from_le, u32_to_le};
use vstd::prelude::*;

verus! {

/// The first fixed state word, from the phrase "expand 32-byte k".
pub const CONSTANT_0: u32 = 0x61707865;

/// The second fixed state word.
pub const CONSTANT_1: u32 = 0x3320646e;

/// The third fixed state word.
pub const CONSTANT_2: u32 = 0x79622d32;

/// The fourth fixed state word.
pub const CONSTANT_3: u32 = 0x6b206574;

/// The round counts the block function accepts.
pub open spec fn rounds_is_valid(rounds: usize) -> bool {
    rounds == 8 || rounds == 12 || rounds == 20
}

/// `x` rotated left by `n` bits, for `0 < n < 32`.
pub open spec fn rotl32(x: u32, n: u32) -> u32
    recommends
        0 < n < 32,
{
    (x << n) | (x >> ((32 - n) as u32))
}

/// `x` rotated right by `n` bits, for `0 < n < 32`.
pub open spec fn rotr32(x: u32, n: u32) -> u32
    recommends
        0 < n < 32,
{
    (x >> n) | (x << ((32 - n) as u32))
}

/// The quarter round on four words: add, xor and rotate by 16, 12, 8 and 7,
/// with every addition taken modulo `2^32`.
pub open spec fn spec_quarter_round_words(a: u32, b: u32, c: u32, d: u32) -> (u32, u32, u32, u32) {
    let a1 = a.wrapping_add(b);
    let d1 = rotl32(d ^ a1, 16);
    let c1 = c.wrapping_add(d1);
    let b1 = rotl32(b ^ c1, 12);
    let a2 = a1.wrapping_add(b1);
    let d2 = rotl32(d1 ^ a2, 8);
    let c2 = c1.wrapping_add(d2);
    let b2 = rotl32(b1 ^ c2, 7);
    (a2, b2, c2, d2)
}

/// The inverse of the quarter round: undo each add, xor and rotate in
/// reverse order.
pub open spec fn spec_quarter_round_words_inv(a: u32, b: u32, c: u32, d: u32) -> (
    u32,
    u32,
    u32,
    u32,
) {
    let b1 = rotr32(b, 7) ^ c;
    let c1 = c.wrapping_sub(d);
    let d1 = rotr32(d, 8) ^ a;
    let a1 = a.wrapping_sub(b1);
    let b0 = rotr32(b1, 12) ^ c1;
    let c0 = c1.wrapping_sub(d1);
    let d0 = rotr32(d1, 16) ^ a1;
    let a0 = a1.wrapping_sub(b0);
    (a0, b0, c0, d0)
}

/// The state after one quarter round on the words at indices `a`, `b`, `c`
/// and `d`.
pub open spec fn spec_quarter_round_at(s: Seq<u32>, a: int, b: int, c: int, d: int) -> Seq<u32>
    recommends
        s.len() == 16,
        0 <= a < 16,
        0 <= b < 16,
        0 <= c < 16,
        0 <= d < 16,
{
    let w = spec_quarter_round_words(s[a], s[b], s[c], s[d]);
    s.update(a, w.0).update(b, w.1).update(c, w.2).update(d, w.3)
}

/// One column round: the quarter round on each of the four column index
/// groups.
pub open spec fn spec_column_round(s: Seq<u32>) -> Seq<u32> {
    spec_quarter_round_at(
        spec_quarter_round_at(
            spec_quarter_round_at(spec_quarter_round_at(s, 0, 4, 8, 12), 1, 5, 9, 13),
            2,
            6,
            10,
            14,
        ),
        3,
        7,
        11,
        15,
    )
}

/// One diagonal round: the quarter round on each of the four diagonal index
/// groups.
pub open spec fn spec_diagonal_round(s: Seq<u32>) -> Seq<u32> {
    spec_quarter_round_at(
        spec_quarter_round_at(
            spec_quarter_round_at(spec_quarter_round_at(s, 0, 5, 10, 15), 1, 6, 11, 12),
            2,
            7,
            8,
            13,
        ),
        3,
        4,
        9,
        14,
    )
}

/// One double round: a column round followed by a diagonal round.
pub open spec fn spec_double_round(s: Seq<u32>) -> Seq<u32> {
    spec_diagonal_round(spec_column_round(s))
}

/// `n` double rounds applied in sequence.
pub open spec fn spec_double_rounds(s: Seq<u32>, n: nat) -> Seq<u32>
    decreases n,
{
    if n == 0 {
        s
    } else {
        spec_double_round(spec_double_rounds(s, (n - 1) as nat))
    }
}

/// The word-by-word feed-forward sum, modulo `2^32`, of the mixed state and
/// the input state.
pub open spec fn spec_feed_forward(mixed: Seq<u32>, init: Seq<u32>) -> Seq<u32>
    recommends
        mixed.len() == 16,
        init.len() == 16,
{
    Seq::new(16, |i: int| mixed[i].wrapping_add(init[i]))
}

/// The words of a sequence serialized as little-endian bytes, in word order.
pub open spec fn ser_words(ws: Seq<u32>) -> Seq<u8>
    decreases ws.len(),
{
    if ws.len() == 0 {
        Seq::<u8>::empty()
    } else {
        u32_le_seq(ws[0]) + ser_words(ws.skip(1))
    }
}

/// The low 32 bits of the block counter.
pub open spec fn counter_low(counter: u64) -> u32 {
    (counter & 0xffff_ffff) as u32
}

/// The high 32 bits of the block counter.
pub open spec fn counter_high(counter: u64) -> u32 {
    ((counter >> 32) & 0xffff_ffff) as u32
}

/// The initial state for a key and nonce: constants, key words decoded
/// little-endian, counter words zeroed, nonce words decoded little-endian.
pub open spec fn spec_init_state(key: Seq<u8>, iv: Seq<u8>) -> Seq<u32>
    recommends
        key.len() == 32,
        iv.len() == 8,
{
    seq![
        CONSTANT_0,
        CONSTANT_1,
        CONSTANT_2,
        CONSTANT_3,
        u32_of_le(key[0], key[1], key[2], key[3]),
        u32_of_le(key[4], key[5], key[6], key[7]),
        u32_of_le(key[8], key[9], key[10], key[11]),
        u32_of_le(key[12], key[13], key[14], key[15]),
        u32_of_le(key[16], key[17], key[18], key[19]),
        u32_of_le(key[20], key[21], key[22], key[23]),
        u32_of_le(key[24], key[25], key[26], key[27]),
        u32_of_le(key[28], key[29], key[30], key[31]),
        0u32,
        0u32,
        u32_of_le(iv[0], iv[1], iv[2], iv[3]),
        u32_of_le(iv[4], iv[5], iv[6], iv[7]),
    ]
}

/// The state handed to the round schedule: the stored state with the counter
/// words overwritten by the low and high halves of `counter`.
pub open spec fn spec_input_state(state: Seq<u32>, counter: u64) -> Seq<u32>
    recommends
        state.len() == 16,
{
    state.update(12, counter_low(counter)).update(13, counter_high(counter))
}

/// The 64 keystream bytes generated from a stored state, a round count and a
/// block counter: set the counter words, run the double rounds, feed the
/// input state forward and serialize little-endian.
pub open spec fn spec_block_bytes(state: Seq<u32>, rounds: nat, counter: u64) -> Seq<u8>
    recommends
        state.len() == 16,
{
    let init = spec_input_state(state, counter);
    ser_words(spec_feed_forward(spec_double_rounds(init, rounds / 2), init))
}

/// The ChaCha block function: a persistent 16-word state template and a
/// fixed round count. Generating a block never changes the stored state.
pub struct Block {
    state: Vec<u32>,
    rounds: usize,
}

impl View for Block {
    type V = Seq<u32>;

    closed spec fn view(&self) -> Seq<u32> {
        self.state@
    }
}

impl Block {
    /// The round count fixed at construction.
    pub closed spec fn rounds_spec(&self) -> usize {
        self.rounds
    }

    /// A well-formed block function holds 16 state words and one of the
    /// accepted round counts.
    pub open spec fn wf(&self) -> bool {
        self@.len() == 16 && rounds_is_valid(self.rounds_spec())
    }

    /// Initialize the block function from a 32-byte key, an 8-byte nonce and
    /// a round count of 8, 12 or 20.
    pub fn new(key: &Vec<u8>, iv: &Vec<u8>, rounds: usize) -> (r: Block)
        requires
            key@.len() == 32,
            iv@.len() == 8,
            rounds_is_valid(rounds),
        ensures
            r.wf(),
            r@ == spec_init_state(key@, iv@),
            r.rounds_spec() == rounds,
    {
        let mut state: Vec<u32> = Vec::new();
        state.push(CONSTANT_0);
        state.push(CONSTANT_1);
        state.push(CONSTANT_2);
        state.push(CONSTANT_3);
        state.push(u32_from_le(key[0], key[1], key[2], key[3]));
        state.push(u32_from_le(key[4], key[5], key[6], key[7]));
        state.push(u32_from_le(key[8], key[9], key[10], key[11]));
        state.push(u32_from_le(key[12], key[13], key[14], key[15]));
        state.push(u32_from_le(key[16], key[17], key[18], key[19]));
        state.push(u32_from_le(key[20], key[21], key[22], key[23]));
        state.push(u32_from_le(key[24], key[25], key[26], key[27]));
        state.push(u32_from_le(key[28], key[29], key[30], key[31]));
        state.push(0);
        state.push(0);
        state.push(u32_from_le(iv[0], iv[1], iv[2], iv[3]));
        state.push(u32_from_le(iv[4], iv[5], iv[6], iv[7]));
        proof {
            assert(state@ =~= spec_init_state(key@, iv@));
        }
        Block { state, rounds }
    }

    /// Initialize the block function, rejecting any round count other than
    /// 8, 12 or 20 instead of aborting.
    pub fn try_new(key: &Vec<u8>, iv: &Vec<u8>, rounds: usize) -> (r: Option<Block>)
        requires
            key@.len() == 32,
            iv@.len() == 8,
        ensures
            match r {
                Some(b) => rounds_is_valid(rounds) && b.wf() && b@ == spec_init_state(key@, iv@)
                    && b.rounds_spec() == rounds,
                None => !rounds_is_valid(rounds),
            },
    {
        if rounds == 8 || rounds == 12 || rounds == 20 {
            Some(Block::new(key, iv, rounds))
        } else {
            None
        }
    }

    /// Fill `output` with the 64 keystream bytes for the given block
    /// counter. The stored state is a template: the counter words of a
    /// working copy are overwritten, so the receiver is unchanged.
    pub fn generate(&self, counter: u64, output: &mut Vec<u8>)
        requires
            self.wf(),
            old(output)@.len() == 64,
        ensures
            final(output)@ == spec_block_bytes(self@, self.rounds_spec() as nat, counter),
    {
        proof {
            assert(counter & 0xffff_ffff <= 0xffff_ffff) by (bit_vector);
            assert((counter >> 32) & 0xffff_ffff <= 0xffff_ffff) by (bit_vector);
        }
        let lo: u32 = (counter & 0xffff_ffff) as u32;
        let hi: u32 = ((counter >> 32) & 0xffff_ffff) as u32;

        let mut init = copy_words(&self.state);
        init.set(12, lo);
        init.set(13, hi);
        proof {
            assert(init@ =~= spec_input_state(self@, counter));
        }

        let mut work = copy_words(&init);
        let double_rounds = self.rounds / 2;
        for round in 0..double_rounds
            invariant
                init@.len() == 16,
                work@.len() == 16,
                work@ == spec_double_rounds(init@, round as nat),
        {
            quarter_round(0, 4, 8, 12, &mut work);
            quarter_round(1, 5, 9, 13, &mut work);
            quarter_round(2, 6, 10, 14, &mut work);
            quarter_round(3, 7, 11, 15, &mut work);
            quarter_round(0, 5, 10, 15, &mut work);
            quarter_round(1, 6, 11, 12, &mut work);
            quarter_round(2, 7, 8, 13, &mut work);
            quarter_round(3, 4, 9, 14, &mut work);
        }

        let ghost mixed = work@;
        for i in 0..16usize
            invariant
                init@.len() == 16,
                mixed.len() == 16,
                work@.len() == 16,
                forall|j: int| 0 <= j < i ==> work@[j] == mixed[j].wrapping_add(init@[j]),
                forall|j: int| i <= j < 16 ==> work@[j] == mixed[j],
        {
            let sum = work[i].wrapping_add(init[i]);
            work.set(i, sum);
        }
        proof {
            assert(work@ =~= spec_feed_forward(mixed, init@));
        }

        let mut buf: Vec<u8> = Vec::new();
        for i in 0..16usize
            invariant
                work@.len() == 16,
                buf@ == ser_words(work@.take(i as int)),
        {
            let bytes = u32_to_le(work[i]);
            buf.push(bytes.0);
            buf.push(bytes.1);
            buf.push(bytes.2);
            buf.push(bytes.3);
            proof {
                lemma_ser_words_push(work@.take(i as int), work@[i as int]);
                assert(work@.take(i as int).push(work@[i as int]) =~= work@.take(i as int + 1));
                assert(buf@ =~= ser_words(work@.take(i as int + 1)));
            }
        }
        proof {
            assert(work@.take(16) =~= work@);
        }
        *output = buf;
    }
}

/// Apply the quarter round to the state words at indices `a`, `b`, `c` and
/// `d`.
pub fn quarter_round(a: usize, b: usize, c: usize, d: usize, state: &mut Vec<u32>)
    requires
        old(state)@.len() == 16,
        a < 16,
        b < 16,
        c < 16,
        d < 16,
    ensures
        final(state)@ == spec_quarter_round_at(old(state)@, a as int, b as int, c as int, d as int),
{
    let xa = state[a];
    let xb = state[b];
    let xc = state[c];
    let xd = state[d];

    let xa1 = xa.wrapping_add(xb);
    let xd1 = rotl_exec(xd ^ xa1, 16);
    let xc1 = xc.wrapping_add(xd1);
    let xb1 = rotl_exec(xb ^ xc1, 12);
    let xa2 = xa1.wrapping_add(xb1);
    let xd2 = rotl_exec(xd1 ^ xa2, 8);
    let xc2 = xc1.wrapping_add(xd2);
    let xb2 = rotl_exec(xb1 ^ xc2, 7);

    state.set(a, xa2);
    state.set(b, xb2);
    state.set(c, xc2);
    state.set(d, xd2);
}

/// `x` rotated left by `n` bits.
fn rotl_exec(x: u32, n: u32) -> (r: u32)
    requires
        0 < n < 32,
    ensures
        r == rotl32(x, n),
{
    (x << n) | (x >> (32 - n))
}

fn copy_words(v: &Vec<u32>) -> (r: Vec<u32>)
    ensures
        r@ == v@,
{
    let mut r: Vec<u32> = Vec::new();
    let n = v.len();
    for i in 0..n
        invariant
            n == v@.len(),
            r@ == v@.take(i as int),
    {
        r.push(v[i]);
        proof {
            assert(r@ =~= v@.take(i as int + 1));
        }
    }
    proof {
        assert(v@.take(n as int) =~= v@);
    }
    r
}

/// Serializing one more word appends its four little-endian bytes.
proof fn lemma_ser_words_push(ws: Seq<u32>, w: u32)
    ensures
        ser_words(ws.push(w)) == ser_words(ws) + u32_le_seq(w),
    decreases ws.len(),
{
    if ws.len() == 0 {
        assert(ws.push(w).skip(1) =~= Seq::<u32>::empty());
        assert(ws.push(w)[0] == w);
        assert(ser_words(ws.push(w)) == u32_le_seq(w) + ser_words(Seq::<u32>::empty()));
        assert(u32_le_seq(w) + Seq::<u8>::empty() =~= Seq::<u8>::empty() + u32_le_seq(w));
    } else {
        assert(ws.push(w).skip(1) =~= ws.skip(1).push(w));
        lemma_ser_words_push(ws.skip(1), w);
        assert(ws.push(w)[0] == ws[0]);
        assert(ser_words(ws.push(w)) == u32_le_seq(ws[0]) + ser_words(ws.skip(1).push(w)));
        assert(u32_le_seq(ws[0]) + (ser_words(ws.skip(1)) + u32_le_seq(w)) =~= (u32_le_seq(ws[0])
            + ser_words(ws.skip(1))) + u32_le_seq(w));
        assert(ser_words(ws) == u32_le_seq(ws[0]) + ser_words(ws.skip(1)));
    }
}

/// Law: the quarter round is invertible. Undoing each add, xor and rotate of
/// the quarter round in reverse order restores the four input words.
pub proof fn lemma_quarter_round_invertible(a: u32, b: u32, c: u32, d: u32)
    ensures
        ({
            let w = spec_quarter_round_words(a, b, c, d);
            spec_quarter_round_words_inv(w.0, w.1, w.2, w.3) == (a, b, c, d)
        }),
{
    let a1 = a.wrapping_add(b);
    let d1 = rotl32(d ^ a1, 16);
    let c1 = c.wrapping_add(d1);
    let b1 = rotl32(b ^ c1, 12);
    let a2 = a1.wrapping_add(b1);
    let d2 = rotl32(d1 ^ a2, 8);
    let c2 = c1.wrapping_add(d2);
    let b2 = rotl32(b1 ^ c2, 7);

    lemma_rot_cancel(b1 ^ c2);
    lemma_rot_cancel(d1 ^ a2);
    lemma_rot_cancel(b ^ c1);
    lemma_rot_cancel(d ^ a1);
    lemma_xor_cancel(b1, c2);
    lemma_xor_cancel(d1, a2);
    lemma_xor_cancel(b, c1);
    lemma_xor_cancel(d, a1);
    lemma_wrapping_cancel(c1, d2);
    lemma_wrapping_cancel(a1, b1);
    lemma_wrapping_cancel(c, d1);
    lemma_wrapping_cancel(a, b);
}

/// A wrapping subtraction of `y` undoes a wrapping addition of `y`.
proof fn lemma_wrapping_cancel(x: u32, y: u32)
    ensures
        x.wrapping_add(y).wrapping_sub(y) == x,
{
}

/// Xoring with `y` twice restores the value.
proof fn lemma_xor_cancel(x: u32, y: u32)
    ensures
        (x ^ y) ^ y == x,
{
    assert((x ^ y) ^ y == x) by (bit_vector);
}

/// A right rotation undoes a left rotation by the same amount, for the four
/// rotation amounts of the quarter round.
proof fn lemma_rot_cancel(x: u32)
    ensures
        rotr32(rotl32(x, 16), 16) == x,
        rotr32(rotl32(x, 12), 12) == x,
        rotr32(rotl32(x, 8), 8) == x,
        rotr32(rotl32(x, 7), 7) == x,
{
    assert(((((x << 16) | (x >> 16)) >> 16) | (((x << 16) | (x >> 16)) << 16)) == x)
        by (bit_vector);
    assert(((((x << 12) | (x >> 20)) >> 12) | (((x << 12) | (x >> 20)) << 20)) == x)
        by (bit_vector);
    assert(((((x << 8) | (x >> 24)) >> 8) | (((x << 8) | (x >> 24)) << 24)) == x) by (bit_vector);
    assert(((((x << 7) | (x >> 25)) >> 7) | (((x << 7) | (x >> 25)) << 25)) == x) by (bit_vector);
}

/// Law: block generation is deterministic. Two block functions constructed
/// from the same key, nonce and round count generate the same keystream
/// block for the same counter.
pub proof fn lemma_generate_deterministic(
    key: Seq<u8>,
    iv: Seq<u8>,
    rounds: usize,
    first: Block,
    second: Block,
    counter: u64,
)
    requires
        first@ == spec_init_state(key, iv),
        second@ == spec_init_state(key, iv),
        first.rounds_spec() == rounds,
        second.rounds_spec() == rounds,
    ensures
        spec_block_bytes(first@, first.rounds_spec() as nat, counter) == spec_block_bytes(
            second@,
            second.rounds_spec() as nat,
            counter,
        ),
{
}

} // verus!

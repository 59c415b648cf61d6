use chacha_ctr::chacha::{quarter_round, Block};

fn generate_bytes(key: &[u8], iv: &[u8], rounds: usize, counter: u64) -> Vec<u8> {
    let block = Block::new(&key.to_vec(), &iv.to_vec(), rounds);
    let mut out = vec![0u8; 64];
    block.generate(counter, &mut out);
    out
}

#[test]
fn rfc8439_quarter_round_vector() {
    // RFC 8439 section 2.1.1 test vector for the quarter round.
    let mut state = vec![0u32; 16];
    state[0] = 0x11111111;
    state[1] = 0x01020304;
    state[2] = 0x9b8d6f43;
    state[3] = 0x01234567;
    quarter_round(0, 1, 2, 3, &mut state);
    assert_eq!(state[0], 0xea2a92f4);
    assert_eq!(state[1], 0xcb1cf8ce);
    assert_eq!(state[2], 0x4581472e);
    assert_eq!(state[3], 0x5881c4bb);
    for i in 4..16 {
        assert_eq!(state[i], 0);
    }
}

#[test]
fn rfc8439_block_vector_section_2_3_2() {
    // RFC 8439 section 2.3.2: key 00 01 .. 1f, block counter 1, nonce
    // 00:00:00:09:00:00:00:4a:00:00:00:00. In the 64-bit-counter layout the
    // first nonce word of the RFC occupies the high counter half.
    let key: Vec<u8> = (0u8..32).collect();
    let iv = [0x00, 0x00, 0x00, 0x4a, 0x00, 0x00, 0x00, 0x00];
    let counter: u64 = 1 | (0x09000000u64 << 32);
    let out = generate_bytes(&key, &iv, 20, counter);
    let expected: [u8; 64] = [
        0x10, 0xf1, 0xe7, 0xe4, 0xd1, 0x3b, 0x59, 0x15, 0x50, 0x0f, 0xdd, 0x1f, 0xa3, 0x20, 0x71,
        0xc4, 0xc7, 0xd1, 0xf4, 0xc7, 0x33, 0xc0, 0x68, 0x03, 0x04, 0x22, 0xaa, 0x9a, 0xc3, 0xd4,
        0x6c, 0x4e, 0xd2, 0x82, 0x64, 0x46, 0x07, 0x9f, 0xaa, 0x09, 0x14, 0xc2, 0xd7, 0x05, 0xd9,
        0x8b, 0x02, 0xa2, 0xb5, 0x12, 0x9c, 0xd1, 0xde, 0x16, 0x4e, 0xb9, 0xcb, 0xd0, 0x83, 0xe8,
        0xa2, 0x50, 0x3c, 0x4e,
    ];
    assert_eq!(out, expected.to_vec());
}

#[test]
fn rfc8439_keystream_vector_zero_key_counter_0() {
    // RFC 8439 appendix A.1, test vector 1: all-zero key and nonce,
    // counter 0.
    let key = [0u8; 32];
    let iv = [0u8; 8];
    let out = generate_bytes(&key, &iv, 20, 0);
    let expected: [u8; 64] = [
        0x76, 0xb8, 0xe0, 0xad, 0xa0, 0xf1, 0x3d, 0x90, 0x40, 0x5d, 0x6a, 0xe5, 0x53, 0x86, 0xbd,
        0x28, 0xbd, 0xd2, 0x19, 0xb8, 0xa0, 0x8d, 0xed, 0x1a, 0xa8, 0x36, 0xef, 0xcc, 0x8b, 0x77,
        0x0d, 0xc7, 0xda, 0x41, 0x59, 0x7c, 0x51, 0x57, 0x48, 0x8d, 0x77, 0x24, 0xe0, 0x3f, 0xb8,
        0xd8, 0x4a, 0x37, 0x6a, 0x43, 0xb8, 0xf4, 0x15, 0x18, 0xa1, 0x1c, 0xc3, 0x87, 0xb6, 0x69,
        0xb2, 0xee, 0x65, 0x86,
    ];
    assert_eq!(out, expected.to_vec());
}

#[test]
fn rfc8439_keystream_vector_zero_key_counter_1() {
    // RFC 8439 appendix A.1, test vector 2: all-zero key and nonce,
    // counter 1.
    let key = [0u8; 32];
    let iv = [0u8; 8];
    let out = generate_bytes(&key, &iv, 20, 1);
    let expected: [u8; 64] = [
        0x9f, 0x07, 0xe7, 0xbe, 0x55, 0x51, 0x38, 0x7a, 0x98, 0xba, 0x97, 0x7c, 0x73, 0x2d, 0x08,
        0x0d, 0xcb, 0x0f, 0x29, 0xa0, 0x48, 0xe3, 0x65, 0x69, 0x12, 0xc6, 0x53, 0x3e, 0x32, 0xee,
        0x7a, 0xed, 0x29, 0xb7, 0x21, 0x76, 0x9c, 0xe6, 0x4e, 0x43, 0xd5, 0x71, 0x33, 0xb0, 0x74,
        0xd8, 0x39, 0xd5, 0x31, 0xed, 0x1f, 0x28, 0x51, 0x0a, 0xfb, 0x45, 0xac, 0xe1, 0x0a, 0x1f,
        0x4b, 0x79, 0x4d, 0x6f,
    ];
    assert_eq!(out, expected.to_vec());
}

#[test]
fn chacha8_keystream_vector_zero_key() {
    // Widely published ChaCha8 vector: all-zero key and nonce, counter 0.
    let out = generate_bytes(&[0u8; 32], &[0u8; 8], 8, 0);
    let expected: [u8; 32] = [
        0x3e, 0x00, 0xef, 0x2f, 0x89, 0x5f, 0x40, 0xd6, 0x7f, 0x5b, 0xb8, 0xe8, 0x1f, 0x09, 0xa5,
        0xa1, 0x2c, 0x84, 0x0e, 0xc3, 0xce, 0x9a, 0x7f, 0x3b, 0x18, 0x1b, 0xe1, 0x88, 0xef, 0x71,
        0x1a, 0x1e,
    ];
    assert_eq!(&out[..32], &expected);
}

#[test]
fn chacha12_keystream_vector_zero_key() {
    // Widely published ChaCha12 vector: all-zero key and nonce, counter 0.
    let out = generate_bytes(&[0u8; 32], &[0u8; 8], 12, 0);
    let expected: [u8; 32] = [
        0x9b, 0xf4, 0x9a, 0x6a, 0x07, 0x55, 0xf9, 0x53, 0x81, 0x1f, 0xce, 0x12, 0x5f, 0x26, 0x83,
        0xd5, 0x04, 0x29, 0xc3, 0xbb, 0x49, 0xe0, 0x74, 0x14, 0x7e, 0x00, 0x89, 0xa5, 0x2e, 0xae,
        0x15, 0x5f,
    ];
    assert_eq!(&out[..32], &expected);
}

#[test]
fn generate_is_deterministic() {
    let key: Vec<u8> = (0u8..32).map(|b| b.wrapping_mul(7).wrapping_add(3)).collect();
    let iv = [9, 8, 7, 6, 5, 4, 3, 2];
    for &rounds in &[8usize, 12, 20] {
        let first = generate_bytes(&key, &iv, rounds, 41);
        let second = generate_bytes(&key, &iv, rounds, 41);
        assert_eq!(first, second);
        // The same instance generates the same block twice as well.
        let block = Block::new(&key.to_vec(), &iv.to_vec(), rounds);
        let mut a = vec![0u8; 64];
        let mut b = vec![0u8; 64];
        block.generate(41, &mut a);
        block.generate(41, &mut b);
        assert_eq!(a, first);
        assert_eq!(b, first);
    }
}

#[test]
fn try_new_accepts_only_the_three_round_counts() {
    let key = vec![0u8; 32];
    let iv = vec![0u8; 8];
    for rounds in 0..64usize {
        let r = Block::try_new(&key, &iv, rounds);
        if rounds == 8 || rounds == 12 || rounds == 20 {
            assert!(r.is_some());
        } else {
            assert!(r.is_none());
        }
    }
}

#[test]
fn single_bit_changes_change_the_block() {
    let key: Vec<u8> = (0u8..32).collect();
    let iv = [1, 2, 3, 4, 5, 6, 7, 8];
    for &rounds in &[8usize, 12, 20] {
        let baseline = generate_bytes(&key, &iv, rounds, 5);

        let mut key_flipped = key.clone();
        key_flipped[17] ^= 0x40;
        assert_ne!(generate_bytes(&key_flipped, &iv, rounds, 5), baseline);

        let mut iv_flipped = iv;
        iv_flipped[3] ^= 0x01;
        assert_ne!(generate_bytes(&key, &iv_flipped, rounds, 5), baseline);

        assert_ne!(generate_bytes(&key, &iv, rounds, 5u64 ^ (1u64 << 33)), baseline);
        assert_ne!(generate_bytes(&key, &iv, rounds, 4), baseline);
    }
}

#[test]
fn generate_leaves_the_instance_reusable_for_other_counters() {
    let key = vec![0u8; 32];
    let iv = vec![0u8; 8];
    let block = Block::new(&key, &iv, 20);
    let mut first = vec![0u8; 64];
    block.generate(7, &mut first);
    let mut second = vec![0u8; 64];
    block.generate(0, &mut second);
    // Counter 0 after counter 7 still matches the fresh-instance output.
    assert_eq!(second, generate_bytes(&key, &iv, 20, 0));
}

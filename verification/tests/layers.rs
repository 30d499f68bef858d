use md5_core::compress::{compress, compress_block, load_words, pack, step, Accumulator};
use md5_core::md5_core::Md5;
use md5_core::tables::{PRECOMPUTED_TABLE, SHIFT_TABLE};
use md5_core::words::{rotate_left, swap_bytes};

const INITIAL: Accumulator = Accumulator {
    a: 0x67452301,
    b: 0xEFCDAB89,
    c: 0x98BADCFE,
    d: 0x10325476,
};

#[test]
fn as_u32_le_puts_the_first_byte_lowest() {
    assert_eq!(Md5::as_u32_le(&[0x78, 0x56, 0x34, 0x12]), 0x12345678);
    assert_eq!(Md5::as_u32_le(&[0x01, 0x00, 0x00, 0x00]), 1);
    assert_eq!(Md5::as_u32_le(&[0x00, 0x00, 0x00, 0x80]), 0x8000_0000);
    assert_eq!(Md5::as_u32_le(&[0xff, 0xff, 0xff, 0xff]), u32::MAX);
    assert_eq!(Md5::as_u32_le(&[0, 0, 0, 0]), 0);
}

#[test]
fn u64_to_vector_u8_be_puts_the_lowest_byte_first() {
    assert_eq!(
        Md5::u64_to_vector_u8_be(0x0102030405060708),
        vec![0x08, 0x07, 0x06, 0x05, 0x04, 0x03, 0x02, 0x01]
    );
    assert_eq!(Md5::u64_to_vector_u8_be(0), vec![0; 8]);
    assert_eq!(Md5::u64_to_vector_u8_be(u64::MAX), vec![0xff; 8]);
    assert_eq!(
        Md5::u64_to_vector_u8_be(448),
        vec![0xc0, 0x01, 0, 0, 0, 0, 0, 0]
    );
}

#[test]
fn swap_bytes_reverses_the_four_bytes() {
    assert_eq!(swap_bytes(0x12345678), 0x78563412);
    assert_eq!(swap_bytes(0x000000ff), 0xff000000);
    assert_eq!(swap_bytes(0), 0);
    assert_eq!(swap_bytes(swap_bytes(0xdeadbeef)), 0xdeadbeef);
}

#[test]
fn rotate_left_carries_the_high_bits_round() {
    assert_eq!(rotate_left(0x80000001, 7), 0xc0);
    assert_eq!(rotate_left(0x12345678, 23), 0x3c091a2b);
    assert_eq!(rotate_left(1, 31), 0x8000_0000);
    assert_eq!(rotate_left(0x8000_0000, 1), 1);
    for n in 1..32u32 {
        assert_eq!(rotate_left(0xdeadbeef, n), 0xdeadbeefu32.rotate_left(n));
    }
}

#[test]
fn tables_hold_one_entry_per_step() {
    assert_eq!(PRECOMPUTED_TABLE.len(), 64);
    assert_eq!(SHIFT_TABLE.len(), 64);
    assert_eq!(PRECOMPUTED_TABLE[0], 0xd76aa478);
    assert_eq!(PRECOMPUTED_TABLE[63], 0xeb86d391);
    assert_eq!(&SHIFT_TABLE[0..4], &[7, 12, 17, 22]);
    assert_eq!(&SHIFT_TABLE[16..20], &[5, 9, 14, 20]);
    assert_eq!(&SHIFT_TABLE[32..36], &[4, 11, 16, 23]);
    assert_eq!(&SHIFT_TABLE[48..52], &[6, 10, 15, 21]);
    for i in 0..64 {
        assert_eq!(SHIFT_TABLE[i], SHIFT_TABLE[16 * (i / 16) + i % 4]);
        assert!(0 < SHIFT_TABLE[i] && SHIFT_TABLE[i] < 32);
    }
}

#[test]
fn preprocess_of_nothing_is_one_block() {
    let mut expected = vec![0u8; 64];
    expected[0] = 0x80;
    assert_eq!(Md5::preprocess(b"", 0), expected);
}

#[test]
fn preprocess_writes_terminator_zeros_and_bit_length() {
    let padded = Md5::preprocess(b"abc", 24);
    assert_eq!(padded.len(), 64);
    assert_eq!(&padded[..3], b"abc");
    assert_eq!(padded[3], 0x80);
    assert!(padded[4..56].iter().all(|byte| *byte == 0));
    assert_eq!(&padded[56..], &[24, 0, 0, 0, 0, 0, 0, 0]);
}

#[test]
fn preprocess_takes_the_bit_length_as_given() {
    let padded = Md5::preprocess(b"tail", 0x0102030405060708);
    assert_eq!(padded.len(), 64);
    assert_eq!(
        &padded[56..],
        &[0x08, 0x07, 0x06, 0x05, 0x04, 0x03, 0x02, 0x01]
    );
    let padded = Md5::preprocess(b"", u64::MAX);
    assert_eq!(&padded[56..], &[0xff; 8]);
}

#[test]
fn preprocess_lengths_at_block_boundaries() {
    let expected: [(usize, usize); 9] = [
        (0, 64),
        (1, 64),
        (55, 64),
        (56, 128),
        (57, 128),
        (63, 128),
        (64, 128),
        (119, 128),
        (120, 192),
    ];
    for (len, padded_len) in expected {
        let input = vec![0x61u8; len];
        let padded = Md5::preprocess(&input, (len as u64) * 8);
        assert_eq!(padded.len(), padded_len, "length {}", len);
        assert_eq!(&padded[..len], &input[..]);
        assert_eq!(padded[len], 0x80);
        assert!(padded[len + 1..padded_len - 8].iter().all(|byte| *byte == 0));
        assert_eq!(
            &padded[padded_len - 8..],
            &((len as u64) * 8).to_le_bytes()
        );
    }
}

#[test]
fn preprocess_gives_the_least_multiple_of_64_with_room_for_nine_bytes() {
    for len in 0..300usize {
        let padded = Md5::preprocess(&vec![0u8; len], 0);
        assert_eq!(padded.len() % 64, 0);
        assert!(padded.len() >= len + 9);
        assert!(padded.len() < len + 9 + 64);
    }
}

#[test]
fn load_words_reads_sixteen_little_endian_words() {
    let block: Vec<u8> = (0..64u8).collect();
    let words = load_words(&block);
    assert_eq!(words[0], 0x03020100);
    assert_eq!(words[1], 0x07060504);
    assert_eq!(words[15], 0x3f3e3d3c);
    for j in 0..16 {
        assert_eq!(
            words[j],
            u32::from_le_bytes([block[4 * j], block[4 * j + 1], block[4 * j + 2], block[4 * j + 3]])
        );
    }
}

#[test]
fn step_in_each_round() {
    let m: [u32; 16] = [
        0x00000000, 0x0caecc00, 0x30b92dfc, 0x6c1f25f4, 0xbee0b3e8, 0x28fdd7d8, 0xaa7691c4,
        0x434ae1ac, 0xf37ac790, 0xbb064370, 0x99ed554c, 0x902ffd24, 0x9dce3af8, 0xc2c80ec8,
        0xff1d7894, 0x52ce785c,
    ];
    let expected: [(usize, u32); 8] = [
        (0, 0xa51fe774),
        (5, 0x49adc291),
        (16, 0x43214907),
        (21, 0xedf7fca0),
        (32, 0x67f31d58),
        (37, 0x3e1a4a53),
        (48, 0xa93cdabd),
        (63, 0x1efe54bf),
    ];
    for (i, b) in expected {
        assert_eq!(
            step(INITIAL, &m, i),
            Accumulator {
                a: 0x10325476,
                b,
                c: 0xEFCDAB89,
                d: 0x98BADCFE
            },
            "step {}",
            i
        );
    }
}

#[test]
fn compress_block_of_the_padded_empty_message() {
    let mut block = [0u8; 64];
    block[0] = 0x80;
    assert_eq!(
        compress_block(INITIAL, &block),
        Accumulator {
            a: 0xd98c1dd4,
            b: 0x04b2008f,
            c: 0x980980e9,
            d: 0x7e42f8ec
        }
    );
}

#[test]
fn compress_carries_the_accumulator_from_block_to_block() {
    let buffer: Vec<u8> = (0..128u8).collect();
    let first = Accumulator {
        a: 0x9144d9ca,
        b: 0xd901e4c9,
        c: 0x72fc5b38,
        d: 0x625ff51e,
    };
    let second = Accumulator {
        a: 0xb85e4fd4,
        b: 0xb03ccf42,
        c: 0xfc8d902d,
        d: 0x0e1b9628,
    };
    assert_eq!(compress_block(INITIAL, &buffer[..64]), first);
    assert_eq!(compress_block(first, &buffer[64..]), second);
    assert_eq!(compress(&buffer[..64], INITIAL), first);
    assert_eq!(compress(&buffer, INITIAL), second);
    assert_eq!(compress(&buffer[64..], first), second);
}

#[test]
fn compress_of_no_block_hands_the_accumulator_back() {
    assert_eq!(compress(b"", INITIAL), INITIAL);
}

#[test]
fn pack_swaps_each_word_and_puts_a_highest() {
    assert_eq!(
        pack(Accumulator {
            a: 0xd98c1dd4,
            b: 0x04b2008f,
            c: 0x980980e9,
            d: 0x7e42f8ec
        }),
        0xd41d8cd98f00b204e9800998ecf8427e
    );
    assert_eq!(
        pack(Accumulator {
            a: 0x04030201,
            b: 0x08070605,
            c: 0x0c0b0a09,
            d: 0x100f0e0d
        }),
        0x0102030405060708090a0b0c0d0e0f10
    );
    assert_eq!(pack(Accumulator { a: 0, b: 0, c: 0, d: 1 }), 0x01000000);
}

#[test]
fn calculate_chunks_folds_and_packs() {
    let mut block = [0u8; 64];
    block[0] = 0x80;
    assert_eq!(
        Md5::calculate_chunks(&block, 0x67452301, 0xEFCDAB89, 0x98BADCFE, 0x10325476),
        0xd41d8cd98f00b204e9800998ecf8427e
    );
    assert_eq!(
        Md5::calculate_chunks(b"", 0x04030201, 0x08070605, 0x0c0b0a09, 0x100f0e0d),
        0x0102030405060708090a0b0c0d0e0f10
    );
    let padded = Md5::preprocess(b"abc", 24);
    assert_eq!(
        Md5::calculate_chunks(&padded, 0x67452301, 0xEFCDAB89, 0x98BADCFE, 0x10325476),
        0x900150983cd24fb0d6963f7d28e17f72
    );
}

#[test]
fn calculate_chunks_starts_from_the_accumulator_it_is_given() {
    let buffer: Vec<u8> = (0..128u8).collect();
    let padded = Md5::preprocess(b"", 1024);
    let folded = compress(&buffer, INITIAL);
    assert_eq!(
        Md5::calculate_chunks(&padded, folded.a, folded.b, folded.c, folded.d),
        0x37eff01866ba3f538421b30b7cbefcac
    );
    assert_eq!(Md5::calculate(&buffer), 0x37eff01866ba3f538421b30b7cbefcac);
}

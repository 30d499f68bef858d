//! The compression core: folds 64-byte blocks into the four accumulator words.

use vstd::prelude::*;
use crate::tables::{PRECOMPUTED_TABLE, SHIFT_TABLE};
use crate::md5_core::Md5;
use crate::words::{byte_swapped, rotate_left, rotated_left, swap_bytes, word_at};

verus! {

/// The four running words `a`, `b`, `c`, `d` that are carried from block to block.
#[derive(Clone, Copy, Debug, PartialEq, Eq, Structural)]
pub struct Accumulator {
    pub a: u32,
    pub b: u32,
    pub c: u32,
    pub d: u32,
}

/// The accumulator every digest starts from.
pub open spec fn initial_accumulator() -> Accumulator {
    Accumulator { a: 0x67452301, b: 0xEFCDAB89, c: 0x98BADCFE, d: 0x10325476 }
}

/// Word-wise sum modulo 2^32.
pub open spec fn word_sum(x: Accumulator, y: Accumulator) -> Accumulator {
    Accumulator {
        a: x.a.wrapping_add(y.a),
        b: x.b.wrapping_add(y.b),
        c: x.c.wrapping_add(y.c),
        d: x.d.wrapping_add(y.d),
    }
}

/// The nonlinear function of step `i`: one per round of sixteen steps.
pub open spec fn mixed(i: int, b: u32, c: u32, d: u32) -> u32 {
    if i < 16 {
        (b & c) | (!b & d)
    } else if i < 32 {
        (d & b) | (!d & c)
    } else if i < 48 {
        b ^ c ^ d
    } else {
        c ^ (b | !d)
    }
}

/// Which of the sixteen message words step `i` takes.
pub open spec fn message_index(i: int) -> int {
    if i < 16 {
        i
    } else if i < 32 {
        (5 * i + 1) % 16
    } else if i < 48 {
        (3 * i + 5) % 16
    } else {
        (7 * i) % 16
    }
}

/// The working registers after step `i`, given the registers `r` before it and the
/// message words `m` of the block.
pub open spec fn stepped(r: Accumulator, m: Seq<u32>, i: int) -> Accumulator {
    let f = mixed(i, r.b, r.c, r.d).wrapping_add(r.a).wrapping_add(
        m[message_index(i)],
    ).wrapping_add(PRECOMPUTED_TABLE[i]);
    Accumulator { a: r.d, b: r.b.wrapping_add(rotated_left(f, SHIFT_TABLE[i])), c: r.b, d: r.c }
}

/// The working registers after the first `n` steps.
pub open spec fn stepped_through(r: Accumulator, m: Seq<u32>, n: nat) -> Accumulator
    decreases n,
{
    if n == 0 {
        r
    } else {
        stepped(stepped_through(r, m, (n - 1) as nat), m, n - 1)
    }
}

/// The sixteen message words of a block, each read least significant byte first.
pub open spec fn block_words(block: Seq<u8>) -> Seq<u32> {
    Seq::new(16, |j: int| word_at(block, 4 * j))
}

/// The accumulator after one block: the sixty-four steps run on a copy of the
/// accumulator, and the outcome is added back into it.
#[verifier::opaque]
pub open spec fn compressed(acc: Accumulator, block: Seq<u8>) -> Accumulator {
    word_sum(acc, stepped_through(acc, block_words(block), 64))
}

/// The accumulator after the first `n` blocks of `buffer`, taken in order.
pub open spec fn compressed_blocks(acc: Accumulator, buffer: Seq<u8>, n: nat) -> Accumulator
    decreases n,
{
    if n == 0 {
        acc
    } else {
        compressed(
            compressed_blocks(acc, buffer, (n - 1) as nat),
            buffer.subrange(64 * (n - 1), 64 * (n as int)),
        )
    }
}

/// The accumulator after every whole block of `buffer`.
pub open spec fn compressed_all(acc: Accumulator, buffer: Seq<u8>) -> Accumulator {
    compressed_blocks(acc, buffer, buffer.len() / 64)
}

/// The digest as one number: each word byte-swapped, `a` in the most significant place.
pub open spec fn packed(acc: Accumulator) -> u128 {
    (0x1_0000_0000_0000_0000_0000_0000 * byte_swapped(acc.a) + 0x1_0000_0000_0000_0000
        * byte_swapped(acc.b) + 0x1_0000_0000 * byte_swapped(acc.c) + byte_swapped(acc.d)) as u128
}

/// The first `n` blocks decide the outcome: two buffers that agree on them give
/// the same accumulator.
pub proof fn lemma_compressed_blocks_of_prefix(
    acc: Accumulator,
    buffer: Seq<u8>,
    other: Seq<u8>,
    n: nat,
)
    requires
        64 * n <= buffer.len(),
        64 * n <= other.len(),
        buffer.take(64 * n as int) == other.take(64 * n as int),
    ensures
        compressed_blocks(acc, buffer, n) == compressed_blocks(acc, other, n),
    decreases n,
{
    if n > 0 {
        let before = (n - 1) as nat;
        assert(buffer.take(64 * before as int) =~= buffer.take(64 * n as int).take(
            64 * before as int,
        ));
        assert(other.take(64 * before as int) =~= other.take(64 * n as int).take(
            64 * before as int,
        ));
        lemma_compressed_blocks_of_prefix(acc, buffer, other, before);
        assert(buffer.subrange(64 * (n - 1), 64 * (n as int)) =~= buffer.take(
            64 * n as int,
        ).subrange(64 * (n - 1), 64 * (n as int)));
        assert(other.subrange(64 * (n - 1), 64 * (n as int)) =~= other.take(
            64 * n as int,
        ).subrange(64 * (n - 1), 64 * (n as int)));
    }
}

/// Folding is done block by block: the blocks of `front + back` are those of
/// `front`, which must hold whole blocks only, and then those of `back`.
pub proof fn lemma_compressed_blocks_of_concat(
    acc: Accumulator,
    front: Seq<u8>,
    back: Seq<u8>,
    n: nat,
)
    requires
        front.len() % 64 == 0,
        64 * n <= back.len(),
    ensures
        compressed_blocks(acc, front + back, front.len() / 64 + n) == compressed_blocks(
            compressed_all(acc, front),
            back,
            n,
        ),
    decreases n,
{
    let whole = front.len() / 64;
    if n == 0 {
        assert((front + back).take(64 * whole as int) =~= front.take(64 * whole as int));
        lemma_compressed_blocks_of_prefix(acc, front + back, front, whole);
    } else {
        lemma_compressed_blocks_of_concat(acc, front, back, (n - 1) as nat);
        assert((front + back).subrange(64 * (whole + n - 1), 64 * ((whole + n) as int))
            =~= back.subrange(64 * (n - 1), 64 * (n as int)));
    }
}

/// Reads the sixteen message words of a block.
pub fn load_words(block: &[u8]) -> (words: [u32; 16])
    requires
        block@.len() == 64,
    ensures
        words@ == block_words(block@),
{
    let mut words: [u32; 16] = [0u32; 16];
    let mut j: usize = 0;
    while j < 16
        invariant
            j <= 16,
            block@.len() == 64,
            forall|k: int| 0 <= k < j ==> words@[k] == word_at(block@, 4 * k),
        decreases 16 - j,
    {
        let quad: [u8; 4] = [block[4 * j], block[4 * j + 1], block[4 * j + 2], block[4 * j + 3]];
        words[j] = Md5::as_u32_le(&quad);
        j += 1;
    }
    assert(words@ =~= block_words(block@));
    words
}

/// Runs step `i` of the round transform on the working registers `r`.
pub fn step(r: Accumulator, m: &[u32; 16], i: usize) -> (next: Accumulator)
    requires
        i < 64,
    ensures
        next == stepped(r, m@, i as int),
{
    let f: u32;
    let g: usize;
    if i < 16 {
        f = (r.b & r.c) | (!r.b & r.d);
        g = i;
    } else if i < 32 {
        f = (r.d & r.b) | (!r.d & r.c);
        g = (5 * i + 1) % 16;
    } else if i < 48 {
        f = r.b ^ r.c ^ r.d;
        g = (3 * i + 5) % 16;
    } else {
        f = r.c ^ (r.b | !r.d);
        g = (7 * i) % 16;
    }
    let f: u32 = f.wrapping_add(r.a).wrapping_add(m[g]).wrapping_add(PRECOMPUTED_TABLE[i]);
    Accumulator { a: r.d, b: r.b.wrapping_add(rotate_left(f, SHIFT_TABLE[i])), c: r.b, d: r.c }
}

/// Folds one 64-byte block into the accumulator.
pub fn compress_block(acc: Accumulator, block: &[u8]) -> (next: Accumulator)
    requires
        block@.len() == 64,
    ensures
        next == compressed(acc, block@),
{
    let m: [u32; 16] = load_words(block);
    let mut r: Accumulator = acc;
    let mut i: usize = 0;
    while i < 64
        invariant
            i <= 64,
            r == stepped_through(acc, m@, i as nat),
        decreases 64 - i,
    {
        r = step(r, &m, i);
        i += 1;
    }
    proof {
        reveal(compressed);
    }
    Accumulator {
        a: acc.a.wrapping_add(r.a),
        b: acc.b.wrapping_add(r.b),
        c: acc.c.wrapping_add(r.c),
        d: acc.d.wrapping_add(r.d),
    }
}

/// Folds every block of `buffer` into the accumulator, first to last.
pub fn compress(buffer: &[u8], acc: Accumulator) -> (next: Accumulator)
    requires
        buffer@.len() % 64 == 0,
    ensures
        next == compressed_all(acc, buffer@),
{
    let mut next: Accumulator = acc;
    let mut done: usize = 0;
    while done < buffer.len()
        invariant
            done <= buffer@.len(),
            done % 64 == 0,
            buffer@.len() % 64 == 0,
            next == compressed_blocks(acc, buffer@, (done / 64) as nat),
        decreases buffer@.len() - done,
    {
        next = compress_block(next, &buffer[done..done + 64]);
        done += 64;
    }
    next
}

/// Packs the accumulator into the 128-bit digest.
pub fn pack(acc: Accumulator) -> (digest: u128)
    ensures
        digest == packed(acc),
{
    let a: u128 = swap_bytes(acc.a) as u128;
    let b: u128 = swap_bytes(acc.b) as u128;
    let c: u128 = swap_bytes(acc.c) as u128;
    let d: u128 = swap_bytes(acc.d) as u128;
    assert((a << 96) | (b << 64) | (c << 32) | d == 0x1_0000_0000_0000_0000_0000_0000 * a
        + 0x1_0000_0000_0000_0000 * b + 0x1_0000_0000 * c + d) by (bit_vector)
        requires
            a < 0x1_0000_0000,
            b < 0x1_0000_0000,
            c < 0x1_0000_0000,
            d < 0x1_0000_0000,
    ;
    (a << 96) | (b << 64) | (c << 32) | d
}

impl Md5 {
    /// Folds the blocks of `buffer` into the accumulator `a0, b0, c0, d0` and packs
    /// the outcome.
    pub fn calculate_chunks(buffer: &[u8], a0: u32, b0: u32, c0: u32, d0: u32) -> (digest: u128)
        requires
            buffer@.len() % 64 == 0,
        ensures
            digest == packed(compressed_all((Accumulator { a: a0, b: b0, c: c0, d: d0 }), buffer@)),
    {
        pack(compress(buffer, Accumulator { a: a0, b: b0, c: c0, d: d0 }))
    }
}

} // verus!

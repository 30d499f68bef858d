//! The preprocessor: pads the last bytes of a message out to whole blocks.

use vstd::prelude::*;
use crate::md5_core::Md5;
use crate::words::length_bytes_le;

verus! {

/// How many bytes stand between the message and the length field, the terminator
/// byte included: as many as bring the length to 56 modulo 64, and at least one.
pub open spec fn padding_length(len: nat) -> nat {
    let used = len % 64;
    if used < 56 {
        (56 - used) as nat
    } else {
        (120 - used) as nat
    }
}

/// `tail` followed by the terminator byte, the zero bytes and the eight bytes of
/// `bit_length`.
#[verifier::opaque]
pub open spec fn padded(tail: Seq<u8>, bit_length: u64) -> Seq<u8> {
    tail + seq![0x80u8] + Seq::new((padding_length(tail.len()) - 1) as nat, |i: int| 0u8)
        + length_bytes_le(bit_length)
}

/// The padded length is the least multiple of 64 that leaves room for the
/// terminator and the length field.
pub proof fn lemma_padded_length(tail: Seq<u8>, bit_length: u64)
    ensures
        padded(tail, bit_length).len() == tail.len() + padding_length(tail.len()) + 8,
        padded(tail, bit_length).len() % 64 == 0,
        tail.len() + 9 <= padded(tail, bit_length).len() < tail.len() + 9 + 64,
{
    reveal(padded);
}

/// Whole blocks in front of the tail pass through the padding untouched.
pub proof fn lemma_padded_after_blocks(message: Seq<u8>, whole: int, bit_length: u64)
    requires
        0 <= whole <= message.len(),
        whole % 64 == 0,
    ensures
        padded(message, bit_length) == message.take(whole) + padded(
            message.skip(whole),
            bit_length,
        ),
{
    reveal(padded);
    let tail = message.skip(whole);
    assert(padding_length(tail.len()) == padding_length(message.len()));
    assert(message =~= message.take(whole) + tail);
    let filling = seq![0x80u8] + Seq::new(
        (padding_length(tail.len()) - 1) as nat,
        |i: int| 0u8,
    ) + length_bytes_le(bit_length);
    assert(padded(tail, bit_length) =~= tail + filling);
    assert(padded(message, bit_length) =~= message + filling);
    assert(message + filling =~= message.take(whole) + (tail + filling));
}

impl Md5 {
    /// Appends to `input` the terminator byte `0x80`, zero bytes up to 56 modulo 64,
    /// and `original_length_in_bits` as eight bytes, least significant first.
    pub fn preprocess(input: &[u8], original_length_in_bits: u64) -> (preprocessed: Vec<u8>)
        ensures
            preprocessed@ == padded(input@, original_length_in_bits),
            preprocessed@.len() % 64 == 0,
            input@.len() + 9 <= preprocessed@.len() < input@.len() + 9 + 64,
    {
        let mut preprocessed: Vec<u8> = Vec::new();
        preprocessed.extend_from_slice(input);
        assert(preprocessed@ =~= input@);
        let used: usize = input.len() % 64;
        let n_bytes_to_push: usize = if used < 56 {
            56 - used
        } else {
            120 - used
        };
        preprocessed.push(0x80);
        let mut pushed: usize = 1;
        while pushed < n_bytes_to_push
            invariant
                1 <= pushed <= n_bytes_to_push,
                preprocessed@ == input@ + seq![0x80u8] + Seq::new(
                    (pushed - 1) as nat,
                    |i: int| 0u8,
                ),
            decreases n_bytes_to_push - pushed,
        {
            preprocessed.push(0);
            pushed += 1;
        }
        let mut length_bytes: Vec<u8> = Self::u64_to_vector_u8_be(original_length_in_bits);
        preprocessed.append(&mut length_bytes);
        proof {
            reveal(padded);
            lemma_padded_length(input@, original_length_in_bits);
        }
        preprocessed
    }
}

} // verus!

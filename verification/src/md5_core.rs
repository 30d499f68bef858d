//! The digest state and the public interface: incremental and one-shot.

use vstd::prelude::*;
use crate::chunking::lemma_digest_of_consumed;
use crate::compress::{
    Accumulator, compress, compress_block, compressed_all, compressed_blocks, initial_accumulator,
    lemma_compressed_blocks_of_concat, lemma_compressed_blocks_of_prefix, packed,
};
use crate::padding::padded;

verus! {

/// An MD5 computation in progress.
///
/// Holds the accumulator, the bytes that do not fill a block yet, and the number
/// of bytes taken in so far. A state is never changed: `consume` gives the next
/// one, and `digest` only reads.
pub struct Md5 {
    buffer: Vec<u8>,
    length: u64,
    accumulator: Accumulator,
}

/// What a state holds, as plain mathematical values.
pub struct State {
    /// The accumulator after every whole block taken in so far.
    pub accumulator: Accumulator,
    /// The bytes taken in after the last whole block.
    pub buffer: Seq<u8>,
    /// The number of bytes taken in, modulo 2^64.
    pub length: u64,
}

/// The byte count `length` after `more` further bytes: it wraps at 2^64.
pub open spec fn length_after(length: u64, more: nat) -> u64 {
    ((length + more) % 0x1_0000_0000_0000_0000) as u64
}

/// The bit count of `bytes` bytes as the length field holds it: modulo 2^64.
pub open spec fn bit_length(bytes: nat) -> u64 {
    ((8 * bytes) % 0x1_0000_0000_0000_0000) as u64
}

/// The length field cannot tell byte counts apart that agree modulo 2^64: the
/// wrapped byte count gives the bit count that the true one gives.
pub proof fn lemma_bit_length_wraps(length: u64, more: nat)
    ensures
        bit_length(length_after(length, more) as nat) == bit_length(length as nat + more),
{
}

impl State {
    /// Whether the buffer holds less than a block, as it does in every state
    /// that `new` and `consume` give.
    pub open spec fn well_formed(self) -> bool {
        self.buffer.len() < 64
    }

    /// The state before any byte.
    pub open spec fn initial() -> State {
        State { accumulator: initial_accumulator(), buffer: Seq::empty(), length: 0 }
    }

    /// The state after `data` more bytes: they are put behind the buffered
    /// ones, every whole block of the result is folded into the accumulator, and
    /// what is left over stays buffered.
    pub open spec fn consumed(self, data: Seq<u8>) -> State {
        let pending = self.buffer + data;
        State {
            accumulator: compressed_all(self.accumulator, pending),
            buffer: pending.skip(64 * (pending.len() as int / 64)),
            length: length_after(self.length, data.len()),
        }
    }

    /// The digest read off this state: the buffered bytes are padded, with the
    /// bit count of everything taken in, and folded into the accumulator.
    pub open spec fn digest(self) -> u128 {
        packed(compressed_all(self.accumulator, padded(self.buffer, bit_length(self.length as nat))))
    }
}

/// The MD5 digest of `message`: the padded message folded block by block into
/// the initial accumulator, and the outcome packed into one number.
pub open spec fn md5(message: Seq<u8>) -> u128 {
    packed(
        compressed_all(
            initial_accumulator(),
            padded(message, bit_length(message.len())),
        ),
    )
}

impl View for Md5 {
    type V = State;

    closed spec fn view(&self) -> State {
        State { accumulator: self.accumulator, buffer: self.buffer@, length: self.length }
    }
}

impl Md5 {
    #[verifier::type_invariant]
    spec fn buffer_is_short(&self) -> bool {
        self.buffer@.len() < 64
    }

    /// The state before any byte.
    pub fn new() -> (state: Self)
        ensures
            state@ == State::initial(),
    {
        Self {
            buffer: Vec::new(),
            length: 0,
            accumulator: Accumulator { a: 0x67452301, b: 0xEFCDAB89, c: 0x98BADCFE, d: 0x10325476 },
        }
    }

    /// The state after `data` more bytes. `self` stays as it is.
    pub fn consume(&self, data: &[u8]) -> (next: Self)
        ensures
            next@ == self@.consumed(data@),
            next@.well_formed(),
    {
        proof {
            use_type_invariant(self);
        }
        let ghost pending = self.buffer@ + data@;
        let held: usize = self.buffer.len();
        let mut accumulator: Accumulator = self.accumulator;
        let mut buffer: Vec<u8> = Vec::new();
        let mut taken: usize = 0;
        if data.len() >= 64 - held {
            // The buffered bytes and the first bytes of `data` make up a block.
            buffer.extend_from_slice(self.buffer.as_slice());
            buffer.extend_from_slice(&data[0..64 - held]);
            assert(buffer@ =~= pending.subrange(0, 64));
            accumulator = compress_block(accumulator, buffer.as_slice());
            buffer = Vec::new();
            taken = 64 - held;
            // The blocks that follow are read from `data` where they lie.
            let whole: usize = (data.len() - taken) - (data.len() - taken) % 64;
            let ghost first = accumulator;
            accumulator = compress(&data[taken..taken + whole], accumulator);
            proof {
                let front = pending.subrange(0, 64);
                let back = data@.subrange(taken as int, taken + whole);
                let blocks = (whole / 64) as nat;
                assert(front.subrange(0, 64) =~= front);
                assert(first == compressed_all(self.accumulator, front)) by {
                    reveal_with_fuel(compressed_blocks, 2);
                }
                lemma_compressed_blocks_of_concat(self.accumulator, front, back, blocks);
                assert((front + back).take(64 + whole) =~= pending.take(64 + whole));
                lemma_compressed_blocks_of_prefix(
                    self.accumulator,
                    front + back,
                    pending,
                    1 + blocks,
                );
            }
            taken = taken + whole;
        } else {
            buffer.extend_from_slice(self.buffer.as_slice());
        }
        buffer.extend_from_slice(&data[taken..data.len()]);
        assert(buffer@ =~= pending.skip(64 * (pending.len() as int / 64)));
        Self { buffer, length: self.length.wrapping_add(data.len() as u64), accumulator }
    }

    /// The digest of everything taken in so far. `self` stays as it is, and may
    /// be read again or take in more.
    pub fn digest(&self) -> (digest: u128)
        ensures
            digest == self@.digest(),
    {
        let preprocessed: Vec<u8> = Self::preprocess(
            self.buffer.as_slice(),
            self.length.wrapping_mul(8),
        );
        Self::calculate_chunks(
            preprocessed.as_slice(),
            self.accumulator.a,
            self.accumulator.b,
            self.accumulator.c,
            self.accumulator.d,
        )
    }

    /// The MD5 digest of `input`: what `digest` reads after `consume` has taken
    /// in all of `input` from the initial state.
    pub fn calculate(input: &[u8]) -> (digest: u128)
        ensures
            digest == md5(input@),
            digest == State::initial().consumed(input@).digest(),
    {
        proof {
            lemma_digest_of_consumed(input@);
        }
        Self::new().consume(input).digest()
    }
}

} // verus!

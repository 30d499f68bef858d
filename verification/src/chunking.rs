//! How the incremental interface relates to the one-shot one: a message gives
//! the same digest however it is cut into pieces.

use vstd::prelude::*;
use crate::compress::{
    compressed_all, initial_accumulator, lemma_compressed_blocks_of_concat,
    lemma_compressed_blocks_of_prefix,
};
use crate::md5_core::{State, bit_length, lemma_bit_length_wraps, md5};
use crate::padding::{lemma_padded_after_blocks, lemma_padded_length, padded};

verus! {

/// The state after each of `chunks` in turn.
pub open spec fn consumed_each(state: State, chunks: Seq<Seq<u8>>) -> State
    decreases chunks.len(),
{
    if chunks.len() == 0 {
        state
    } else {
        consumed_each(state, chunks.drop_last()).consumed(chunks.last())
    }
}

/// The digest depends on the bytes of the message and on nothing else: messages
/// of one length that agree byte for byte have one digest.
pub proof fn lemma_same_bytes_same_digest(x: Seq<u8>, y: Seq<u8>)
    requires
        x.len() == y.len(),
        forall|i: int| 0 <= i < x.len() ==> x[i] == y[i],
    ensures
        md5(x) == md5(y),
{
    assert(x =~= y);
}

/// Reading a digest depends on what the state holds and on nothing else: states
/// that hold the same give the same digest, however often it is read.
pub proof fn lemma_same_state_same_digest(state: State, other: State)
    requires
        state.accumulator == other.accumulator,
        state.length == other.length,
        state.buffer.len() == other.buffer.len(),
        forall|i: int| 0 <= i < state.buffer.len() ==> state.buffer[i] == other.buffer[i],
    ensures
        state.digest() == other.digest(),
{
    assert(state.buffer =~= other.buffer);
}

/// Taking in no bytes leaves the state as it is.
pub proof fn lemma_consumed_nothing(state: State)
    requires
        state.well_formed(),
    ensures
        state.consumed(Seq::empty()) == state,
{
    let pending = state.buffer + Seq::<u8>::empty();
    assert(pending =~= state.buffer);
    assert(pending.len() / 64 == 0);
    assert(pending.skip(0) =~= state.buffer);
}

/// Taking in `x` and then `y` leaves the state that taking in `x + y` at once
/// leaves.
pub proof fn lemma_consumed_twice(state: State, x: Seq<u8>, y: Seq<u8>)
    ensures
        state.consumed(x).consumed(y) == state.consumed(x + y),
{
    let first = state.buffer + x;
    let first_whole = 64 * (first.len() as int / 64);
    let middle = state.consumed(x);
    let second = middle.buffer + y;
    let second_whole = 64 * (second.len() as int / 64);
    let both = state.buffer + (x + y);
    let front = first.take(first_whole);
    assert(both =~= front + second);
    assert(front.take(first_whole) =~= first.take(first_whole));
    lemma_compressed_blocks_of_prefix(
        state.accumulator,
        front,
        first,
        (first.len() / 64) as nat,
    );
    lemma_compressed_blocks_of_concat(
        state.accumulator,
        front,
        second,
        (second.len() / 64) as nat,
    );
    assert(both.skip(first_whole + second_whole) =~= second.skip(second_whole));
}

/// The digest read after taking in `message` from the initial state is the MD5
/// digest of `message`.
pub proof fn lemma_digest_of_consumed(message: Seq<u8>)
    ensures
        State::initial().consumed(message).digest() == md5(message),
{
    let state = State::initial().consumed(message);
    let blocks = (message.len() / 64) as nat;
    let whole: int = 64 * (blocks as int);
    let bits = bit_length(message.len());
    let front = message.take(whole);
    let back = padded(message.skip(whole), bits);
    assert(state.accumulator == compressed_all(initial_accumulator(), front)) by {
        assert(Seq::<u8>::empty() + message =~= message);
        assert(front.take(whole) =~= message.take(whole));
        lemma_compressed_blocks_of_prefix(initial_accumulator(), front, message, blocks);
    }
    assert(state.buffer == message.skip(whole)) by {
        assert(Seq::<u8>::empty() + message =~= message);
    }
    assert(bit_length(state.length as nat) == bits) by {
        lemma_bit_length_wraps(0, message.len());
    }
    assert(compressed_all(initial_accumulator(), front + back) == compressed_all(
        state.accumulator,
        back,
    )) by {
        lemma_padded_length(message.skip(whole), bits);
        lemma_compressed_blocks_of_concat(
            initial_accumulator(),
            front,
            back,
            (back.len() / 64) as nat,
        );
    }
    lemma_padded_after_blocks(message, whole, bits);
}

/// A message taken in as two pieces, cut anywhere, gives the digest of the
/// whole message.
pub proof fn lemma_digest_of_two_pieces(x: Seq<u8>, y: Seq<u8>)
    ensures
        State::initial().consumed(x).consumed(y).digest() == md5(x + y),
{
    lemma_consumed_twice(State::initial(), x, y);
    lemma_digest_of_consumed(x + y);
}

/// Taking in pieces one after another leaves the state that taking in their
/// concatenation at once leaves.
pub proof fn lemma_consumed_each(state: State, chunks: Seq<Seq<u8>>)
    requires
        state.well_formed(),
    ensures
        consumed_each(state, chunks) == state.consumed(chunks.flatten()),
    decreases chunks.len(),
{
    if chunks.len() == 0 {
        assert(chunks.flatten() =~= Seq::<u8>::empty());
        lemma_consumed_nothing(state);
    } else {
        let before = chunks.drop_last();
        lemma_consumed_each(state, before);
        lemma_consumed_twice(state, before.flatten(), chunks.last());
        before.lemma_flatten_push(chunks.last());
        assert(before.push(chunks.last()) =~= chunks);
    }
}

/// A message taken in as any number of pieces, empty ones and single bytes
/// included, gives the digest of the whole message.
pub proof fn lemma_digest_of_pieces(chunks: Seq<Seq<u8>>)
    ensures
        consumed_each(State::initial(), chunks).digest() == md5(chunks.flatten()),
{
    lemma_consumed_each(State::initial(), chunks);
    lemma_digest_of_consumed(chunks.flatten());
}

} // verus!

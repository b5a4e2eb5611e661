//! The header checksum: the exclusive-or of the header's 32-bit
//! little-endian words.

use crate::util::le_u32;
use vstd::prelude::*;

verus! {

/// Where the checksum field starts in a header.
pub const CHECKSUM_OFFSET: usize = 12;

/// The byte at `index`, or zero past the end.
pub open spec fn byte_or_zero(bytes: Seq<u8>, index: int) -> u8 {
    if 0 <= index < bytes.len() {
        bytes[index]
    } else {
        0
    }
}

/// Four bytes read as a little-endian word.
pub open spec fn word_of(b0: u8, b1: u8, b2: u8, b3: u8) -> u32 {
    (b0 as u32) | ((b1 as u32) << 8) | ((b2 as u32) << 16) | ((b3 as u32) << 24)
}

/// The `index`-th little-endian word of `bytes`; a last word that is cut
/// short is filled up with zero bytes.
pub open spec fn word_at(bytes: Seq<u8>, index: int) -> u32 {
    word_of(
        byte_or_zero(bytes, 4 * index),
        byte_or_zero(bytes, 4 * index + 1),
        byte_or_zero(bytes, 4 * index + 2),
        byte_or_zero(bytes, 4 * index + 3),
    )
}

/// The number of words that `len` bytes take up, a cut-off one included.
pub open spec fn word_count(len: nat) -> nat {
    ((len + 3) / 4) as nat
}

/// The exclusive-or of the first `count` words of `bytes`.
pub open spec fn xor_words(bytes: Seq<u8>, count: nat) -> u32
    decreases count,
{
    if count == 0 {
        0
    } else {
        xor_words(bytes, (count - 1) as nat) ^ word_at(bytes, count - 1)
    }
}

/// The exclusive-or of all words of `bytes`.
pub open spec fn xor_fold(bytes: Seq<u8>) -> u32 {
    xor_words(bytes, word_count(bytes.len()))
}

/// `bytes` with the four bytes at the checksum field replaced by `word`.
pub open spec fn with_word_at_checksum(bytes: Seq<u8>, word: u32) -> Seq<u8> {
    bytes.subrange(0, CHECKSUM_OFFSET as int) + le_u32(word) + bytes.subrange(
        CHECKSUM_OFFSET + 4,
        bytes.len() as int,
    )
}

/// `bytes` with the exclusive-or of all its words written over the checksum
/// field.
pub open spec fn with_checksum(bytes: Seq<u8>) -> Seq<u8> {
    with_word_at_checksum(bytes, xor_fold(bytes))
}

proof fn lemma_word_roundtrip(word: u32)
    ensures
        word_of(
            (word & 0xff) as u8,
            ((word >> 8) & 0xff) as u8,
            ((word >> 16) & 0xff) as u8,
            ((word >> 24) & 0xff) as u8,
        ) == word,
{
    assert((((word & 0xff) as u8) as u32) | ((((word >> 8) & 0xff) as u8) as u32) << 8 | ((((word
        >> 16) & 0xff) as u8) as u32) << 16 | ((((word >> 24) & 0xff) as u8) as u32) << 24 == word)
        by (bit_vector);
}

/// Words that agree give the same exclusive-or.
proof fn lemma_xor_words_agree(a: Seq<u8>, b: Seq<u8>, count: nat)
    requires
        forall|i: int| 0 <= i < count ==> word_at(a, i) == word_at(b, i),
    ensures
        xor_words(a, count) == xor_words(b, count),
    decreases count,
{
    if count > 0 {
        lemma_xor_words_agree(a, b, (count - 1) as nat);
    }
}

/// Replacing one word changes the exclusive-or by the old and the new word.
proof fn lemma_xor_words_replace(a: Seq<u8>, b: Seq<u8>, count: nat, at: int)
    requires
        0 <= at < count,
        forall|i: int| 0 <= i < count && i != at ==> word_at(a, i) == word_at(b, i),
    ensures
        xor_words(b, count) == xor_words(a, count) ^ word_at(a, at) ^ word_at(b, at),
    decreases count,
{
    let last = count - 1;
    let x = xor_words(a, last as nat);
    let old_word = word_at(a, at);
    let new_word = word_at(b, at);
    if at == last {
        lemma_xor_words_agree(a, b, last as nat);
        assert(x ^ new_word == ((x ^ old_word) ^ old_word) ^ new_word) by (bit_vector);
    } else {
        lemma_xor_words_replace(a, b, last as nat, at);
        let w = word_at(a, last);
        assert(((x ^ old_word) ^ new_word) ^ w == ((x ^ w) ^ old_word) ^ new_word)
            by (bit_vector);
    }
}

/// The header checksum closes the header: once the exclusive-or of all
/// words of a buffer, taken with a zero checksum field, is written into
/// that field, the exclusive-or of all words of the buffer is zero.
pub proof fn lemma_checksum_folds_to_zero(bytes: Seq<u8>)
    requires
        bytes.len() >= CHECKSUM_OFFSET + 4,
        word_at(bytes, 3) == 0,
    ensures
        xor_fold(with_checksum(bytes)) == 0,
        with_checksum(bytes).len() == bytes.len(),
{
    let sum = xor_fold(bytes);
    let closed = with_checksum(bytes);
    let count = word_count(bytes.len());
    assert(closed.len() == bytes.len());
    lemma_word_roundtrip(sum);
    assert(closed[12] == le_u32(sum)[0]);
    assert(closed[13] == le_u32(sum)[1]);
    assert(closed[14] == le_u32(sum)[2]);
    assert(closed[15] == le_u32(sum)[3]);
    assert(word_at(closed, 3) == sum);
    assert forall|i: int| 0 <= i < count && i != 3 implies word_at(bytes, i) == word_at(
        closed,
        i,
    ) by {
        assert(forall|k: int|
            0 <= k < bytes.len() && !(12 <= k < 16) ==> closed[k] == bytes[k]);
    }
    lemma_xor_words_replace(bytes, closed, count, 3);
    assert((sum ^ 0u32) ^ sum == 0) by (bit_vector);
}

/// Reads the word that starts at `4 * index`, filling a cut-off word with
/// zero bytes.
fn read_word(buffer: &Vec<u8>, index: usize) -> (word: u32)
    requires
        4 * index < buffer@.len(),
    ensures
        word == word_at(buffer@, index as int),
{
    let len: usize = buffer.len();
    let start: usize = 4 * index;
    let b0: u8 = buffer[start];
    let b1: u8 = if len - start > 1 {
        buffer[start + 1]
    } else {
        0
    };
    let b2: u8 = if len - start > 2 {
        buffer[start + 2]
    } else {
        0
    };
    let b3: u8 = if len - start > 3 {
        buffer[start + 3]
    } else {
        0
    };
    (b0 as u32) | ((b1 as u32) << 8) | ((b2 as u32) << 16) | ((b3 as u32) << 24)
}

/// Computes the exclusive-or of all words of `buffer`.
pub fn checksum_of(buffer: &Vec<u8>) -> (sum: u32)
    ensures
        sum == xor_fold(buffer@),
{
    let len: usize = buffer.len();
    let mut sum: u32 = 0;
    let mut index: usize = 0;
    let extra: usize = if len % 4 == 0 {
        0
    } else {
        1
    };
    let count: usize = len / 4 + extra;
    while index < count
        invariant
            len == buffer@.len(),
            count == word_count(len as nat),
            index <= count,
            sum == xor_words(buffer@, index as nat),
        decreases word_count(len as nat) - index,
    {
        let word: u32 = read_word(buffer, index);
        sum = sum ^ word;
        index += 1;
    }
    sum
}

/// Calculates the checksum of a serialized header and writes it into the
/// header's checksum field.
pub fn inject_checksum(buffer: &mut Vec<u8>)
    requires
        old(buffer)@.len() >= CHECKSUM_OFFSET + 4,
    ensures
        final(buffer)@ == with_checksum(old(buffer)@),
{
    let sum: u32 = checksum_of(buffer);
    buffer[12] = (sum & 0xff) as u8;
    buffer[13] = ((sum >> 8) & 0xff) as u8;
    buffer[14] = ((sum >> 16) & 0xff) as u8;
    buffer[15] = ((sum >> 24) & 0xff) as u8;
    assert(buffer@ =~= with_checksum(old(buffer)@));
}

} // verus!

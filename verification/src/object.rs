//! The object format: a program's words as bytes, each word little-endian,
//! with no header and nothing between the words.

use vstd::prelude::*;

verus! {

/// The low byte of a word.
pub open spec fn low_byte(word: u16) -> u8 {
    (word & 0xFF) as u8
}

/// The high byte of a word.
pub open spec fn high_byte(word: u16) -> u8 {
    (word >> 8) as u8
}

/// The word with the given low and high byte.
pub open spec fn word_of(low: u8, high: u8) -> u16 {
    (low as u16) | ((high as u16) << 8)
}

/// The bytes of `words`: for each word in order, its low byte, then its high
/// byte.
pub open spec fn encode_words(words: Seq<u16>) -> Seq<u8> {
    Seq::new(
        2 * words.len(),
        |i: int|
            if i % 2 == 0 {
                low_byte(words[i / 2])
            } else {
                high_byte(words[i / 2])
            },
    )
}

/// The words that `bytes` hold, two bytes to a word. A last byte without a
/// partner is left out.
pub open spec fn decode_words(bytes: Seq<u8>) -> Seq<u16> {
    Seq::new((bytes.len() / 2) as nat, |i: int| word_of(bytes[2 * i], bytes[2 * i + 1]))
}

/// Writes words as bytes.
pub fn to_bytes(words: &Vec<u16>) -> (bytes: Vec<u8>)
    ensures
        bytes@ == encode_words(words@),
{
    let mut bytes: Vec<u8> = Vec::new();
    let mut i: usize = 0;
    while i < words.len()
        invariant
            i <= words@.len(),
            bytes@ == encode_words(words@.subrange(0, i as int)),
        decreases words@.len() - i,
    {
        let word: u16 = words[i];
        assert(word & 0xFF < 0x100 && word >> 8 < 0x100) by (bit_vector);
        bytes.push((word & 0xFF) as u8);
        bytes.push((word >> 8) as u8);
        i += 1;
        assert(bytes@ =~= encode_words(words@.subrange(0, i as int)));
    }
    assert(words@.subrange(0, i as int) =~= words@);
    bytes
}

/// Reads bytes as words.
pub fn from_bytes(bytes: &Vec<u8>) -> (words: Vec<u16>)
    ensures
        words@ == decode_words(bytes@),
{
    let count: usize = bytes.len() / 2;
    let mut words: Vec<u16> = Vec::new();
    let mut i: usize = 0;
    while i < count
        invariant
            i <= count,
            count == bytes@.len() / 2,
            2 * count <= bytes@.len() <= usize::MAX,
            words@.len() == i,
            forall|j: int| 0 <= j < i ==> words@[j] == word_of(bytes@[2 * j], bytes@[2 * j + 1]),
        decreases count - i,
    {
        let low: u8 = bytes[2 * i];
        let high: u8 = bytes[2 * i + 1];
        words.push((low as u16) | ((high as u16) << 8));
        i += 1;
    }
    assert(words@ =~= decode_words(bytes@));
    words
}

/// Words that are written as bytes and read back are the same words.
pub proof fn lemma_object_round_trip(words: Seq<u16>)
    ensures
        decode_words(encode_words(words)) == words,
{
    let bytes = encode_words(words);
    assert forall|i: int| 0 <= i < words.len() implies decode_words(bytes)[i] == words[i] by {
        let w = words[i];
        assert(bytes[2 * i] == low_byte(w));
        assert(bytes[2 * i + 1] == high_byte(w));
        assert((((w & 0xFF) as u8) as u16) | ((((w >> 8) as u8) as u16) << 8) == w)
            by (bit_vector);
    }
    assert(decode_words(bytes) =~= words);
}

} // verus!

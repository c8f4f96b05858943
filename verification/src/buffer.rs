//! The buffer discipline shared by every fixed-width field of a frame.

use vstd::prelude::*;

verus! {

/// Width in bytes of every measurement frame on the wire.
pub const BUFFER_SIZE: usize = 1024;

/// What a field of `width` bytes holds once `source` has been written into it
/// left-justified: `source` cut to `width` bytes, then zero bytes to the end.
pub open spec fn fitted(source: Seq<u8>, width: nat) -> Seq<u8> {
    Seq::new(width, |i: int| if i < source.len() { source[i] } else { 0u8 })
}

/// The width of the region that starts at `start` in a buffer of `total`
/// bytes: `length` where one is given, else everything up to the end.
pub open spec fn region_width(total: nat, start: nat, length: Option<usize>) -> nat {
    match length {
        Some(n) => n as nat,
        None => (total - start) as nat,
    }
}

/// Writes `source_slice` into the region of `bytes` that starts at `start`.
///
/// The region is `length` bytes wide, or runs to the end of the buffer when
/// `length` is `None`. A source longer than the region is cut to fit; a
/// shorter one is followed by zero bytes up to the region's end. Bytes outside
/// the region keep their value, and the buffer keeps its length.
pub fn write_into_buffer<'a>(
    bytes: &'a mut Vec<u8>,
    source_slice: &[u8],
    start: usize,
    length: Option<usize>,
) -> (written: &'a Vec<u8>)
    requires
        start <= old(bytes).len(),
        length matches Some(n) ==> start + n <= old(bytes).len(),
    ensures
        final(bytes)@ == old(bytes)@.subrange(0, start as int) + fitted(
            source_slice@,
            region_width(old(bytes).len() as nat, start as nat, length),
        ) + old(bytes)@.subrange(
            start + region_width(old(bytes).len() as nat, start as nat, length),
            old(bytes).len() as int,
        ),
        written@ == final(bytes)@,
{
    let length: usize = match length {
        Some(v) => v,
        None => bytes.len() - start,
    };
    let ghost before = bytes@;
    let mut i: usize = 0;
    while i < length
        invariant
            i <= length,
            start + length <= bytes.len(),
            bytes.len() == before.len(),
            forall|k: int| 0 <= k < start ==> bytes[k] == before[k],
            forall|k: int| start + length <= k < bytes.len() ==> bytes[k] == before[k],
            forall|k: int| 0 <= k < i ==> bytes[start + k] == fitted(source_slice@, length as nat)[k],
        decreases length - i,
    {
        let byte: u8 = if i < source_slice.len() { source_slice[i] } else { 0u8 };
        bytes.set(start + i, byte);
        i += 1;
    }
    bytes
}

/// The four bytes of `word`, least significant first.
pub open spec fn word_bytes(word: u32) -> Seq<u8> {
    seq![
        (word & 0xff) as u8,
        ((word >> 8) & 0xff) as u8,
        ((word >> 16) & 0xff) as u8,
        ((word >> 24) & 0xff) as u8,
    ]
}

/// The word whose bytes are these four, least significant first.
pub open spec fn word_of(b0: u8, b1: u8, b2: u8, b3: u8) -> u32 {
    (b0 as u32) | ((b1 as u32) << 8) | ((b2 as u32) << 16) | ((b3 as u32) << 24)
}

/// The bytes of `words` in a row, each word least significant byte first.
pub open spec fn words_bytes(words: Seq<u32>) -> Seq<u8> {
    Seq::new(4 * words.len(), |i: int| word_bytes(words[i / 4])[i % 4])
}

/// The words that `bytes` hold, four bytes to a word, least significant
/// first. Up to three bytes at the end that fill no word are left out.
pub open spec fn bytes_words(bytes: Seq<u8>) -> Seq<u32> {
    Seq::new(
        bytes.len() / 4,
        |k: int| word_of(bytes[4 * k], bytes[4 * k + 1], bytes[4 * k + 2], bytes[4 * k + 3]),
    )
}

/// A word is the word of its bytes.
pub proof fn lemma_word_round_trip(word: u32)
    ensures
        word_of(
            word_bytes(word)[0],
            word_bytes(word)[1],
            word_bytes(word)[2],
            word_bytes(word)[3],
        ) == word,
{
    assert(((word & 0xff) as u8 as u32) | ((((word >> 8) & 0xff) as u8 as u32) << 8) | ((((word
        >> 16) & 0xff) as u8 as u32) << 16) | ((((word >> 24) & 0xff) as u8 as u32) << 24) == word)
        by (bit_vector);
}

/// The words of the bytes of `words` are `words`.
pub proof fn lemma_words_round_trip(words: Seq<u32>)
    ensures
        bytes_words(words_bytes(words)) == words,
{
    let bytes = words_bytes(words);
    assert forall|k: int| 0 <= k < words.len() implies bytes_words(bytes)[k] == words[k] by {
        lemma_word_round_trip(words[k]);
    }
}

/// The bytes of the first `limit` of `words`, or of all where there are
/// fewer.
pub fn words_to_bytes(words: &Vec<u32>, limit: usize) -> (bytes: Vec<u8>)
    requires
        4 * limit <= usize::MAX,
    ensures
        bytes@ == words_bytes(
            words@.take(if limit <= words.len() { limit as int } else { words.len() as int }),
        ),
{
    let count = if limit <= words.len() { limit } else { words.len() };
    let ghost taken = words@.take(count as int);
    let mut bytes: Vec<u8> = Vec::new();
    let mut k: usize = 0;
    while k < count
        invariant
            k <= count <= words.len(),
            4 * count <= usize::MAX,
            taken == words@.take(count as int),
            bytes.len() == 4 * k,
            forall|i: int| 0 <= i < 4 * k ==> bytes[i] == words_bytes(taken)[i],
        decreases count - k,
    {
        let word = words[k];
        bytes.push((word & 0xff) as u8);
        bytes.push(((word >> 8) & 0xff) as u8);
        bytes.push(((word >> 16) & 0xff) as u8);
        bytes.push(((word >> 24) & 0xff) as u8);
        k += 1;
    }
    bytes
}

/// The words that `bytes` hold.
pub fn bytes_to_words(bytes: &[u8]) -> (words: Vec<u32>)
    ensures
        words@ == bytes_words(bytes@),
{
    let count = bytes.len() / 4;
    let mut words: Vec<u32> = Vec::new();
    let mut k: usize = 0;
    while k < count
        invariant
            k <= count,
            count == bytes.len() / 4,
            words.len() == k,
            forall|i: int| 0 <= i < k ==> words[i] == bytes_words(bytes@)[i],
        decreases count - k,
    {
        let b0 = bytes[4 * k];
        let b1 = bytes[4 * k + 1];
        let b2 = bytes[4 * k + 2];
        let b3 = bytes[4 * k + 3];
        words.push((b0 as u32) | ((b1 as u32) << 8) | ((b2 as u32) << 16) | ((b3 as u32) << 24));
        k += 1;
    }
    words
}

} // verus!

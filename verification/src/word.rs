//! Little-endian 32-bit words, the unit in which the header is laid out.

use byteorder::{ByteOrder, LittleEndian};
use vstd::prelude::*;
use vstd::slice::slice_subrange;

verus! {

/// Bytes in one word.
pub const WORD_BYTES: usize = 4;

/// The word that four bytes spell in little-endian order: the first byte is
/// the least significant.
pub open spec fn le_word(bytes: Seq<u8>) -> u32
    recommends
        bytes.len() >= 4,
{
    (bytes[0] + 0x100 * bytes[1] + 0x1_0000 * bytes[2] + 0x100_0000 * bytes[3]) as u32
}

/// The four bytes that spell `word` in little-endian order.
pub open spec fn le_bytes(word: u32) -> Seq<u8> {
    seq![
        (word % 0x100) as u8,
        (word / 0x100 % 0x100) as u8,
        (word / 0x1_0000 % 0x100) as u8,
        (word / 0x100_0000) as u8,
    ]
}

/// Whether `image` holds all four bytes of the word with index `index`.
pub open spec fn holds_word(image: Seq<u8>, index: int) -> bool {
    0 <= index && 4 * index + 4 <= image.len()
}

/// The word with index `index` of `image`: the bytes from `4 * index` on.
pub open spec fn word_at(image: Seq<u8>, index: int) -> u32
    recommends
        holds_word(image, index),
{
    le_word(image.subrange(4 * index, 4 * index + 4))
}

/// `image` with the word of index `index` replaced by `word`.
pub open spec fn with_word(image: Seq<u8>, index: int, word: u32) -> Seq<u8>
    recommends
        holds_word(image, index),
{
    image.subrange(0, 4 * index) + le_bytes(word) + image.subrange(4 * index + 4, image.len() as int)
}

/// Encoding a word and decoding the bytes gives the word back.
pub proof fn theorem_decode_inverts_encode(word: u32)
    ensures
        le_bytes(word).len() == 4,
        le_word(le_bytes(word)) == word,
{
    let w = word as int;
    assert(w / 0x1_0000 == w / 0x100 / 0x100);
    assert(w / 0x100_0000 == w / 0x1_0000 / 0x100);
}

/// Decoding four bytes and encoding the word gives the bytes back.
pub proof fn theorem_encode_inverts_decode(bytes: Seq<u8>)
    requires
        bytes.len() == 4,
    ensures
        le_bytes(le_word(bytes)) == bytes,
{
    assert(le_bytes(le_word(bytes)) =~= bytes);
}

/// Calls `byteorder::LittleEndian::read_u32`, which decodes the first four
/// bytes of a slice as a little-endian `u32` and panics on a shorter slice.
/// Trusted: the result is `le_word` of the slice.
#[verifier::external_body]
fn decode_word(bytes: &[u8]) -> (word: u32)
    requires
        bytes@.len() >= 4,
    ensures
        word == le_word(bytes@),
{
    LittleEndian::read_u32(bytes)
}

/// Calls `byteorder::LittleEndian::write_u32` on a fresh buffer of four
/// bytes, which it fills with the little-endian encoding of `word`.
/// Trusted: the buffer then holds `le_bytes(word)`.
#[verifier::external_body]
fn encode_word(word: u32) -> (bytes: [u8; 4])
    ensures
        bytes@ == le_bytes(word),
{
    let mut bytes = [0u8; 4];
    LittleEndian::write_u32(&mut bytes, word);
    bytes
}

/// Reads the word with index `index`, or nothing where the image ends
/// before the last byte of that word.
pub fn read_word(image: &[u8], index: usize) -> (word: Option<u32>)
    ensures
        holds_word(image@, index as int) ==> word == Some(word_at(image@, index as int)),
        !holds_word(image@, index as int) ==> word.is_none(),
{
    if index < image.len() / WORD_BYTES {
        let start: usize = index * WORD_BYTES;
        let field = slice_subrange(image, start, start + WORD_BYTES);
        Some(decode_word(field))
    } else {
        None
    }
}

/// Writes `word` over the word with index `index` and leaves every other
/// byte as it was. Where the image ends before the last byte of that word,
/// nothing is written and the answer is `false`.
pub fn write_word(image: &mut [u8], index: usize, word: u32) -> (written: bool)
    ensures
        written == holds_word(old(image)@, index as int),
        written ==> final(image)@ == with_word(old(image)@, index as int, word),
        !written ==> final(image)@ == old(image)@,
{
    if index >= image.len() / WORD_BYTES {
        return false;
    }
    let bytes = encode_word(word);
    let start: usize = index * WORD_BYTES;
    let mut k: usize = 0;
    while k < WORD_BYTES
        invariant
            k <= WORD_BYTES,
            start == 4 * index,
            start + 4 <= image@.len(),
            image@.len() == old(image)@.len(),
            forall|j: int|
                0 <= j < image@.len() ==> image@[j] == (if start <= j < start + k {
                    bytes@[j - start]
                } else {
                    old(image)@[j]
                }),
        decreases WORD_BYTES - k,
    {
        image[start + k] = bytes[k];
        k += 1;
    }
    assert(image@ =~= with_word(old(image)@, index as int, word));
    true
}

} // verus!

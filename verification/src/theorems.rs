//! What holds of the checksum and of the patch, for every image.

use crate::checksum::{
    checksum_of, checksum_outcome, lemma_wrapped_sum, patched, well_formed, word_total, wrapped,
};
use crate::error::HeaderError;
use crate::header::{
    declared_length, declared_words, has_signature, header_fault, region_len, CHECKSUM_STAND_IN,
};
use crate::word::{holds_word, le_bytes, theorem_decode_inverts_encode, with_word, word_at};
use vstd::prelude::*;

verus! {

/// Whether `a` and `b` are of one length and differ at most in the four
/// bytes of the checksum field.
pub open spec fn same_but_checksum_field(a: Seq<u8>, b: Seq<u8>) -> bool {
    &&& a.len() == b.len()
    &&& forall|j: int| 0 <= j < a.len() && !(12 <= j < 16) ==> a[j] == b[j]
}

/// Two images that differ at most in the checksum field agree in every
/// other word.
proof fn lemma_same_words(a: Seq<u8>, b: Seq<u8>, index: int)
    requires
        same_but_checksum_field(a, b),
        holds_word(a, index),
        index != 3,
    ensures
        word_at(a, index) == word_at(b, index),
{
    assert(a.subrange(4 * index, 4 * index + 4) =~= b.subrange(4 * index, 4 * index + 4));
}

/// Two images that differ at most in the checksum field have the same sum
/// over any number of words that they hold.
proof fn lemma_same_total(a: Seq<u8>, b: Seq<u8>, count: nat)
    requires
        same_but_checksum_field(a, b),
        4 * count <= a.len(),
    ensures
        word_total(a, count) == word_total(b, count),
    decreases count,
{
    if count > 0 {
        lemma_same_total(a, b, (count - 1) as nat);
        if count - 1 != 3 {
            lemma_same_words(a, b, count - 1);
        }
    }
}

/// Two images that differ at most in the checksum field have the same
/// header.
proof fn lemma_same_header(a: Seq<u8>, b: Seq<u8>)
    requires
        same_but_checksum_field(a, b),
    ensures
        has_signature(a) == has_signature(b),
        header_fault(a) == header_fault(b),
        a.len() >= 20 ==> declared_length(a) == declared_length(b),
{
    if a.len() >= 12 {
        assert(a.subrange(4, 12) =~= b.subrange(4, 12));
    }
    if a.len() >= 20 {
        lemma_same_words(a, b, 4);
    }
}

/// The value stored in the checksum field has no part in the result: two
/// images that differ at most in that field are accepted or refused alike,
/// with the same checksum or for the same reason.
pub proof fn theorem_stored_checksum_ignored(a: Seq<u8>, b: Seq<u8>)
    requires
        same_but_checksum_field(a, b),
    ensures
        checksum_outcome(a) == checksum_outcome(b),
{
    lemma_same_header(a, b);
    if well_formed(a) {
        lemma_same_total(a, b, declared_words(a));
    }
}

/// The patch changes the checksum field and nothing else, and what it
/// stores there is the little-endian encoding of the checksum.
pub proof fn theorem_patch_touches_checksum_field_only(image: Seq<u8>)
    ensures
        same_but_checksum_field(image, patched(image)),
        checksum_outcome(image) matches Ok(checksum) ==> {
            &&& patched(image).subrange(12, 16) == le_bytes(checksum)
            &&& word_at(patched(image), 3) == checksum
        },
        checksum_outcome(image) is Err ==> patched(image) == image,
{
    if let Ok(checksum) = checksum_outcome(image) {
        theorem_decode_inverts_encode(checksum);
        assert(patched(image).subrange(12, 16) =~= le_bytes(checksum));
    }
}

/// Patching is idempotent: an image that was patched has the checksum, or
/// is refused for the reason, that it had before, and a second patch
/// leaves it as the first one made it.
pub proof fn theorem_patch_idempotent(image: Seq<u8>)
    ensures
        checksum_outcome(patched(image)) == checksum_outcome(image),
        patched(patched(image)) == patched(image),
{
    theorem_patch_touches_checksum_field_only(image);
    theorem_stored_checksum_ignored(image, patched(image));
    if let Ok(checksum) = checksum_outcome(image) {
        assert(with_word(with_word(image, 3, checksum), 3, checksum) =~= with_word(
            image,
            3,
            checksum,
        ));
    }
}

/// Every word after the checksum field enters the sum with the value that
/// the image holds: one word more adds that word, modulo 2^32.
pub proof fn theorem_later_words_count_as_stored(image: Seq<u8>, count: nat)
    requires
        count >= 4,
    ensures
        word_total(image, count + 1) == word_total(image, count) + word_at(image, count as int),
        checksum_of(image, count + 1) == wrapped(
            checksum_of(image, count) + word_at(image, count as int),
        ),
{
    lemma_wrapped_sum(word_total(image, count), word_at(image, count as int) as int);
}

/// An image that declares the four words up to the checksum, and no more,
/// has as its checksum the sum of its first three words and the stand-in,
/// modulo 2^32.
pub proof fn theorem_four_word_checksum(image: Seq<u8>)
    requires
        has_signature(image),
        image.len() >= 20,
        declared_length(image) == 16,
    ensures
        checksum_outcome(image) == Ok::<u32, HeaderError>(
            wrapped(
                word_at(image, 0) + word_at(image, 1) + word_at(image, 2) + CHECKSUM_STAND_IN,
            ),
        ),
        patched(image).subrange(0, 12) == image.subrange(0, 12),
        patched(image).subrange(12, 16) == le_bytes(
            wrapped(
                word_at(image, 0) + word_at(image, 1) + word_at(image, 2) + CHECKSUM_STAND_IN,
            ),
        ),
        patched(image).subrange(16, image.len() as int) == image.subrange(
            16,
            image.len() as int,
        ),
{
    reveal_with_fuel(word_total, 5);
    theorem_patch_touches_checksum_field_only(image);
    assert(patched(image).subrange(0, 12) =~= image.subrange(0, 12));
    assert(patched(image).subrange(16, image.len() as int) =~= image.subrange(
        16,
        image.len() as int,
    ));
}

/// An image that declares eight words has as its checksum the sum of the
/// stand-in and of all its words but the fourth, modulo 2^32.
pub proof fn theorem_eight_word_checksum(image: Seq<u8>)
    requires
        has_signature(image),
        image.len() >= 32,
        declared_length(image) == 32,
    ensures
        checksum_outcome(image) == Ok::<u32, HeaderError>(
            wrapped(
                word_at(image, 0) + word_at(image, 1) + word_at(image, 2) + CHECKSUM_STAND_IN
                    + word_at(image, 4) + word_at(image, 5) + word_at(image, 6) + word_at(
                    image,
                    7,
                ),
            ),
        ),
{
    reveal_with_fuel(word_total, 9);
}

/// The sum of the first `count` words as the image holds them, the
/// checksum field among them, not reduced.
pub open spec fn stored_total(image: Seq<u8>, count: nat) -> int
    decreases count,
{
    if count == 0 {
        0
    } else {
        stored_total(image, (count - 1) as nat) + word_at(image, count - 1)
    }
}

/// Of all the words that are summed only the checksum field is replaced:
/// the sum is that of the words as stored, less the stored checksum, plus
/// the stand-in.
pub proof fn theorem_only_checksum_field_replaced(image: Seq<u8>, count: nat)
    requires
        count >= 4,
    ensures
        word_total(image, count) == stored_total(image, count) - word_at(image, 3)
            + CHECKSUM_STAND_IN,
        checksum_of(image, count) == wrapped(
            stored_total(image, count) - word_at(image, 3) + CHECKSUM_STAND_IN,
        ),
    decreases count,
{
    if count == 4 {
        reveal_with_fuel(word_total, 5);
        reveal_with_fuel(stored_total, 5);
    } else {
        theorem_only_checksum_field_replaced(image, (count - 1) as nat);
    }
}

/// The words that lie within the first `n` bytes are the same in the image
/// and in its first `n` bytes, and so is their sum.
proof fn lemma_prefix_total(image: Seq<u8>, n: int, count: nat)
    requires
        4 * count <= n <= image.len(),
    ensures
        word_total(image.subrange(0, n), count) == word_total(image, count),
    decreases count,
{
    if count > 0 {
        lemma_prefix_total(image, n, (count - 1) as nat);
        let i = count - 1;
        assert(image.subrange(0, n).subrange(4 * i, 4 * i + 4) =~= image.subrange(
            4 * i,
            4 * i + 4,
        ));
    }
}

/// The first `n` bytes of an image have the header of the image, where they
/// reach to the end of the length field.
proof fn lemma_prefix_header(image: Seq<u8>, n: int)
    requires
        20 <= n <= image.len(),
    ensures
        has_signature(image.subrange(0, n)) == has_signature(image),
        declared_length(image.subrange(0, n)) == declared_length(image),
        header_fault(image.subrange(0, n)) == header_fault(image),
        region_len(image.subrange(0, n)) == region_len(image),
{
    let prefix = image.subrange(0, n);
    assert(prefix.subrange(4, 12) =~= image.subrange(4, 12));
    assert(prefix.subrange(16, 20) =~= image.subrange(16, 20));
}

/// Only the bytes that are read decide: an image and its first `n` bytes
/// are accepted or refused alike, and patched alike, where `n` is no less
/// than the number of bytes that are read.
pub proof fn theorem_bytes_behind_region_ignored(image: Seq<u8>, n: int)
    requires
        region_len(image) <= n <= image.len(),
    ensures
        region_len(image.subrange(0, n)) == region_len(image),
        checksum_outcome(image.subrange(0, n)) == checksum_outcome(image),
        patched(image) == patched(image.subrange(0, n)) + image.subrange(n, image.len() as int),
{
    let prefix = image.subrange(0, n);
    lemma_prefix_header(image, n);
    if header_fault(image) is None {
        if 4 * declared_words(image) <= n {
            lemma_prefix_total(image, n, declared_words(image));
        }
    }
    assert(patched(image) =~= patched(prefix) + image.subrange(n, image.len() as int));
}

/// The header alone tells how many bytes are read.
pub proof fn theorem_region_len_from_header(image: Seq<u8>)
    requires
        image.len() >= 20,
    ensures
        region_len(image.subrange(0, 20)) == region_len(image),
{
    lemma_prefix_header(image, 20);
}

} // verus!

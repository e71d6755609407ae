//! The checksum of an image and the patch that stores it.

use crate::error::HeaderError;
use crate::header::{
    declared_length, declared_words, has_signature, header_fault, read_declared_words,
    CHECKSUM_STAND_IN, CHECKSUM_WORD, MIN_WORDS,
};
use crate::word::{le_bytes, read_word, with_word, word_at, write_word};
use vstd::prelude::*;

verus! {

/// What the word with index `index` adds to the sum: its value, or the
/// stand-in where it is the checksum field.
pub open spec fn summand(image: Seq<u8>, index: int) -> u32 {
    if index == 3 {
        CHECKSUM_STAND_IN
    } else {
        word_at(image, index)
    }
}

/// The sum of what the first `count` words add, not reduced.
pub open spec fn word_total(image: Seq<u8>, count: nat) -> int
    decreases count,
{
    if count == 0 {
        0
    } else {
        word_total(image, (count - 1) as nat) + summand(image, count - 1)
    }
}

/// `total` reduced modulo 2^32.
pub open spec fn wrapped(total: int) -> u32 {
    (total % 0x1_0000_0000) as u32
}

/// The checksum over the first `count` words of `image`.
pub open spec fn checksum_of(image: Seq<u8>, count: nat) -> u32 {
    wrapped(word_total(image, count))
}

/// Whether `image` has a checksum: its header is in order, declares at
/// least the words up to the checksum, and the image holds every word that
/// the header declares.
pub open spec fn well_formed(image: Seq<u8>) -> bool {
    &&& header_fault(image) is None
    &&& declared_words(image) >= 4
    &&& 4 * declared_words(image) <= image.len()
}

/// The checksum of `image`, or the reason for which it has none.
pub open spec fn checksum_outcome(image: Seq<u8>) -> Result<u32, HeaderError> {
    match header_fault(image) {
        Some(fault) => Err(fault),
        None => if well_formed(image) {
            Ok(checksum_of(image, declared_words(image)))
        } else {
            Err(HeaderError::Truncated)
        },
    }
}

/// `image` after the patch: with its checksum in the checksum field, or as
/// it is where it has no checksum.
pub open spec fn patched(image: Seq<u8>) -> Seq<u8> {
    match checksum_outcome(image) {
        Ok(checksum) => with_word(image, 3, checksum),
        Err(_) => image,
    }
}

/// Reducing a sum whose first part was reduced before gives the reduced
/// sum of the parts.
pub proof fn lemma_wrapped_sum(total: int, term: int)
    ensures
        wrapped(wrapped(total) + term) == wrapped(total + term),
{
    let m = 0x1_0000_0000int;
    vstd::arithmetic::div_mod::lemma_add_mod_noop(total, term, m);
    vstd::arithmetic::div_mod::lemma_add_mod_noop(total % m, term, m);
    vstd::arithmetic::div_mod::lemma_mod_twice(total, m);
}

/// Sums the first `count` words of `image`, wrapping, with the stand-in
/// taken for the checksum field. Gives nothing where the image ends before
/// the last of them.
pub fn sum_words(image: &[u8], count: usize) -> (sum: Option<u32>)
    ensures
        4 * count <= image@.len() ==> sum == Some(checksum_of(image@, count as nat)),
        4 * count > image@.len() ==> sum.is_none(),
{
    let mut sum: u32 = 0;
    let mut i: usize = 0;
    while i < count
        invariant
            i <= count,
            4 * i <= image@.len(),
            sum == checksum_of(image@, i as nat),
        decreases count - i,
    {
        match read_word(image, i) {
            None => {
                return None;
            },
            Some(word) => {
                let term = if i == CHECKSUM_WORD {
                    CHECKSUM_STAND_IN
                } else {
                    word
                };
                proof {
                    lemma_wrapped_sum(word_total(image@, i as nat), term as int);
                }
                sum = sum.wrapping_add(term);
            },
        }
        i += 1;
    }
    Some(sum)
}

/// Computes the checksum of `image` without changing it.
pub fn compute_checksum(image: &[u8]) -> (res: Result<u32, HeaderError>)
    ensures
        res == checksum_outcome(image@),
        res is Ok <==> well_formed(image@),
        !has_signature(image@) ==> res == Err::<u32, HeaderError>(HeaderError::InvalidSignature),
        has_signature(image@) && image@.len() >= 20 && declared_length(image@) % 4 != 0 ==> res
            == Err::<u32, HeaderError>(HeaderError::MisalignedLength),
        has_signature(image@) && image@.len() >= 20 && declared_length(image@) % 4 == 0
            && declared_length(image@) / 4 < 4 ==> res == Err::<u32, HeaderError>(
            HeaderError::Truncated,
        ),
        image@.len() >= 20 && declared_length(image@) / 4 < 4 ==> res is Err,
{
    let count = read_declared_words(image)?;
    if count < MIN_WORDS {
        return Err(HeaderError::Truncated);
    }
    match sum_words(image, count as usize) {
        Some(sum) => Ok(sum),
        None => Err(HeaderError::Truncated),
    }
}

/// Computes the checksum of `image` and stores it in the checksum field,
/// little-endian. No other byte changes, and an image that is refused stays
/// as it is.
pub fn compute_and_patch_checksum(image: &mut [u8]) -> (res: Result<u32, HeaderError>)
    ensures
        res == checksum_outcome(old(image)@),
        final(image)@ == patched(old(image)@),
        res is Ok <==> well_formed(old(image)@),
        res matches Ok(checksum) ==> final(image)@.subrange(12, 16) == le_bytes(checksum),
        final(image)@.len() == old(image)@.len(),
        forall|j: int|
            0 <= j < old(image)@.len() && !(12 <= j < 16) ==> final(image)@[j] == old(image)@[j],
        res is Err ==> final(image)@ == old(image)@,
        !has_signature(old(image)@) ==> res == Err::<u32, HeaderError>(
            HeaderError::InvalidSignature,
        ),
        has_signature(old(image)@) && old(image)@.len() >= 20 && declared_length(old(image)@) % 4
            != 0 ==> res == Err::<u32, HeaderError>(HeaderError::MisalignedLength),
        has_signature(old(image)@) && old(image)@.len() >= 20 && declared_length(old(image)@) % 4
            == 0 && declared_length(old(image)@) / 4 < 4 ==> res == Err::<u32, HeaderError>(
            HeaderError::Truncated,
        ),
        old(image)@.len() >= 20 && declared_length(old(image)@) / 4 < 4 ==> res is Err,
{
    let checksum = compute_checksum(image)?;
    write_word(image, CHECKSUM_WORD, checksum);
    Ok(checksum)
}

} // verus!

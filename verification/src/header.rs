//! The fields of the header and the order in which they are checked.
//!
//! | offset | size | field                                   |
//! |--------|------|-----------------------------------------|
//! | 0      | 4    | not interpreted                         |
//! | 4      | 8    | signature, `eGON.BT0`                   |
//! | 12     | 4    | checksum                                |
//! | 16     | 4    | length of the image in bytes            |

use crate::error::HeaderError;
use crate::word::{holds_word, read_word, word_at, WORD_BYTES};
use vstd::prelude::*;

verus! {

/// Offset of the first byte of the signature.
pub const SIGNATURE_OFFSET: usize = 4;

/// Bytes in the signature.
pub const SIGNATURE_LEN: usize = 8;

/// Index of the word that holds the checksum.
pub const CHECKSUM_WORD: usize = 3;

/// Offset of the first byte of the checksum.
pub const CHECKSUM_OFFSET: usize = 12;

/// Index of the word that holds the length of the image.
pub const LENGTH_WORD: usize = 4;

/// Bytes from the start of the image to the end of the length field.
pub const HEADER_LEN: usize = 20;

/// The fewest words an image can declare: those up to and including the
/// checksum.
pub const MIN_WORDS: u32 = 4;

/// The value that stands in for the checksum field while the words are
/// summed. The boot ROM sums with the same value when it checks an image.
pub const CHECKSUM_STAND_IN: u32 = 0x5F0A_6C39;

/// The signature: the ASCII codes of `eGON.BT0`.
pub open spec fn signature() -> Seq<u8> {
    seq![0x65u8, 0x47u8, 0x4Fu8, 0x4Eu8, 0x2Eu8, 0x42u8, 0x54u8, 0x30u8]
}

/// Whether `image` is long enough to hold the signature and holds it. An
/// image that ends before the last byte of the signature does not hold it.
pub open spec fn has_signature(image: Seq<u8>) -> bool {
    image.len() >= 12 && image.subrange(4, 12) =~= signature()
}

/// The length in bytes that the header declares.
pub open spec fn declared_length(image: Seq<u8>) -> u32
    recommends
        holds_word(image, 4),
{
    word_at(image, 4)
}

/// The number of words that the header declares.
pub open spec fn declared_words(image: Seq<u8>) -> nat
    recommends
        holds_word(image, 4),
{
    (declared_length(image) / 4) as nat
}

/// What is wrong with the header of `image`, if anything. The fields are
/// checked in the order in which they lie: first the signature, then the
/// presence of the length, then its alignment.
pub open spec fn header_fault(image: Seq<u8>) -> Option<HeaderError> {
    if !has_signature(image) {
        Some(HeaderError::InvalidSignature)
    } else if image.len() < 20 {
        Some(HeaderError::Truncated)
    } else if declared_length(image) % 4 != 0 {
        Some(HeaderError::MisalignedLength)
    } else {
        None
    }
}

/// How many bytes from its start an image is read: the header, and with
/// it all that a header in order declares. What lies behind them has no
/// part in the checksum.
pub open spec fn region_len(image: Seq<u8>) -> nat {
    if header_fault(image) is None && declared_length(image) > 20 {
        declared_length(image) as nat
    } else {
        20
    }
}

/// Tests the signature.
pub fn check_signature(image: &[u8]) -> (found: bool)
    ensures
        found == has_signature(image@),
{
    if image.len() < SIGNATURE_OFFSET + SIGNATURE_LEN {
        return false;
    }
    let expected: [u8; 8] = [0x65, 0x47, 0x4F, 0x4E, 0x2E, 0x42, 0x54, 0x30];
    let mut k: usize = 0;
    while k < SIGNATURE_LEN
        invariant
            k <= SIGNATURE_LEN,
            image@.len() >= 12,
            expected@ =~= signature(),
            forall|j: int| 0 <= j < k ==> image@[4 + j] == signature()[j],
        decreases SIGNATURE_LEN - k,
    {
        if image[SIGNATURE_OFFSET + k] != expected[k] {
            assert(image@.subrange(4, 12)[k as int] != signature()[k as int]);
            return false;
        }
        k += 1;
    }
    true
}

/// Checks the header and returns the number of words that it declares.
pub fn read_declared_words(image: &[u8]) -> (res: Result<u32, HeaderError>)
    ensures
        res == match header_fault(image@) {
            Some(fault) => Err::<u32, HeaderError>(fault),
            None => Ok(declared_words(image@) as u32),
        },
{
    if !check_signature(image) {
        return Err(HeaderError::InvalidSignature);
    }
    match read_word(image, LENGTH_WORD) {
        None => Err(HeaderError::Truncated),
        Some(length) => {
            if length % 4 != 0 {
                Err(HeaderError::MisalignedLength)
            } else {
                Ok(length / 4)
            }
        },
    }
}

/// Finds from the header how many bytes from the start of the image are
/// to be read. The first twenty bytes of an image decide it.
pub fn read_region_len(image: &[u8]) -> (len: usize)
    ensures
        len == region_len(image@),
{
    match read_declared_words(image) {
        Ok(count) => {
            if count as usize > HEADER_LEN / WORD_BYTES {
                count as usize * WORD_BYTES
            } else {
                HEADER_LEN
            }
        },
        Err(_) => HEADER_LEN,
    }
}

} // verus!

//! Checksum of the eGON boot-image header.
//!
//! An eGON image opens with a header of little-endian 32-bit words: a word
//! that the checksum does not interpret, the signature `eGON.BT0`, the
//! checksum itself and the length of the image in bytes. The boot ROM accepts
//! an image only if the checksum field holds the wrapping sum of the words of
//! the image, taken with a fixed stand-in in place of the checksum field.
//!
//! The library works on the bytes of an image held in memory. Reading the
//! file and writing the patched field back is left to the caller.

pub mod checksum;
pub mod error;
pub mod header;
pub mod theorems;
pub mod word;

//! Why an image is refused.

use vstd::prelude::*;

verus! {

/// The reasons for which no checksum is computed.
#[derive(Clone, Copy, Debug, PartialEq, Eq)]
pub enum HeaderError {
    /// The eight bytes after the first word are not `eGON.BT0`.
    InvalidSignature,
    /// The header gives a length that is no multiple of four.
    MisalignedLength,
    /// The image ends before a field or a word that has to be read, or the
    /// header gives a length that ends before the checksum field.
    Truncated,
}

impl HeaderError {
    /// The text that `message` returns.
    pub open spec fn message_text(self) -> Seq<char> {
        match self {
            HeaderError::InvalidSignature => "Invalid signature"@,
            HeaderError::MisalignedLength => "Length is not multiple of 4"@,
            HeaderError::Truncated => "failed to fill whole buffer"@,
        }
    }

    /// A line for the user that names the cause.
    pub fn message(&self) -> (text: &'static str)
        ensures
            text@ == self.message_text(),
    {
        match self {
            HeaderError::InvalidSignature => "Invalid signature",
            HeaderError::MisalignedLength => "Length is not multiple of 4",
            HeaderError::Truncated => "failed to fill whole buffer",
        }
    }
}

} // verus!

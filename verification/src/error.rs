//! The ways in which embedding and extraction fail.

use vstd::prelude::*;

verus! {

/// Why a carrier was refused or a sub-image could not be embedded.
#[derive(Clone, Copy, Debug, PartialEq, Eq, Structural)]
pub enum EmbedError {
    /// The carrier comes from an image without an alpha channel.
    UnsupportedCarrier,
    /// The header and the sub-image need more bytes than the slots offer.
    InsufficientCapacity,
}

/// Why no sub-image could be read out of a carrier.
#[derive(Clone, Copy, Debug, PartialEq, Eq, Structural)]
pub enum ExtractError {
    /// The slots hold fewer than the eight bytes of a header.
    TruncatedHeader,
    /// The dimensions in the header give a length that is too small to be a
    /// sub-image or too large to be addressed.
    MalformedHeader,
    /// The slots hold fewer bytes after the header than the header announces.
    TruncatedPayload,
}

impl EmbedError {
    /// The text that describes this error.
    pub open spec fn text(self) -> Seq<char> {
        match self {
            EmbedError::UnsupportedCarrier =>
                "An image file without an alpha channel is not supported"@,
            EmbedError::InsufficientCapacity => "There is not enough free space in the image"@,
        }
    }

    /// The text that describes this error.
    pub fn message(&self) -> (s: String)
        ensures
            s@ == self.text(),
    {
        match self {
            EmbedError::UnsupportedCarrier =>
                "An image file without an alpha channel is not supported".to_owned(),
            EmbedError::InsufficientCapacity =>
                "There is not enough free space in the image".to_owned(),
        }
    }
}

impl ExtractError {
    /// The text that describes this error.
    pub open spec fn text(self) -> Seq<char> {
        match self {
            ExtractError::TruncatedHeader =>
                "Failed to extract integrated image: the header is incomplete"@,
            ExtractError::MalformedHeader =>
                "Failed to extract integrated image: the header is malformed"@,
            ExtractError::TruncatedPayload =>
                "Failed to extract integrated image: the pixel data is incomplete"@,
        }
    }

    /// The text that describes this error.
    pub fn message(&self) -> (s: String)
        ensures
            s@ == self.text(),
    {
        match self {
            ExtractError::TruncatedHeader =>
                "Failed to extract integrated image: the header is incomplete".to_owned(),
            ExtractError::MalformedHeader =>
                "Failed to extract integrated image: the header is malformed".to_owned(),
            ExtractError::TruncatedPayload =>
                "Failed to extract integrated image: the pixel data is incomplete".to_owned(),
        }
    }
}

} // verus!

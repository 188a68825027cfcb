//! The ways in which the operations of this crate fail.

use vstd::prelude::*;

verus! {

/// A text is not a chunk type: it is not four characters long, or one of its
/// characters is not an ASCII letter.
#[derive(Clone, Copy, Debug, PartialEq, Eq, Structural)]
pub struct ParseError;

/// Why a byte string is not a chunk, or not a PNG file.
#[derive(Clone, Copy, Debug, PartialEq, Eq, Structural)]
pub enum DecodeError {
    /// The input does not start with the eight signature bytes.
    BadSignature,
    /// The input ends before the chunk that its header announces.
    Truncated,
    /// The checksum stored in a chunk is not the checksum of its type and data.
    InvalidChecksum,
}

/// The data of a chunk is not UTF-8 text.
#[derive(Clone, Copy, Debug, PartialEq, Eq, Structural)]
pub struct EncodingError;

/// Why no chunk was removed.
#[derive(Clone, Copy, Debug, PartialEq, Eq, Structural)]
pub enum RemovalError {
    /// The file holds no chunk of the requested type.
    NotFound,
}

/// Why a request could not be carried out.
#[derive(Clone, Copy, Debug, PartialEq, Eq, Structural)]
pub enum Error {
    /// The file could not be read as a PNG file.
    Decode(DecodeError),
    /// The chunk was found, and its data is not text.
    Encoding(EncodingError),
    /// There was no chunk to take out.
    Removal(RemovalError),
}

} // verus!

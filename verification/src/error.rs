//! Error type shared by every parse and decompress operation.

use vstd::prelude::*;

verus! {

/// Why a parse or decompress operation failed.
#[derive(Debug, Clone, Copy, PartialEq, Eq, Structural)]
pub enum ParseError {
    /// Bad magic, truncated or malformed fixed-width buffer, or an
    /// unrecognized compression tag.
    FormatError,
    /// Codec failure, or the declared decompressed size does not match what
    /// the codec produced.
    DecompressError,
    /// Opaque failure of the byte source; produced by callers that do I/O,
    /// never by this crate's own decoding.
    IoError,
}

pub type UnpackResult<T> = Result<T, ParseError>;

} // verus!

//! The embedded document header: a small magic-prefixed record at the front
//! of an extracted file, read only to classify the file by declared version.

use vstd::prelude::*;

verus! {

use crate::bytes::le32;
use crate::error::{ParseError, UnpackResult};

/// Byte length of the embedded document header.
pub const LSF_HEADER_SIZE: usize = 8;

/// The document's own four magic bytes open the buffer: `LSOF`, distinct
/// from the archive magic.
pub open spec fn lsf_has_magic(b: Seq<u8>) -> bool {
    &&& b.len() >= 4
    &&& b[0] == 0x4Cu8
    &&& b[1] == 0x53u8
    &&& b[2] == 0x4Fu8
    &&& b[3] == 0x46u8
}

/// The magic-prefixed header at the front of an extracted document.
#[derive(Debug, Clone, PartialEq, Eq, Structural)]
pub struct LsfHeader {
    pub version: u32,
}

impl LsfHeader {
    /// Decode the document header from the front of `data`. Fails with
    /// `FormatError` exactly when the buffer is shorter than the header or
    /// its magic does not match.
    pub fn parse(data: &[u8]) -> (r: UnpackResult<LsfHeader>)
        ensures
            match r {
                Ok(h) => data@.len() >= LSF_HEADER_SIZE && lsf_has_magic(data@) && h.version
                    == le32(data@, 4),
                Err(e) => e == ParseError::FormatError && (data@.len() < LSF_HEADER_SIZE
                    || !lsf_has_magic(data@)),
            },
    {
        if data.len() < LSF_HEADER_SIZE {
            return Err(ParseError::FormatError);
        }
        if !(data[0] == 0x4C && data[1] == 0x53 && data[2] == 0x4F && data[3] == 0x46) {
            return Err(ParseError::FormatError);
        }
        Ok(LsfHeader { version: crate::bytes::read_u32_le(data, 4) })
    }
}

} // verus!

//! Trusted boundary to the two whole-buffer codecs the archive format uses:
//! LZ4 block decompression and raw-deflate (zlib without an envelope)
//! decompression. Each codec's output is a pure function of the compressed
//! bytes and the caller-declared target size, so it is given a name here and
//! everything downstream is verified against that name.

use vstd::prelude::*;

verus! {

/// What LZ4 block decompression yields for `input` when decompressed into a
/// buffer of `size` bytes: `None` on codec failure, else the decompressed
/// bytes (at most `size` of them).
pub uninterp spec fn lz4_block_of(input: Seq<u8>, size: nat) -> Option<Seq<u8>>;

/// What raw-deflate decompression yields for `input` when decompressed into a
/// buffer of `size` bytes: `None` on codec failure, else the decompressed
/// bytes (at most `size` of them).
pub uninterp spec fn inflate_raw_of(input: Seq<u8>, size: nat) -> Option<Seq<u8>>;

/// Relies on lz4_flex::block::decompress: LZ4 block format, decompressing
/// `input` into a buffer of exactly `size` bytes; the safe decoder reports
/// oversize output as an error instead of panicking, and its result depends
/// on `input` and `size` alone.
#[verifier::external_body]
pub(crate) fn lz4_decompress(input: &[u8], size: usize) -> (r: Option<Vec<u8>>)
    ensures
        r matches Some(v) ==> lz4_block_of(input@, size as nat) == Some(v@) && v@.len() <= size,
        r is None ==> lz4_block_of(input@, size as nat) is None,
{
    match lz4_flex::block::decompress(input, size) {
        Ok(v) => Some(v),
        Err(_) => None,
    }
}

/// Relies on flate2::Decompress with `zlib_header = false`: one raw-deflate
/// pass of `input` into a buffer of exactly `size` bytes, returning the
/// written prefix; deterministic in `input` and `size`.
#[verifier::external_body]
pub(crate) fn inflate_raw(input: &[u8], size: usize) -> (r: Option<Vec<u8>>)
    ensures
        r matches Some(v) ==> inflate_raw_of(input@, size as nat) == Some(v@) && v@.len() <= size,
        r is None ==> inflate_raw_of(input@, size as nat) is None,
{
    let mut out = vec![0u8; size];
    let mut dec = flate2::Decompress::new(false);
    match dec.decompress(input, &mut out, flate2::FlushDecompress::None) {
        Ok(_) => {
            out.truncate(dec.total_out() as usize);
            Some(out)
        },
        Err(_) => None,
    }
}

} // verus!

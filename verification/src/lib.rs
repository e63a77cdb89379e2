//! Read-only decoder for a proprietary archive container format: a fixed
//! archive header, an LZ4-compressed table of fixed-width file entries, and
//! per-entry decompression across several codecs, plus a small embedded
//! document header used to classify extracted files.

pub mod bytes;
pub mod codec;
pub mod error;
pub mod lsf;
pub mod pak;

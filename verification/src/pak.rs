//! The archive container format: fixed header, compressed table of
//! fixed-width file entries, per-entry decompression dispatch, and a lazy
//! single-pass walk over the decoded table.

use vstd::prelude::*;

verus! {

use crate::bytes::{le16, le32, le64, read_u16_le, read_u32_le, read_u64_le, push_u16_le, push_u32_le, push_u64_le, u16_le_bytes, u32_le_bytes, u64_le_bytes, lemma_u16_le_bytes_of_read, lemma_u32_le_bytes_of_read, lemma_u64_le_bytes_of_read};
use crate::codec::{lz4_block_of, inflate_raw_of, lz4_decompress, inflate_raw};
use crate::error::{ParseError, UnpackResult};

/// Byte length of the fixed archive header.
pub const HEADER_SIZE: usize = 40;

/// Byte length of one file-table record.
pub const ENTRY_SIZE: usize = 272;

/// Byte length of the file-table sub-header that precedes the compressed
/// table bytes.
pub const FILE_LIST_HEADER_SIZE: usize = 8;

/// The four magic bytes that open every archive: `LSPK`.
pub open spec fn spec_pak_magic() -> Seq<u8> {
    seq![0x4Cu8, 0x53u8, 0x50u8, 0x4Bu8]
}

/// Relies on alloc's `String::push`: appends the given character to the end
/// of the string.
pub assume_specification[ String::push ](s: &mut String, c: char)
    ensures
        final(s)@ == old(s)@.push(c),
;

/// The fixed archive header found at offset 0 of every archive.
#[derive(Debug, Clone, PartialEq)]
pub struct PakHeader {
    pub version: u32,
    pub file_list_offset: u64,
    pub file_list_size: u32,
    pub flags: u8,
    pub priority: u8,
    pub md5: [u8; 16],
    pub num_parts: u16,
}

/// The buffer opens with the archive magic.
pub open spec fn header_has_magic(b: Seq<u8>) -> bool {
    &&& b.len() >= 4
    &&& b[0] == 0x4Cu8
    &&& b[1] == 0x53u8
    &&& b[2] == 0x50u8
    &&& b[3] == 0x4Bu8
}

/// `h` holds exactly the fields stored little-endian in the first
/// `HEADER_SIZE` bytes of `b`, after the magic.
pub open spec fn header_matches(h: PakHeader, b: Seq<u8>) -> bool {
    &&& b.len() >= HEADER_SIZE
    &&& h.version == le32(b, 4)
    &&& h.file_list_offset == le64(b, 8)
    &&& h.file_list_size == le32(b, 16)
    &&& h.flags == b[20]
    &&& h.priority == b[21]
    &&& h.md5@ == b.subrange(22, 38)
    &&& h.num_parts == le16(b, 38)
}

/// The exact bytes that `encode` produces for `h`.
pub open spec fn spec_encode_header(h: PakHeader) -> Seq<u8> {
    spec_pak_magic() + u32_le_bytes(h.version) + u64_le_bytes(h.file_list_offset) + u32_le_bytes(
        h.file_list_size,
    ) + seq![h.flags, h.priority] + h.md5@ + u16_le_bytes(h.num_parts)
}

impl PakHeader {
    /// Decode the fixed header from the front of `data`. Fails with
    /// `FormatError` exactly when the buffer is shorter than the header or
    /// the magic does not match.
    pub fn parse(data: &[u8]) -> (r: UnpackResult<PakHeader>)
        ensures
            match r {
                Ok(h) => data@.len() >= HEADER_SIZE && header_has_magic(data@) && header_matches(
                    h,
                    data@,
                ),
                Err(e) => e == ParseError::FormatError && (data@.len() < HEADER_SIZE
                    || !header_has_magic(data@)),
            },
    {
        if data.len() < HEADER_SIZE {
            return Err(ParseError::FormatError);
        }
        if !(data[0] == 0x4C && data[1] == 0x53 && data[2] == 0x50 && data[3] == 0x4B) {
            return Err(ParseError::FormatError);
        }
        let mut md5 = [0u8; 16];
        let mut i: usize = 0;
        while i < 16
            invariant
                i <= 16,
                data@.len() >= HEADER_SIZE,
                forall|j: int| 0 <= j < i ==> md5@[j] == data@[22 + j],
            decreases 16 - i,
        {
            md5[i] = data[22 + i];
            i += 1;
        }
        let h = PakHeader {
            version: read_u32_le(data, 4),
            file_list_offset: read_u64_le(data, 8),
            file_list_size: read_u32_le(data, 16),
            flags: data[20],
            priority: data[21],
            md5,
            num_parts: read_u16_le(data, 38),
        };
        assert(h.md5@ =~= data@.subrange(22, 38));
        Ok(h)
    }

    /// Re-encode the header into its exact `HEADER_SIZE`-byte wire form.
    pub fn encode(&self) -> (r: Vec<u8>)
        ensures
            r@ == spec_encode_header(*self),
            r@.len() == HEADER_SIZE,
    {
        let mut out: Vec<u8> = Vec::new();
        out.push(0x4C);
        out.push(0x53);
        out.push(0x50);
        out.push(0x4B);
        push_u32_le(&mut out, self.version);
        push_u64_le(&mut out, self.file_list_offset);
        push_u32_le(&mut out, self.file_list_size);
        out.push(self.flags);
        out.push(self.priority);
        let mut i: usize = 0;
        while i < 16
            invariant
                i <= 16,
                out@.len() == 22 + i,
                out@ == spec_pak_magic() + u32_le_bytes(self.version) + u64_le_bytes(
                    self.file_list_offset,
                ) + u32_le_bytes(self.file_list_size) + seq![self.flags, self.priority]
                    + self.md5@.subrange(0, i as int),
            decreases 16 - i,
        {
            out.push(self.md5[i]);
            assert(out@ =~= spec_pak_magic() + u32_le_bytes(self.version) + u64_le_bytes(
                self.file_list_offset,
            ) + u32_le_bytes(self.file_list_size) + seq![self.flags, self.priority]
                + self.md5@.subrange(0, i + 1));
            i += 1;
        }
        assert(self.md5@.subrange(0, 16) =~= self.md5@);
        push_u16_le(&mut out, self.num_parts);
        assert(out@ =~= spec_encode_header(*self));
        out
    }
}

/// Decoding a header that `b` holds and re-encoding it reproduces the
/// original header bytes exactly.
pub proof fn lemma_header_round_trip(h: PakHeader, b: Seq<u8>)
    requires
        header_has_magic(b),
        header_matches(h, b),
    ensures
        spec_encode_header(h) == b.subrange(0, HEADER_SIZE as int),
{
    lemma_u32_le_bytes_of_read(b, 4);
    lemma_u64_le_bytes_of_read(b, 8);
    lemma_u32_le_bytes_of_read(b, 16);
    lemma_u16_le_bytes_of_read(b, 38);
    assert(spec_encode_header(h) =~= b.subrange(0, HEADER_SIZE as int));
}

/// How one payload's stored bytes are compressed.
#[derive(Debug, Clone, PartialEq)]
pub enum PakFileCompressionMethod {
    NoCompression,
    Zlib,
    LZ4,
}

/// The compression method a 4-bit tag stands for; an unrecognized tag is
/// invalid, not a silent default.
pub open spec fn spec_method_of_tag(t: u8) -> Option<PakFileCompressionMethod> {
    if t == 0 {
        Some(PakFileCompressionMethod::NoCompression)
    } else if t == 1 {
        Some(PakFileCompressionMethod::Zlib)
    } else if t == 2 {
        Some(PakFileCompressionMethod::LZ4)
    } else {
        None
    }
}

/// One fixed-width file-table record.
#[derive(Debug, Clone, PartialEq)]
pub struct PakFileEntry {
    pub name: [u8; 256],
    pub offset_in_file1: u32,
    pub offset_in_file2: u16,
    pub archive_part: u8,
    pub compression_method: PakFileCompressionMethod,
    pub size_on_disk: u32,
    pub uncompressed_size: u32,
}

/// The record at `off` in `buf` carries a recognized compression tag in the
/// low four bits of its method byte (the high four bits are reserved).
pub open spec fn record_valid(buf: Seq<u8>, off: int) -> bool {
    spec_method_of_tag(buf[off + 263] & 0x0F) is Some
}

/// `e` holds exactly the fields stored in the `ENTRY_SIZE` bytes at `off` in
/// `buf`.
pub open spec fn entry_matches(e: PakFileEntry, buf: Seq<u8>, off: int) -> bool {
    &&& 0 <= off
    &&& off + ENTRY_SIZE <= buf.len()
    &&& e.name@ == buf.subrange(off, off + 256)
    &&& e.offset_in_file1 == le32(buf, off + 256)
    &&& e.offset_in_file2 == le16(buf, off + 260)
    &&& e.archive_part == buf[off + 262]
    &&& Some(e.compression_method) == spec_method_of_tag(buf[off + 263] & 0x0F)
    &&& e.size_on_disk == le32(buf, off + 264)
    &&& e.uncompressed_size == le32(buf, off + 268)
}

/// Index just past the name's text: the position of the first NUL at or
/// after `i`, or the end of the buffer if none follows.
pub open spec fn name_len_from(s: Seq<u8>, i: int) -> int
    decreases s.len() - i,
{
    if i < 0 || i >= s.len() {
        i
    } else if s[i] == 0 {
        i
    } else {
        name_len_from(s, i + 1)
    }
}

/// The characters of the name: every byte before the first NUL, each read as
/// one character.
pub open spec fn spec_name_chars(s: Seq<u8>) -> Seq<char> {
    Seq::new(name_len_from(s, 0) as nat, |i: int| s[i] as char)
}

/// What `decompress` yields for entry `e` applied to the stored bytes
/// `data`: the method selects the codec, and success requires the output to
/// have exactly the declared decompressed length.
pub open spec fn spec_entry_decompressed(e: PakFileEntry, data: Seq<u8>) -> Result<
    Seq<u8>,
    ParseError,
> {
    match e.compression_method {
        PakFileCompressionMethod::NoCompression => if e.uncompressed_size <= data.len() {
            Ok(data.subrange(0, e.uncompressed_size as int))
        } else {
            Err(ParseError::DecompressError)
        },
        PakFileCompressionMethod::Zlib => match inflate_raw_of(data, e.uncompressed_size as nat) {
            Some(v) => if v.len() == e.uncompressed_size {
                Ok(v)
            } else {
                Err(ParseError::DecompressError)
            },
            None => Err(ParseError::DecompressError),
        },
        PakFileCompressionMethod::LZ4 => match lz4_block_of(data, e.uncompressed_size as nat) {
            Some(v) => if v.len() == e.uncompressed_size {
                Ok(v)
            } else {
                Err(ParseError::DecompressError)
            },
            None => Err(ParseError::DecompressError),
        },
    }
}

impl PakFileEntry {
    /// Decode the record stored in the `ENTRY_SIZE` bytes at `off` in `buf`.
    /// Fails with `FormatError` exactly when the record's compression tag is
    /// unrecognized.
    pub fn parse(buf: &[u8], off: usize) -> (r: UnpackResult<PakFileEntry>)
        requires
            off + ENTRY_SIZE <= buf@.len(),
        ensures
            match r {
                Ok(e) => record_valid(buf@, off as int) && entry_matches(e, buf@, off as int),
                Err(e) => e == ParseError::FormatError && !record_valid(buf@, off as int),
            },
    {
        let buf_len = buf.len();
        assert(off + ENTRY_SIZE <= buf_len);
        let tag = buf[off + 263] & 0x0F;
        let method = if tag == 0 {
            PakFileCompressionMethod::NoCompression
        } else if tag == 1 {
            PakFileCompressionMethod::Zlib
        } else if tag == 2 {
            PakFileCompressionMethod::LZ4
        } else {
            return Err(ParseError::FormatError);
        };
        let mut name = [0u8; 256];
        let mut i: usize = 0;
        while i < 256
            invariant
                i <= 256,
                off + ENTRY_SIZE <= buf@.len(),
                buf_len == buf@.len(),
                forall|j: int| 0 <= j < i ==> name@[j] == buf@[off + j],
            decreases 256 - i,
        {
            name[i] = buf[off + i];
            i += 1;
        }
        let e = PakFileEntry {
            name,
            offset_in_file1: read_u32_le(buf, off + 256),
            offset_in_file2: read_u16_le(buf, off + 260),
            archive_part: buf[off + 262],
            compression_method: method,
            size_on_disk: read_u32_le(buf, off + 264),
            uncompressed_size: read_u32_le(buf, off + 268),
        };
        assert(e.name@ =~= buf@.subrange(off as int, off + 256));
        Ok(e)
    }

    /// The entry's name: the text before the first NUL in the fixed name
    /// buffer; whatever follows a terminator is ignored.
    pub fn get_name(&self) -> (r: String)
        ensures
            r@ == spec_name_chars(self.name@),
    {
        let mut r = String::new();
        let mut i: usize = 0;
        while i < 256
            invariant
                i <= 256,
                forall|j: int| 0 <= j < i ==> self.name@[j] != 0,
                name_len_from(self.name@, 0) == name_len_from(self.name@, i as int),
                r@.len() == i,
                forall|j: int| 0 <= j < i ==> r@[j] == self.name@[j] as char,
            decreases 256 - i,
        {
            let c = self.name[i];
            if c == 0 {
                assert(r@ =~= spec_name_chars(self.name@));
                return r;
            }
            r.push(c as char);
            i += 1;
        }
        assert(r@ =~= spec_name_chars(self.name@));
        r
    }

    /// The 48-bit archive offset composed from the record's two offset
    /// fields: the first holds the low 32 bits, the second the high 16.
    pub fn get_offset_in_file(&self) -> (r: u64)
        ensures
            r == self.offset_in_file1 + self.offset_in_file2 * 0x1_0000_0000,
    {
        let lo = self.offset_in_file1 as u64;
        let hi = self.offset_in_file2 as u64;
        let r = lo | (hi << 32);
        assert(lo | (hi << 32) == lo + hi * 0x1_0000_0000) by (bit_vector)
            requires
                lo < 0x1_0000_0000,
                hi < 0x1_0000,
        ;
        r
    }

    /// Decompress this entry's stored bytes. `data` is the payload read from
    /// the archive at the entry's offset; the output always has exactly
    /// `uncompressed_size` bytes, and under method `None` it is the verbatim
    /// front of `data`.
    pub fn decompress(&self, data: &[u8]) -> (r: UnpackResult<Vec<u8>>)
        ensures
            match r {
                Ok(v) => spec_entry_decompressed(*self, data@) == Ok::<Seq<u8>, ParseError>(v@),
                Err(e) => spec_entry_decompressed(*self, data@) == Err::<Seq<u8>, ParseError>(e),
            },
            r matches Ok(v) ==> v@.len() == self.uncompressed_size,
            self.compression_method == PakFileCompressionMethod::NoCompression
                && self.uncompressed_size <= data@.len() ==> (r matches Ok(v) && v@
                == data@.subrange(0, self.uncompressed_size as int)),
    {
        let size = self.uncompressed_size as usize;
        match self.compression_method {
            PakFileCompressionMethod::NoCompression => {
                if size <= data.len() {
                    let mut out: Vec<u8> = Vec::new();
                    out.extend_from_slice(vstd::slice::slice_subrange(data, 0, size));
                    assert(out@ =~= data@.subrange(0, size as int));
                    Ok(out)
                } else {
                    Err(ParseError::DecompressError)
                }
            },
            PakFileCompressionMethod::Zlib => {
                match inflate_raw(data, size) {
                    Some(v) => if v.len() == size {
                        Ok(v)
                    } else {
                        Err(ParseError::DecompressError)
                    },
                    None => Err(ParseError::DecompressError),
                }
            },
            PakFileCompressionMethod::LZ4 => {
                match lz4_decompress(data, size) {
                    Some(v) => if v.len() == size {
                        Ok(v)
                    } else {
                        Err(ParseError::DecompressError)
                    },
                    None => Err(ParseError::DecompressError),
                }
            },
        }
    }
}

/// The file-table sub-header found at the archive's file-list offset,
/// directly before the compressed table bytes.
#[derive(Debug, Clone, PartialEq)]
pub struct PakFileListHeader {
    pub num_files: u32,
    pub compressed_size: u32,
}

/// `h` holds exactly the two fields stored in the first
/// `FILE_LIST_HEADER_SIZE` bytes of `b`.
pub open spec fn file_list_header_matches(h: PakFileListHeader, b: Seq<u8>) -> bool {
    &&& b.len() >= FILE_LIST_HEADER_SIZE
    &&& h.num_files == le32(b, 0)
    &&& h.compressed_size == le32(b, 4)
}

/// The decompressed table buffer for `h` and the compressed bytes `data`:
/// `None` on codec failure or when the output is not exactly one
/// `ENTRY_SIZE` record per declared file.
pub open spec fn spec_table_buf(h: PakFileListHeader, data: Seq<u8>) -> Option<Seq<u8>> {
    match lz4_block_of(data, (h.num_files * ENTRY_SIZE) as nat) {
        Some(buf) => if buf.len() == h.num_files * ENTRY_SIZE {
            Some(buf)
        } else {
            None
        },
        None => None,
    }
}

impl PakFileListHeader {
    /// Decode the table sub-header from the front of `data`. Fails with
    /// `FormatError` exactly when the buffer is too short.
    pub fn parse(data: &[u8]) -> (r: UnpackResult<PakFileListHeader>)
        ensures
            match r {
                Ok(h) => data@.len() >= FILE_LIST_HEADER_SIZE && file_list_header_matches(
                    h,
                    data@,
                ),
                Err(e) => e == ParseError::FormatError && data@.len() < FILE_LIST_HEADER_SIZE,
            },
    {
        if data.len() < FILE_LIST_HEADER_SIZE {
            return Err(ParseError::FormatError);
        }
        Ok(
            PakFileListHeader {
                num_files: read_u32_le(data, 0),
                compressed_size: read_u32_le(data, 4),
            },
        )
    }

    /// Decompress the table bytes and decode every record eagerly, in table
    /// order. Fails with `DecompressError` on codec failure or a size
    /// mismatch, and with `FormatError` when some record's tag is
    /// unrecognized.
    pub fn decompress(&self, compressed_file_list: &[u8]) -> (r: UnpackResult<Vec<PakFileEntry>>)
        ensures
            match r {
                Ok(es) => {
                    &&& self.num_files * ENTRY_SIZE <= usize::MAX
                    &&& spec_table_buf(*self, compressed_file_list@) matches Some(buf)
                        && es@.len() == self.num_files && (forall|i: int|
                        0 <= i < self.num_files ==> record_valid(buf, #[trigger] (ENTRY_SIZE * i))
                            && entry_matches(es@[i], buf, ENTRY_SIZE * i))
                },
                Err(e) => if self.num_files * ENTRY_SIZE <= usize::MAX && spec_table_buf(
                    *self,
                    compressed_file_list@,
                ) is Some {
                    e == ParseError::FormatError && (exists|i: int|
                        0 <= i < self.num_files && !record_valid(
                            spec_table_buf(*self, compressed_file_list@).unwrap(),
                            #[trigger] (ENTRY_SIZE * i),
                        ))
                } else {
                    e == ParseError::DecompressError
                },
            },
    {
        let total = match (self.num_files as usize).checked_mul(ENTRY_SIZE) {
            Some(t) => t,
            None => {
                return Err(ParseError::DecompressError);
            },
        };
        let buf = match lz4_decompress(compressed_file_list, total) {
            Some(b) => b,
            None => {
                return Err(ParseError::DecompressError);
            },
        };
        if buf.len() != total {
            return Err(ParseError::DecompressError);
        }
        let ghost gbuf = buf@;
        let n = self.num_files as usize;
        let mut files: Vec<PakFileEntry> = Vec::new();
        let mut i: usize = 0;
        while i < n
            invariant
                i <= n,
                n == self.num_files,
                n * ENTRY_SIZE <= usize::MAX,
                buf@ == gbuf,
                gbuf.len() == n * ENTRY_SIZE,
                spec_table_buf(*self, compressed_file_list@) == Some(gbuf),
                files@.len() == i,
                forall|j: int|
                    0 <= j < i ==> record_valid(gbuf, #[trigger] (ENTRY_SIZE * j)) && entry_matches(
                        files@[j],
                        gbuf,
                        ENTRY_SIZE * j,
                    ),
            decreases n - i,
        {
            proof {
                assert((i + 1) * ENTRY_SIZE <= n * ENTRY_SIZE) by (nonlinear_arith)
                    requires
                        i < n,
                ;
            }
            match PakFileEntry::parse(buf.as_slice(), i * ENTRY_SIZE) {
                Ok(e) => files.push(e),
                Err(e) => {
                    assert(!record_valid(gbuf, ENTRY_SIZE * (i as int)));
                    return Err(e);
                },
            }
            i += 1;
        }
        Ok(files)
    }

    /// Decompress the table bytes once and hand back a lazy, single-pass
    /// cursor that decodes one record per step. Fails with
    /// `DecompressError` exactly when the codec fails or the output size
    /// does not match the declared record count.
    pub fn decompress_iter(&self, compressed_file_list: &[u8]) -> (r: UnpackResult<
        PakFileEntryIter,
    >)
        ensures
            match r {
                Ok(it) => {
                    &&& self.num_files * ENTRY_SIZE <= usize::MAX
                    &&& it.wf()
                    &&& spec_table_buf(*self, compressed_file_list@) == Some(it.buf())
                    &&& it.total() == self.num_files
                    &&& it.cursor() == 0
                },
                Err(e) => e == ParseError::DecompressError && (self.num_files * ENTRY_SIZE
                    > usize::MAX || spec_table_buf(*self, compressed_file_list@) is None),
            },
    {
        let total = match (self.num_files as usize).checked_mul(ENTRY_SIZE) {
            Some(t) => t,
            None => {
                return Err(ParseError::DecompressError);
            },
        };
        let buf = match lz4_decompress(compressed_file_list, total) {
            Some(b) => b,
            None => {
                return Err(ParseError::DecompressError);
            },
        };
        if buf.len() != total {
            return Err(ParseError::DecompressError);
        }
        Ok(
            PakFileEntryIter {
                decompressed_file_list: buf,
                num_files: self.num_files as usize,
                current_file: 0,
            },
        )
    }
}

/// A lazy, single-pass cursor over a decompressed file table: exactly one
/// decoded record (or one decode error) per declared file, in table order. A
/// failed record does not end the walk; the cursor still advances past its
/// fixed width.
pub struct PakFileEntryIter {
    decompressed_file_list: Vec<u8>,
    num_files: usize,
    current_file: usize,
}

impl PakFileEntryIter {
    /// The decompressed table bytes the cursor walks.
    pub closed spec fn buf(&self) -> Seq<u8> {
        self.decompressed_file_list@
    }

    /// How many records the table declares.
    pub closed spec fn total(&self) -> int {
        self.num_files as int
    }

    /// How many records have been yielded so far.
    pub closed spec fn cursor(&self) -> int {
        self.current_file as int
    }

    /// The buffer holds exactly one fixed-width record per declared file and
    /// the cursor has not run past the end.
    pub closed spec fn wf(&self) -> bool {
        &&& self.decompressed_file_list@.len() == self.num_files * ENTRY_SIZE
        &&& self.num_files * ENTRY_SIZE <= usize::MAX
        &&& self.current_file <= self.num_files
    }

    /// Yield the next record, or `None` once every declared record has been
    /// yielded. A record whose tag is unrecognized comes out as one
    /// `FormatError` item and the cursor moves past it all the same.
    pub fn next(&mut self) -> (r: Option<UnpackResult<PakFileEntry>>)
        requires
            old(self).wf(),
        ensures
            final(self).wf(),
            final(self).buf() == old(self).buf(),
            final(self).total() == old(self).total(),
            old(self).cursor() == old(self).total() ==> r is None && final(self).cursor() == old(
                self,
            ).cursor(),
            old(self).cursor() < old(self).total() ==> {
                &&& final(self).cursor() == old(self).cursor() + 1
                &&& match r {
                    Some(Ok(e)) => record_valid(old(self).buf(), ENTRY_SIZE * old(self).cursor())
                        && entry_matches(e, old(self).buf(), ENTRY_SIZE * old(self).cursor()),
                    Some(Err(e)) => e == ParseError::FormatError && !record_valid(
                        old(self).buf(),
                        ENTRY_SIZE * old(self).cursor(),
                    ),
                    None => false,
                }
            },
    {
        if self.current_file >= self.num_files {
            return None;
        }
        proof {
            assert((self.current_file + 1) * ENTRY_SIZE <= self.num_files * ENTRY_SIZE)
                by (nonlinear_arith)
                requires
                    self.current_file < self.num_files,
            ;
        }
        let r = PakFileEntry::parse(
            self.decompressed_file_list.as_slice(),
            self.current_file * ENTRY_SIZE,
        );
        self.current_file = self.current_file + 1;
        Some(r)
    }
}

/// A record's bytes decode to at most one entry: any two entries that match
/// the same record of the same buffer are equal. With the contracts of
/// `PakFileListHeader::decompress` and `PakFileEntryIter::next`, this is why
/// eager and lazy table decoding yield identical ordered sequences of
/// entries for the same compressed input.
pub proof fn lemma_entry_match_unique(e1: PakFileEntry, e2: PakFileEntry, buf: Seq<u8>, off: int)
    requires
        entry_matches(e1, buf, off),
        entry_matches(e2, buf, off),
    ensures
        e1 == e2,
{
    broadcast use vstd::array::group_array_axioms;

    assert(e1.name@ =~= e2.name@);
    assert(e1.name == e2.name);
}

/// Eager and lazy table decoding agree: two full decodings of the same
/// decompressed table, record by record, are the same ordered sequence.
pub proof fn lemma_eager_lazy_agree(
    es1: Seq<PakFileEntry>,
    es2: Seq<PakFileEntry>,
    buf: Seq<u8>,
    n: int,
)
    requires
        es1.len() == n,
        es2.len() == n,
        forall|i: int| 0 <= i < n ==> entry_matches(#[trigger] es1[i], buf, ENTRY_SIZE * i),
        forall|i: int| 0 <= i < n ==> entry_matches(#[trigger] es2[i], buf, ENTRY_SIZE * i),
    ensures
        es1 == es2,
{
    assert forall|i: int| 0 <= i < n implies es1[i] == es2[i] by {
        lemma_entry_match_unique(es1[i], es2[i], buf, ENTRY_SIZE * i);
    }
    assert(es1 =~= es2);
}

} // verus!

use beholder::error::ParseError;
use beholder::pak::{
    PakFileCompressionMethod, PakFileEntry, PakFileListHeader, PakHeader, ENTRY_SIZE,
};

fn make_record(
    name: &str,
    offset1: u32,
    offset2: u16,
    part: u8,
    method_byte: u8,
    size_on_disk: u32,
    uncompressed_size: u32,
) -> Vec<u8> {
    let mut r = vec![0u8; ENTRY_SIZE];
    r[..name.len()].copy_from_slice(name.as_bytes());
    r[256..260].copy_from_slice(&offset1.to_le_bytes());
    r[260..262].copy_from_slice(&offset2.to_le_bytes());
    r[262] = part;
    r[263] = method_byte;
    r[264..268].copy_from_slice(&size_on_disk.to_le_bytes());
    r[268..272].copy_from_slice(&uncompressed_size.to_le_bytes());
    r
}

fn deflate_compress(data: &[u8]) -> Vec<u8> {
    let mut out = Vec::with_capacity(data.len() + 64);
    let mut enc = flate2::Compress::new(flate2::Compression::default(), false);
    enc.compress_vec(data, &mut out, flate2::FlushCompress::Finish)
        .unwrap();
    out
}

#[test]
fn entry_fields_decoded() {
    let rec = make_record("ab", 0x11223344, 0x5566, 2, 1, 100, 200);
    let e = PakFileEntry::parse(&rec, 0).unwrap();
    assert_eq!(e.get_name(), "ab");
    assert_eq!(e.offset_in_file1, 0x11223344);
    assert_eq!(e.offset_in_file2, 0x5566);
    assert_eq!(e.archive_part, 2);
    assert_eq!(e.compression_method, PakFileCompressionMethod::Zlib);
    assert_eq!(e.size_on_disk, 100);
    assert_eq!(e.uncompressed_size, 200);
}

#[test]
fn entry_reserved_tag_bits_are_ignored() {
    // Only the low four bits of the method byte carry the tag.
    let rec = make_record("x", 0, 0, 0, 0xF2, 0, 0);
    let e = PakFileEntry::parse(&rec, 0).unwrap();
    assert_eq!(e.compression_method, PakFileCompressionMethod::LZ4);
}

#[test]
fn entry_unknown_tag_is_format_error() {
    let rec = make_record("x", 0, 0, 0, 3, 0, 0);
    assert_eq!(PakFileEntry::parse(&rec, 0), Err(ParseError::FormatError));
}

#[test]
fn name_stops_at_first_nul() {
    let mut rec = make_record("", 0, 0, 0, 0, 0, 0);
    rec[0] = b'a';
    rec[1] = b'b';
    rec[2] = 0;
    rec[3] = b'c';
    let e = PakFileEntry::parse(&rec, 0).unwrap();
    assert_eq!(e.get_name(), "ab");
}

#[test]
fn name_with_no_nul_uses_whole_buffer() {
    let mut rec = make_record("", 0, 0, 0, 0, 0, 0);
    for i in 0..256 {
        rec[i] = b'z';
    }
    let e = PakFileEntry::parse(&rec, 0).unwrap();
    assert_eq!(e.get_name().len(), 256);
}

#[test]
fn offset_composed_from_both_fields() {
    let rec = make_record("x", 0x00000100, 0x0002, 0, 0, 0, 0);
    let e = PakFileEntry::parse(&rec, 0).unwrap();
    assert_eq!(e.get_offset_in_file(), 0x0000_0002_0000_0100u64);
}

#[test]
fn decompress_none_copies_front_verbatim() {
    let rec = make_record("x", 0, 0, 0, 0, 4, 4);
    let e = PakFileEntry::parse(&rec, 0).unwrap();
    let data = [9u8, 8, 7, 6, 5, 4];
    let out = e.decompress(&data).unwrap();
    assert_eq!(out, vec![9, 8, 7, 6]);
}

#[test]
fn decompress_none_short_input_is_error() {
    let rec = make_record("x", 0, 0, 0, 0, 10, 10);
    let e = PakFileEntry::parse(&rec, 0).unwrap();
    assert_eq!(e.decompress(&[1, 2, 3]), Err(ParseError::DecompressError));
}

#[test]
fn decompress_zlib_round_trips() {
    let payload: Vec<u8> = (0..500u32).map(|i| (i % 251) as u8).collect();
    let compressed = deflate_compress(&payload);
    let rec = make_record(
        "x",
        0,
        0,
        0,
        1,
        compressed.len() as u32,
        payload.len() as u32,
    );
    let e = PakFileEntry::parse(&rec, 0).unwrap();
    let out = e.decompress(&compressed).unwrap();
    assert_eq!(out.len() as u32, e.uncompressed_size);
    assert_eq!(out, payload);
}

#[test]
fn decompress_lz4_round_trips() {
    let payload: Vec<u8> = (0..500u32).map(|i| (i % 13) as u8).collect();
    let compressed = lz4_flex::block::compress(&payload);
    let rec = make_record(
        "x",
        0,
        0,
        0,
        2,
        compressed.len() as u32,
        payload.len() as u32,
    );
    let e = PakFileEntry::parse(&rec, 0).unwrap();
    let out = e.decompress(&compressed).unwrap();
    assert_eq!(out.len() as u32, e.uncompressed_size);
    assert_eq!(out, payload);
}

#[test]
fn decompress_garbage_is_decompress_error() {
    let rec = make_record("x", 0, 0, 0, 1, 4, 100);
    let e = PakFileEntry::parse(&rec, 0).unwrap();
    assert_eq!(
        e.decompress(&[0xFF, 0xFF, 0xFF, 0xFF]),
        Err(ParseError::DecompressError)
    );
}

#[test]
fn decompress_declared_size_mismatch_is_error() {
    // The codec succeeds, but the declared decompressed size is larger than
    // what the stream actually holds.
    let payload = vec![1u8, 2, 3, 4];
    let compressed = lz4_flex::block::compress(&payload);
    let rec = make_record("x", 0, 0, 0, 2, compressed.len() as u32, 8);
    let e = PakFileEntry::parse(&rec, 0).unwrap();
    assert_eq!(e.decompress(&compressed), Err(ParseError::DecompressError));
}

fn sample_table() -> Vec<u8> {
    let records = vec![
        make_record("first", 0, 0, 0, 0, 10, 10),
        make_record("second", 64, 1, 1, 1, 20, 30),
        make_record("second", 128, 2, 0, 2, 40, 50),
    ];
    let mut table = Vec::new();
    for r in &records {
        table.extend_from_slice(r);
    }
    lz4_flex::block::compress(&table)
}

#[test]
fn table_header_decoded() {
    let b = [3u8, 0, 0, 0, 0x10, 0, 0, 0];
    let h = PakFileListHeader::parse(&b).unwrap();
    assert_eq!(h.num_files, 3);
    assert_eq!(h.compressed_size, 16);
    assert_eq!(
        PakFileListHeader::parse(&b[..7]),
        Err(ParseError::FormatError)
    );
}

#[test]
fn eager_table_decoding() {
    let compressed = sample_table();
    let h = PakFileListHeader {
        num_files: 3,
        compressed_size: compressed.len() as u32,
    };
    let es = h.decompress(&compressed).unwrap();
    assert_eq!(es.len(), 3);
    assert_eq!(es[0].get_name(), "first");
    assert_eq!(es[1].get_name(), "second");
    assert_eq!(es[2].get_name(), "second");
    assert_eq!(es[1].compression_method, PakFileCompressionMethod::Zlib);
    assert_eq!(es[2].uncompressed_size, 50);
}

#[test]
fn eager_and_lazy_agree() {
    let compressed = sample_table();
    let h = PakFileListHeader {
        num_files: 3,
        compressed_size: compressed.len() as u32,
    };
    let eager = h.decompress(&compressed).unwrap();
    let mut it = h.decompress_iter(&compressed).unwrap();
    let mut lazy = Vec::new();
    while let Some(item) = it.next() {
        lazy.push(item.unwrap());
    }
    assert_eq!(eager, lazy);
}

#[test]
fn lazy_walk_survives_one_bad_record() {
    let good = make_record("good", 0, 0, 0, 0, 1, 1);
    let bad = make_record("bad", 0, 0, 0, 7, 1, 1);
    let mut table = Vec::new();
    table.extend_from_slice(&good);
    table.extend_from_slice(&bad);
    table.extend_from_slice(&good);
    let compressed = lz4_flex::block::compress(&table);
    let h = PakFileListHeader {
        num_files: 3,
        compressed_size: compressed.len() as u32,
    };
    // Eagerly the whole decode fails on the middle record...
    assert_eq!(h.decompress(&compressed), Err(ParseError::FormatError));
    // ...but the lazy walk yields it as one error item and carries on.
    let mut it = h.decompress_iter(&compressed).unwrap();
    assert_eq!(it.next().unwrap().unwrap().get_name(), "good");
    assert_eq!(it.next().unwrap(), Err(ParseError::FormatError));
    assert_eq!(it.next().unwrap().unwrap().get_name(), "good");
    assert!(it.next().is_none());
}

#[test]
fn empty_table_decodes_to_no_entries() {
    let compressed = lz4_flex::block::compress(&[]);
    let h = PakFileListHeader {
        num_files: 0,
        compressed_size: compressed.len() as u32,
    };
    assert_eq!(h.decompress(&compressed).unwrap(), Vec::new());
    let mut it = h.decompress_iter(&compressed).unwrap();
    assert!(it.next().is_none());
}

#[test]
fn table_wrong_declared_count_is_decompress_error() {
    let compressed = sample_table();
    let h = PakFileListHeader {
        num_files: 4,
        compressed_size: compressed.len() as u32,
    };
    assert_eq!(h.decompress(&compressed), Err(ParseError::DecompressError));
    assert!(h.decompress_iter(&compressed).is_err());
}

#[test]
fn end_to_end_fixture_archive() {
    // One payload file, zlib-compressed, stored after the file table.
    let payload: Vec<u8> = (0..300u32).map(|i| (i * 7 % 256) as u8).collect();
    let stored = deflate_compress(&payload);

    // Lay the archive out: header, then the payload, then the table region.
    let payload_offset = 40u32;
    let rec = make_record(
        "files/doc.lsf",
        payload_offset,
        0,
        0,
        1,
        stored.len() as u32,
        payload.len() as u32,
    );
    let compressed_table = lz4_flex::block::compress(&rec);
    let table_offset = 40 + stored.len() as u64;

    let header = PakHeader {
        version: 18,
        file_list_offset: table_offset,
        file_list_size: (8 + compressed_table.len()) as u32,
        flags: 0,
        priority: 0,
        md5: [0; 16],
        num_parts: 1,
    };
    let mut archive = header.encode();
    archive.extend_from_slice(&stored);
    archive.extend_from_slice(&1u32.to_le_bytes());
    archive.extend_from_slice(&(compressed_table.len() as u32).to_le_bytes());
    archive.extend_from_slice(&compressed_table);

    // Open the fixture: parse the header and check the declared version.
    let h = PakHeader::parse(&archive).unwrap();
    assert_eq!(h.version, 18);

    // Decode the file table at the declared offset and check the count.
    let table_region = &archive[h.file_list_offset as usize..];
    let lh = PakFileListHeader::parse(table_region).unwrap();
    assert_eq!(lh.num_files, 1);
    let entries = lh
        .decompress(&table_region[8..8 + lh.compressed_size as usize])
        .unwrap();
    assert_eq!(entries.len(), 1);

    // Locate the named entry and decompress its stored bytes.
    let e = entries
        .iter()
        .find(|e| e.get_name() == "files/doc.lsf")
        .unwrap();
    let start = e.get_offset_in_file() as usize;
    let stored_bytes = &archive[start..start + e.size_on_disk as usize];
    let out = e.decompress(stored_bytes).unwrap();
    assert_eq!(out.len() as u32, e.uncompressed_size);
    assert_eq!(out, payload);
}

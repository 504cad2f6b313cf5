//! Archive-level behaviour: parsing whole archives from bytes, reading
//! entries back, merging, and the streaming reader.

use zip::blocks::Zip32CentralDirectoryEnd;
use zip::ZipArchive;
use zip::ZipError;

struct TestEntry {
    name: Vec<u8>,
    stored: Vec<u8>,
    crc32: u32,
    compressed_size: u32,
    uncompressed_size: u32,
    method: u16,
    flags: u16,
    extra: Vec<u8>,
}

impl TestEntry {
    fn stored_text(name: &str, data: &[u8]) -> TestEntry {
        TestEntry {
            name: name.as_bytes().to_vec(),
            stored: data.to_vec(),
            crc32: crc32fast::hash(data),
            compressed_size: data.len() as u32,
            uncompressed_size: data.len() as u32,
            method: 0,
            flags: 0,
            extra: Vec::new(),
        }
    }

    fn deflated_text(name: &str, data: &[u8]) -> TestEntry {
        let mut compressed = Vec::new();
        let mut enc = flate2::read::DeflateEncoder::new(data, flate2::Compression::default());
        std::io::Read::read_to_end(&mut enc, &mut compressed).unwrap();
        TestEntry {
            name: name.as_bytes().to_vec(),
            crc32: crc32fast::hash(data),
            compressed_size: compressed.len() as u32,
            uncompressed_size: data.len() as u32,
            stored: compressed,
            method: 8,
            flags: 0,
            extra: Vec::new(),
        }
    }
}

fn p16(v: &mut Vec<u8>, x: u16) {
    v.extend_from_slice(&x.to_le_bytes());
}

fn p32(v: &mut Vec<u8>, x: u32) {
    v.extend_from_slice(&x.to_le_bytes());
}

fn p64(v: &mut Vec<u8>, x: u64) {
    v.extend_from_slice(&x.to_le_bytes());
}

/// Lay out local headers with payloads, the central directory, and the
/// ZIP32 end record. Returns the whole archive bytes.
fn build_archive(entries: &[TestEntry]) -> Vec<u8> {
    build_archive_with(entries, false, &[])
}

fn build_archive_with(entries: &[TestEntry], zip64: bool, junk: &[u8]) -> Vec<u8> {
    let mut v: Vec<u8> = junk.to_vec();
    let mut local_offsets: Vec<u32> = Vec::new();
    for e in entries {
        // Offsets recorded in headers do not include the junk prefix.
        local_offsets.push((v.len() - junk.len()) as u32);
        p32(&mut v, 0x04034b50);
        p16(&mut v, 20); // version needed
        p16(&mut v, e.flags);
        p16(&mut v, e.method);
        p16(&mut v, 0); // time
        p16(&mut v, 0x21); // date: 1980-01-01
        p32(&mut v, e.crc32);
        p32(&mut v, e.compressed_size);
        p32(&mut v, e.uncompressed_size);
        p16(&mut v, e.name.len() as u16);
        p16(&mut v, 0);
        v.extend_from_slice(&e.name);
        v.extend_from_slice(&e.stored);
    }
    let cd_offset = (v.len() - junk.len()) as u32;
    for (i, e) in entries.iter().enumerate() {
        p32(&mut v, 0x02014b50);
        p16(&mut v, 0x0314); // made by: Unix, tool 20
        p16(&mut v, 20); // version needed
        p16(&mut v, e.flags);
        p16(&mut v, e.method);
        p16(&mut v, 0); // time
        p16(&mut v, 0x21); // date
        p32(&mut v, e.crc32);
        p32(&mut v, e.compressed_size);
        p32(&mut v, e.uncompressed_size);
        p16(&mut v, e.name.len() as u16);
        p16(&mut v, e.extra.len() as u16);
        p16(&mut v, 0); // comment len
        p16(&mut v, 0); // disk
        p16(&mut v, 0); // internal attrs
        p32(&mut v, 0); // external attrs
        p32(&mut v, local_offsets[i]);
        v.extend_from_slice(&e.name);
        v.extend_from_slice(&e.extra);
    }
    let cd_end = (v.len() - junk.len()) as u32;
    let cd_size = cd_end - cd_offset;
    if zip64 {
        let z64_offset = (v.len() - junk.len()) as u64;
        p32(&mut v, 0x06064b50);
        p64(&mut v, 44); // record size
        p16(&mut v, 45); // made by
        p16(&mut v, 45); // version needed
        p32(&mut v, 0); // disk
        p32(&mut v, 0); // cd disk
        p64(&mut v, entries.len() as u64);
        p64(&mut v, entries.len() as u64);
        p64(&mut v, cd_size as u64);
        p64(&mut v, cd_offset as u64);
        p32(&mut v, 0x07064b50);
        p32(&mut v, 0); // disk with zip64 end
        p64(&mut v, z64_offset);
        p32(&mut v, 1); // total disks
    }
    p32(&mut v, 0x06054b50);
    p16(&mut v, 0); // disk
    p16(&mut v, 0); // cd disk
    p16(&mut v, entries.len() as u16);
    p16(&mut v, entries.len() as u16);
    p32(&mut v, cd_size);
    p32(&mut v, cd_offset);
    p16(&mut v, 0); // comment length
    v
}

#[test]
fn invalid_offset() {
    // The end record declares a directory size and offset that together
    // overshoot the record's own position.
    let mut v: Vec<u8> = vec![0u8; 64];
    p32(&mut v, 0x06054b50);
    p16(&mut v, 0);
    p16(&mut v, 0);
    p16(&mut v, 1);
    p16(&mut v, 1);
    p32(&mut v, 4096); // directory size larger than the file
    p32(&mut v, 4096);
    p16(&mut v, 0);
    let reader = ZipArchive::new(v);
    assert!(reader.is_err());
}

#[test]
fn invalid_offset2() {
    // Sizes that pass the arithmetic check but point the directory at
    // bytes that hold no central directory header.
    let mut v: Vec<u8> = vec![0u8; 64];
    p32(&mut v, 0x06054b50);
    p16(&mut v, 0);
    p16(&mut v, 0);
    p16(&mut v, 1);
    p16(&mut v, 1);
    p32(&mut v, 32);
    p32(&mut v, 16);
    p16(&mut v, 0);
    let reader = ZipArchive::new(v);
    assert!(reader.is_err());
}

#[test]
fn zip64_with_leading_junk() {
    let entries = vec![TestEntry::stored_text("hello.txt", b"hello")];
    let v = build_archive_with(&entries, true, &[0u8; 64]);
    let reader = ZipArchive::new(v).unwrap();
    assert_eq!(reader.len(), 1);
}

#[test]
fn zip64_magic_in_filenames() {
    let names: Vec<Vec<u8>> = vec![
        b"PK\x06\x06file".to_vec(),
        b"filePK\x06\x06".to_vec(),
        b"PK\x06\x07file".to_vec(),
        b"filePK\x06\x07".to_vec(),
        b"aPK\x06\x06PK\x06\x07b".to_vec(),
    ];
    // Although names holding the ZIP64 end or locator magic are unusual,
    // archives carrying them still parse when they are not genuinely
    // ambiguous.
    for name in names {
        let entry = TestEntry {
            name,
            stored: b"x".to_vec(),
            crc32: crc32fast::hash(b"x"),
            compressed_size: 1,
            uncompressed_size: 1,
            method: 0,
            flags: 0,
            extra: Vec::new(),
        };
        let v = build_archive(&[entry]);
        ZipArchive::new(v).unwrap();
    }
}

#[test]
fn invalid_cde_number_of_files_allocation_smaller_offset() {
    // A count far past what the bytes can hold, with a small offset.
    let mut v: Vec<u8> = vec![0u8; 128];
    p32(&mut v, 0x06054b50);
    p16(&mut v, 0);
    p16(&mut v, 0);
    p16(&mut v, 0x0101);
    p16(&mut v, 0x0101);
    p32(&mut v, 64);
    p32(&mut v, 64);
    p16(&mut v, 0);
    let reader = ZipArchive::new(v);
    assert!(reader.is_err() || reader.unwrap().is_empty());
}

#[test]
fn invalid_cde_number_of_files_allocation_greater_offset() {
    // A declared count greater than the declared directory offset.
    let mut v: Vec<u8> = vec![0u8; 128];
    p32(&mut v, 0x06054b50);
    p16(&mut v, 0);
    p16(&mut v, 0);
    p16(&mut v, 0xFF00);
    p16(&mut v, 0xFF00);
    p32(&mut v, 64);
    p32(&mut v, 64);
    p16(&mut v, 0);
    let reader = ZipArchive::new(v);
    assert!(reader.is_err());
}

#[test]
fn deflate64_not_enough_space() {
    // A directory that declares more entries than its bytes hold.
    let entries = vec![TestEntry::stored_text("a", b"a")];
    let mut v = build_archive(&entries);
    // Bump the declared counts in the end record without adding headers.
    let n = v.len();
    v[n - 12] = 2;
    v[n - 10] = 2;
    ZipArchive::new(v).expect_err("Invalid file");
}

#[test]
fn deflate64_index_out_of_bounds() -> std::io::Result<()> {
    // A deflate64 entry whose payload is not a valid stream.
    let entry = TestEntry {
        name: b"bad64".to_vec(),
        stored: vec![0xFF; 16],
        crc32: 0,
        compressed_size: 16,
        uncompressed_size: 64,
        method: 9,
        flags: 0,
        extra: Vec::new(),
    };
    let v = build_archive(&[entry]);
    let mut reader = ZipArchive::new(v).unwrap();
    let file = reader.by_index(0).unwrap();
    file.read_to_end().expect_err("Invalid file");
    Ok(())
}

#[test]
fn zip_contents() {
    let entries = vec![TestEntry::stored_text("mimetype", b"application/epub+zip")];
    let v = build_archive(&entries);
    let mut reader = ZipArchive::new(v).unwrap();
    assert_eq!(reader.comment(), b"");
    // One local header (30 bytes), the 8-byte name, then 20 payload bytes
    // precede the central directory header of the only entry.
    assert_eq!(reader.by_index(0).unwrap().central_header_start(), 58);
}

#[test]
fn zip_read_streaming() {
    let entries = vec![
        TestEntry::stored_text("first.txt", b"first"),
        TestEntry::stored_text("second.txt", b"second"),
    ];
    let v = build_archive(&entries);
    let mut pos = 0usize;
    let mut seen: Vec<(String, Vec<u8>)> = Vec::new();
    loop {
        match zip::read_zipfile_from_stream(&v, pos).unwrap() {
            Some((file, next)) => {
                seen.push((file.name().to_string(), file.read_to_end().unwrap()));
                pos = next;
            }
            None => break,
        }
    }
    assert_eq!(seen.len(), 2);
    assert_eq!(seen[0].0, "first.txt");
    assert_eq!(seen[0].1, b"first");
    assert_eq!(seen[1].0, "second.txt");
    assert_eq!(seen[1].1, b"second");
}

#[test]
fn zip_clone() {
    let entries = vec![TestEntry::stored_text("mimetype", b"application/epub+zip")];
    let v = build_archive(&entries);
    let mut reader1 = ZipArchive::new(v).unwrap();
    let mut reader2 = reader1.clone();

    let file1 = reader1.by_index(0).unwrap();
    let file2 = reader2.by_index(0).unwrap();

    let t = file1.last_modified();
    assert_eq!(
        (t.year(), t.month(), t.day(), t.hour(), t.minute(), t.second()),
        (1980, 1, 1, 0, 0, 0)
    );

    let buf1 = file1.read_to_end().unwrap();
    let buf2 = file2.read_to_end().unwrap();
    assert_eq!(buf1, buf2);
}

#[test]
fn file_and_dir_predicates() {
    let entries = vec![
        TestEntry::stored_text("dir1/", b""),
        TestEntry::stored_text("dir1/file1", b"a"),
        TestEntry::stored_text("dir2/", b""),
        TestEntry::stored_text("file2", b"b"),
    ];
    let v = build_archive(&entries);
    let mut zip = ZipArchive::new(v).unwrap();
    for i in 0..zip.len() {
        let zip_file = zip.by_index(i).unwrap();
        let full_name = zip_file.enclosed_name().unwrap();
        let file_name = full_name.trim_end_matches('/').rsplit('/').next().unwrap();
        assert!(
            (file_name.starts_with("dir") && zip_file.is_dir())
                || (file_name.starts_with("file") && zip_file.is_file())
        );
    }
}

#[test]
fn test_read_with_data_descriptor() {
    // Flag bit 3 is set, but the central directory still records the real
    // sizes, so seek-based reading works.
    let mut entry = TestEntry::stored_text("dd.txt", b"Hello world\n");
    entry.flags = 1 << 3;
    let v = build_archive(&[entry]);
    let mut reader = ZipArchive::new(v).unwrap();
    let file = reader.by_index(0).unwrap();
    let decompressed = file.read_to_end().unwrap();
    assert_eq!(decompressed.len(), 12);
}

#[test]
fn block_serde() {
    let block = Zip32CentralDirectoryEnd {
        disk_number: 0,
        disk_with_central_directory: 0,
        number_of_files_on_this_disk: 3,
        number_of_files: 3,
        central_directory_size: 46,
        central_directory_offset: 77,
        zip_file_comment: b"written and read back".to_vec(),
    };
    let mut c: Vec<u8> = Vec::new();
    block.clone().write(&mut c).unwrap();
    let block2 = Zip32CentralDirectoryEnd::parse(&c, 0).unwrap();
    assert_eq!(block.disk_number, block2.disk_number);
    assert_eq!(block.number_of_files, block2.number_of_files);
    assert_eq!(block.central_directory_size, block2.central_directory_size);
    assert_eq!(block.central_directory_offset, block2.central_directory_offset);
    assert_eq!(block.zip_file_comment, block2.zip_file_comment);
}

#[test]
fn leading_junk_zip64_offset() {
    // A file prefixed with a mebibyte of zeros, then a valid ZIP64
    // archive with one entry.
    let entries = vec![TestEntry::stored_text("only.txt", b"payload")];
    let junk = vec![0u8; 1_048_576];
    let v = build_archive_with(&entries, true, &junk);
    let mut reader = ZipArchive::new(v).unwrap();
    assert_eq!(reader.len(), 1);
    assert_eq!(reader.offset(), 1_048_576);
    let file = reader.by_index(0).unwrap();
    assert_eq!(file.read_to_end().unwrap(), b"payload");
}

#[test]
fn prefix_invariance() {
    // Prepending junk shifts the header and data offsets by exactly the
    // junk's length and changes nothing else of the descriptors.
    let entries = vec![
        TestEntry::stored_text("a.txt", b"alpha"),
        TestEntry::deflated_text("b.txt", b"beta beta beta beta"),
    ];
    let plain = build_archive_with(&entries, false, &[]);
    let shifted = build_archive_with(&entries, false, &[7u8; 13]);
    let mut r1 = ZipArchive::new(plain).unwrap();
    let mut r2 = ZipArchive::new(shifted).unwrap();
    assert_eq!(r1.len(), r2.len());
    assert_eq!(r1.offset(), 0);
    assert_eq!(r2.offset(), 13);
    for i in 0..r1.len() {
        let f1 = r1.by_index(i).unwrap();
        let f2 = r2.by_index(i).unwrap();
        assert_eq!(f1.name(), f2.name());
        assert_eq!(f1.crc32(), f2.crc32());
        assert_eq!(f1.compressed_size(), f2.compressed_size());
        assert_eq!(f1.size(), f2.size());
        assert_eq!(f1.header_start() + 13, f2.header_start());
        assert_eq!(f1.data_start() + 13, f2.data_start());
        assert_eq!(f1.read_to_end().unwrap(), f2.read_to_end().unwrap());
    }
}

#[test]
fn deflate_roundtrip_crc_checked() {
    let body = b"the quick brown fox jumps over the lazy dog";
    let entries = vec![TestEntry::deflated_text("fox.txt", body)];
    let v = build_archive(&entries);
    let mut reader = ZipArchive::new(v).unwrap();
    let file = reader.by_index(0).unwrap();
    assert_eq!(file.read_to_end().unwrap(), body);

    // The same archive with a corrupted recorded CRC must fail the read.
    let mut bad = TestEntry::deflated_text("fox.txt", body);
    bad.crc32 ^= 1;
    let v2 = build_archive(&[bad]);
    let mut reader2 = ZipArchive::new(v2).unwrap();
    let file2 = reader2.by_index(0).unwrap();
    assert!(file2.read_to_end().is_err());
}

#[test]
fn bzip2_and_zstd_entries() {
    let body = b"compressible compressible compressible";
    let mut bz = Vec::new();
    {
        let mut enc =
            bzip2::read::BzEncoder::new(&body[..], bzip2::Compression::default());
        std::io::Read::read_to_end(&mut enc, &mut bz).unwrap();
    }
    let zs = zstd::stream::encode_all(&body[..], 0).unwrap();
    let e_bz = TestEntry {
        name: b"a.bz2".to_vec(),
        crc32: crc32fast::hash(body),
        compressed_size: bz.len() as u32,
        uncompressed_size: body.len() as u32,
        stored: bz,
        method: 12,
        flags: 0,
        extra: Vec::new(),
    };
    let e_zs = TestEntry {
        name: b"a.zst".to_vec(),
        crc32: crc32fast::hash(body),
        compressed_size: zs.len() as u32,
        uncompressed_size: body.len() as u32,
        stored: zs,
        method: 93,
        flags: 0,
        extra: Vec::new(),
    };
    let v = build_archive(&[e_bz, e_zs]);
    let mut reader = ZipArchive::new(v).unwrap();
    assert_eq!(reader.by_index(0).unwrap().read_to_end().unwrap(), body);
    assert_eq!(reader.by_index(1).unwrap().read_to_end().unwrap(), body);
}

#[test]
fn streaming_data_descriptor_unsupported() {
    let mut entry = TestEntry::stored_text("dd.txt", b"Hello world\n");
    entry.flags = 1 << 3;
    let v = build_archive(&[entry]);
    match zip::read_zipfile_from_stream(&v, 0) {
        Err(ZipError::UnsupportedArchive(_)) => {}
        other => panic!("expected an unsupported-archive error, got {:?}", other.is_ok()),
    }
}

#[test]
fn streaming_encrypted_unsupported() {
    let mut entry = TestEntry::stored_text("sec.txt", b"secret");
    entry.flags = 1;
    let v = build_archive(&[entry]);
    match zip::read_zipfile_from_stream(&v, 0) {
        Err(ZipError::UnsupportedArchive(_)) => {}
        other => panic!("expected an unsupported-archive error, got {:?}", other.is_ok()),
    }
}

#[test]
fn encrypted_entry_needs_password() {
    let mut entry = TestEntry::stored_text("sec.txt", b"secret");
    entry.flags = 1;
    let v = build_archive(&[entry]);
    let mut reader = ZipArchive::new(v).unwrap();
    match reader.by_index(0) {
        Err(ZipError::UnsupportedArchive(_)) => {}
        other => panic!("expected an unsupported-archive error, got {:?}", other.is_ok()),
    }
}

#[test]
fn cp437_and_utf8_names() {
    // The byte pair 0x8B 0x61 is a CP437 i-with-diaeresis followed by an
    // ASCII a; with the UTF-8 flag set the same bytes decode lossily.
    let raw_name = vec![0x8Bu8, 0x61];
    let entry = TestEntry {
        name: raw_name.clone(),
        stored: b"x".to_vec(),
        crc32: crc32fast::hash(b"x"),
        compressed_size: 1,
        uncompressed_size: 1,
        method: 0,
        flags: 0,
        extra: Vec::new(),
    };
    let v = build_archive(&[entry]);
    let mut reader = ZipArchive::new(v).unwrap();
    assert_eq!(reader.by_index(0).unwrap().name(), "\u{ef}a");

    let entry_utf8 = TestEntry {
        name: raw_name.clone(),
        stored: b"x".to_vec(),
        crc32: crc32fast::hash(b"x"),
        compressed_size: 1,
        uncompressed_size: 1,
        method: 0,
        flags: 1 << 11,
        extra: Vec::new(),
    };
    let v2 = build_archive(&[entry_utf8]);
    let mut reader2 = ZipArchive::new(v2).unwrap();
    let expected = String::from_utf8_lossy(&raw_name).into_owned();
    assert_eq!(reader2.by_index(0).unwrap().name(), expected);
}

#[test]
fn ae2_crc_bypass() {
    // An AE-2 stream stores a placeholder zero CRC; the verifier must not
    // compare against it.
    let body = b"anything at all";
    assert!(zip::read::verify_crc32(body, 0, true));
    assert!(!zip::read::verify_crc32(body, 0, false));
    assert!(zip::read::verify_crc32(body, crc32fast::hash(body), false));
}

#[test]
fn aes_extra_field_parsed() {
    // An AES marker entry: the extra field names AE-2 and the real inner
    // method, which replaces the outer one.
    let mut extra = Vec::new();
    p16(&mut extra, 0x9901);
    p16(&mut extra, 7);
    p16(&mut extra, 0x0002); // AE-2
    p16(&mut extra, 0x4541); // vendor id
    extra.push(0x03); // AES-256
    p16(&mut extra, 8); // inner method: deflate
    let entry = TestEntry {
        name: b"enc".to_vec(),
        stored: b"x".to_vec(),
        crc32: 0,
        compressed_size: 1,
        uncompressed_size: 1,
        method: 99,
        flags: 1,
        extra,
    };
    let v = build_archive(&[entry]);
    let mut reader = ZipArchive::new(v).unwrap();
    match reader.by_index_raw(0) {
        Ok(file) => {
            assert_eq!(file.compression(), zip::CompressionMethod::Deflated);
        }
        Err(e) => panic!("unexpected error kind {}", e.kind_name()),
    }
}

#[test]
fn zip64_extra_sentinel_combinations() {
    // Each 32-bit field left at its sentinel pulls its true value from the
    // ZIP64 extra, in the fixed order uncompressed, compressed, offset.
    let body = b"body";
    // Sentinel on uncompressed only.
    let mut extra = Vec::new();
    p16(&mut extra, 0x0001);
    p16(&mut extra, 8);
    p64(&mut extra, body.len() as u64);
    let mut e1 = TestEntry::stored_text("one", body);
    e1.uncompressed_size = 0xFFFFFFFF;
    e1.extra = extra;
    let v = build_archive(&[e1]);
    let mut reader = ZipArchive::new(v).unwrap();
    let f = reader.by_index(0).unwrap();
    assert_eq!(f.size(), body.len() as u64);
    assert_eq!(f.compressed_size(), body.len() as u64);
    assert_eq!(f.read_to_end().unwrap(), body);

    // Sentinels on both sizes.
    let mut extra = Vec::new();
    p16(&mut extra, 0x0001);
    p16(&mut extra, 16);
    p64(&mut extra, body.len() as u64);
    p64(&mut extra, body.len() as u64);
    let mut e2 = TestEntry::stored_text("two", body);
    e2.uncompressed_size = 0xFFFFFFFF;
    e2.compressed_size = 0xFFFFFFFF;
    e2.extra = extra;
    let v = build_archive(&[e2]);
    let mut reader = ZipArchive::new(v).unwrap();
    let f = reader.by_index(0).unwrap();
    assert_eq!(f.size(), body.len() as u64);
    assert_eq!(f.compressed_size(), body.len() as u64);
    assert_eq!(f.read_to_end().unwrap(), body);

    // No sentinels: an unrelated extra field is skipped whole.
    let mut extra = Vec::new();
    p16(&mut extra, 0x7075);
    p16(&mut extra, 3);
    extra.extend_from_slice(b"abc");
    let mut e3 = TestEntry::stored_text("three", body);
    e3.extra = extra;
    let v = build_archive(&[e3]);
    let mut reader = ZipArchive::new(v).unwrap();
    let f = reader.by_index(0).unwrap();
    assert_eq!(f.size(), body.len() as u64);
    assert_eq!(f.read_to_end().unwrap(), body);
}

#[test]
fn merge_contents_roundtrip() {
    // Copy the content region into a fresh buffer, append the directory
    // and footer of the source, and the result opens with the same names
    // and contents.
    let entries = vec![
        TestEntry::stored_text("a.txt", b"alpha"),
        TestEntry::deflated_text("b.txt", b"beta beta beta"),
    ];
    let v = build_archive(&entries);
    let reader = ZipArchive::new(v.clone()).unwrap();
    let mut w: Vec<u8> = Vec::new();
    let merged = reader.merge_contents(&mut w).unwrap();
    assert_eq!(merged.len(), 2);
    // The content region is the bytes before the central directory.
    assert!(v.starts_with(&w));
    let dir_start = w.len();
    w.extend_from_slice(&v[dir_start..]);
    let mut reopened = ZipArchive::new(w).unwrap();
    assert_eq!(reopened.len(), 2);
    assert_eq!(reopened.by_index(0).unwrap().read_to_end().unwrap(), b"alpha");
    assert_eq!(
        reopened.by_index(1).unwrap().read_to_end().unwrap(),
        b"beta beta beta"
    );
    assert_eq!(reopened.name_for_index(0).unwrap(), "a.txt");
    assert_eq!(reopened.name_for_index(1).unwrap(), "b.txt");
}

#[test]
fn name_resolution_roundtrip() {
    let entries = vec![
        TestEntry::stored_text("x/one", b"1"),
        TestEntry::stored_text("x/two", b"2"),
        TestEntry::stored_text("three", b"3"),
    ];
    let v = build_archive(&entries);
    let mut reader = ZipArchive::new(v).unwrap();
    for name in ["x/one", "x/two", "three"] {
        let i = reader.index_for_name(name).unwrap();
        assert_eq!(reader.name_for_index(i).unwrap(), name);
    }
    assert!(reader.index_for_name("absent").is_none());
    assert_eq!(reader.index_for_path("./x/../x/one").unwrap(), 0);
    let file = reader.by_name("three").unwrap();
    assert_eq!(file.read_to_end().unwrap(), b"3");
    assert!(matches!(
        reader.by_name("absent"),
        Err(ZipError::FileNotFound)
    ));
}

#[test]
fn duplicate_names_collapse() {
    let entries = vec![
        TestEntry::stored_text("same", b"old"),
        TestEntry::stored_text("same", b"new"),
    ];
    let v = build_archive(&entries);
    let mut reader = ZipArchive::new(v).unwrap();
    assert_eq!(reader.len(), 1);
    assert_eq!(reader.by_index(0).unwrap().read_to_end().unwrap(), b"new");
}

#[test]
fn declared_count_matches_len() {
    let entries = vec![
        TestEntry::stored_text("p", b"1"),
        TestEntry::stored_text("q", b"2"),
        TestEntry::stored_text("r", b"3"),
    ];
    let v = build_archive(&entries);
    let reader = ZipArchive::new(v).unwrap();
    assert_eq!(reader.len(), 3);
}

#[test]
fn decompressed_size_totals() {
    let entries = vec![
        TestEntry::stored_text("p", b"12345"),
        TestEntry::stored_text("q", b"123"),
    ];
    let v = build_archive(&entries);
    let reader = ZipArchive::new(v).unwrap();
    assert_eq!(reader.decompressed_size(), Some(8));

    let mut dd = TestEntry::stored_text("p", b"12345");
    dd.flags = 1 << 3;
    let v2 = build_archive(&[dd]);
    let reader2 = ZipArchive::new(v2).unwrap();
    assert_eq!(reader2.decompressed_size(), None);
}

#[test]
fn by_index_raw_returns_stored_bytes() {
    let body = b"raw raw raw raw raw raw";
    let entry = TestEntry::deflated_text("r.txt", body);
    let stored = entry.stored.clone();
    let v = build_archive(&[entry]);
    let mut reader = ZipArchive::new(v).unwrap();
    let file = reader.by_index_raw(0).unwrap();
    assert_eq!(file.read_to_end().unwrap(), stored);
}

#[test]
fn unsupported_method_refused() {
    let entry = TestEntry {
        name: b"odd".to_vec(),
        stored: b"x".to_vec(),
        crc32: crc32fast::hash(b"x"),
        compressed_size: 1,
        uncompressed_size: 1,
        method: 42,
        flags: 0,
        extra: Vec::new(),
    };
    let v = build_archive(&[entry]);
    let mut reader = ZipArchive::new(v).unwrap();
    match reader.by_index(0) {
        Err(ZipError::UnsupportedArchive(_)) => {}
        other => panic!("expected an unsupported-archive error, got {:?}", other.is_ok()),
    }
}

#[test]
fn file_not_found_by_index() {
    let entries = vec![TestEntry::stored_text("only", b"1")];
    let v = build_archive(&entries);
    let mut reader = ZipArchive::new(v).unwrap();
    assert!(matches!(reader.by_index(5), Err(ZipError::FileNotFound)));
}

#[test]
fn empty_archive() {
    let v = build_archive(&[]);
    let reader = ZipArchive::new(v).unwrap();
    assert_eq!(reader.len(), 0);
    assert!(reader.is_empty());
    assert_eq!(reader.decompressed_size(), Some(0));
    assert!(reader.file_names().is_empty());
    let mut w = Vec::new();
    let merged = reader.merge_contents(&mut w).unwrap();
    assert!(merged.is_empty());
    assert!(w.is_empty());
}

#[test]
fn archive_comment_preserved() {
    let mut v = build_archive(&[TestEntry::stored_text("c", b"1")]);
    // Rewrite the comment length at the end of the footer and append the
    // comment bytes.
    let n = v.len();
    v[n - 2] = 5;
    v[n - 1] = 0;
    v.extend_from_slice(b"notes");
    let reader = ZipArchive::new(v).unwrap();
    assert_eq!(reader.comment(), b"notes");
}

struct ZcKeys {
    k0: u32,
    k1: u32,
    k2: u32,
}

fn zc_crc32_update(crc: u32, b: u8) -> u32 {
    let mut x = crc ^ b as u32;
    for _ in 0..8 {
        x = if x & 1 == 1 { (x >> 1) ^ 0xEDB88320 } else { x >> 1 };
    }
    x
}

fn zc_update(k: &mut ZcKeys, b: u8) {
    k.k0 = zc_crc32_update(k.k0, b);
    k.k1 = k.k1.wrapping_add(k.k0 & 0xFF).wrapping_mul(134775813).wrapping_add(1);
    k.k2 = zc_crc32_update(k.k2, (k.k1 >> 24) as u8);
}

fn zc_keystream(k: &ZcKeys) -> u8 {
    let t = (k.k2 as u16) | 2;
    ((t.wrapping_mul(t ^ 1)) >> 8) as u8
}

fn zc_encrypt(pw: &[u8], plain: &[u8]) -> Vec<u8> {
    let mut k = ZcKeys { k0: 0x12345678, k1: 0x23456789, k2: 0x34567890 };
    for &b in pw {
        zc_update(&mut k, b);
    }
    let mut out = Vec::new();
    for &p in plain {
        out.push(p ^ zc_keystream(&k));
        zc_update(&mut k, p);
    }
    out
}

fn zipcrypto_entry(name: &str, data: &[u8], pw: &[u8]) -> TestEntry {
    let crc = crc32fast::hash(data);
    let mut plain = vec![0x11u8; 11];
    plain.push((crc >> 24) as u8); // the prelude's check byte
    plain.extend_from_slice(data);
    let stored = zc_encrypt(pw, &plain);
    TestEntry {
        name: name.as_bytes().to_vec(),
        crc32: crc,
        compressed_size: stored.len() as u32,
        uncompressed_size: data.len() as u32,
        stored,
        method: 0,
        flags: 1,
        extra: Vec::new(),
    }
}

#[test]
fn zipcrypto_roundtrip() {
    let body = b"kept under the legacy stream cipher";
    let entry = zipcrypto_entry("sec.txt", body, b"secret");
    let v = build_archive(&[entry]);
    let mut reader = ZipArchive::new(v).unwrap();
    let file = reader.by_index_decrypt(0, b"secret").unwrap();
    assert_eq!(file.read_to_end().unwrap(), body);
    let file = reader.by_name_decrypt("sec.txt", b"secret").unwrap();
    assert_eq!(file.read_to_end().unwrap(), body);
}

#[test]
fn zipcrypto_wrong_password_rejected() {
    let body = b"kept under the legacy stream cipher";
    let entry = zipcrypto_entry("sec.txt", body, b"secret");
    let v = build_archive(&[entry]);
    let mut reader = ZipArchive::new(v).unwrap();
    match reader.by_index_decrypt(0, b"guess") {
        Err(ZipError::InvalidPassword) => {}
        other => panic!("expected an invalid-password error, got {:?}", other.is_ok()),
    }
}

#[test]
fn zipcrypto_truncated_prelude() {
    // An encrypted payload shorter than the 12-byte prelude cannot be
    // validated at all.
    let mut entry = TestEntry::stored_text("sec", b"x");
    entry.flags = 1;
    let v = build_archive(&[entry]);
    let mut reader = ZipArchive::new(v).unwrap();
    match reader.by_index_decrypt(0, b"password") {
        Err(ZipError::Io(_)) => {}
        other => panic!("expected an i/o error, got {:?}", other.is_ok()),
    }
}

#[test]
fn aes_decrypt_unsupported() {
    // A password cannot open an AES entry: this build carries no AES codec.
    let mut extra = Vec::new();
    p16(&mut extra, 0x9901);
    p16(&mut extra, 7);
    p16(&mut extra, 0x0001); // AE-1
    p16(&mut extra, 0x4541); // vendor id
    extra.push(0x01); // AES-128
    p16(&mut extra, 0); // inner method: stored
    let entry = TestEntry {
        name: b"sec".to_vec(),
        stored: vec![0u8; 32],
        crc32: 0,
        compressed_size: 32,
        uncompressed_size: 16,
        method: 99,
        flags: 1,
        extra,
    };
    let v = build_archive(&[entry]);
    let mut reader = ZipArchive::new(v).unwrap();
    match reader.by_name_decrypt("sec", b"password") {
        Err(ZipError::UnsupportedArchive(_)) => {}
        other => panic!("expected an unsupported-archive error, got {:?}", other.is_ok()),
    }
    match reader.by_index_decrypt(0, b"password") {
        Err(ZipError::UnsupportedArchive(_)) => {}
        other => panic!("expected an unsupported-archive error, got {:?}", other.is_ok()),
    }
}

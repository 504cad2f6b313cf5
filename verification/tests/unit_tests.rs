//! Unit behaviour: path handling, text decoding, timestamps, methods,
//! little-endian primitives and the extraction plan.

use zip::blocks::Magic;
use zip::blocks::Zip64CentralDirectoryEnd;
use zip::blocks::Zip64CentralDirectoryEndLocator;
use zip::paths::CompletedPaths;
use zip::pipeline::{chunk_len, plan_extraction, spool_in_memory};
use zip::CompressionMethod;

#[test]
fn enclosed_name_cases() {
    assert_eq!(zip::paths::enclosed_name_of("foo/bar").as_deref(), Some("foo/bar"));
    assert_eq!(zip::paths::enclosed_name_of("foo/../bar").as_deref(), Some("bar"));
    assert_eq!(zip::paths::enclosed_name_of("foo/./bar").as_deref(), Some("foo/bar"));
    assert_eq!(zip::paths::enclosed_name_of("foo//bar").as_deref(), Some("foo/bar"));
    assert_eq!(zip::paths::enclosed_name_of("dir/").as_deref(), Some("dir/"));
    assert_eq!(zip::paths::enclosed_name_of("foo/../../bar"), None);
    assert_eq!(zip::paths::enclosed_name_of("../x"), None);
    assert_eq!(zip::paths::enclosed_name_of("/etc/shadow"), None);
    assert_eq!(zip::paths::enclosed_name_of("a\u{0}b"), None);
}

#[test]
fn mangled_name_cases() {
    assert_eq!(zip::paths::mangled_name_of("/etc/shadow"), "etc/shadow");
    assert_eq!(zip::paths::mangled_name_of("../../x"), "x");
    assert_eq!(zip::paths::mangled_name_of("a\u{0}b/c"), "a");
    assert_eq!(zip::paths::mangled_name_of("foo/../bar"), "bar");
}

#[test]
fn path_to_string_cases() {
    assert_eq!(zip::paths::path_to_string("a/b/c"), "a/b/c");
    assert_eq!(zip::paths::path_to_string("./a//b"), "a/b");
    assert_eq!(zip::paths::path_to_string("/lead"), "lead");
    assert_eq!(zip::paths::path_to_string("a/../b"), "b");
}

#[test]
fn is_dir_cases() {
    assert!(zip::paths::is_dir("x/"));
    assert!(zip::paths::is_dir("x\\"));
    assert!(!zip::paths::is_dir("x"));
    assert!(!zip::paths::is_dir(""));
}

#[test]
fn completed_paths_tracking() {
    let dirs = CompletedPaths::containing_dirs("a/b/c");
    assert_eq!(dirs, vec!["a/b".to_string(), "a".to_string()]);
    let dirs = CompletedPaths::containing_dirs("a/b/c/");
    assert_eq!(
        dirs,
        vec!["a/b/c".to_string(), "a/b".to_string(), "a".to_string()]
    );
    assert!(CompletedPaths::containing_dirs("plain").is_empty());

    let mut seen = CompletedPaths::new();
    assert!(!seen.contains("a"));
    let needed = seen.new_containing_dirs_needed("a/b/c");
    assert_eq!(needed, vec!["a".to_string(), "a/b".to_string()]);
    seen.write_dirs(&needed);
    assert!(seen.contains("a"));
    assert!(seen.contains("a/b"));
    assert!(seen.new_containing_dirs_needed("a/b/c").is_empty());
    let more = seen.new_containing_dirs_needed("a/b/d/e");
    assert_eq!(more, vec!["a/b/d".to_string()]);
}

#[test]
fn cp437_decoding() {
    assert_eq!(zip::cp437::from_cp437(&[0x8B, 0x61]), "\u{ef}a");
    assert_eq!(zip::cp437::from_cp437(b"plain ASCII!"), "plain ASCII!");
    assert_eq!(zip::cp437::from_cp437(&[0xE1]), "\u{df}");
    assert_eq!(zip::cp437::from_cp437(&[0xFF]), "\u{a0}");
}

#[test]
fn datetime_fields() {
    let t = zip::DateTime::from_msdos(0x0021, 0);
    assert_eq!(
        (t.year(), t.month(), t.day(), t.hour(), t.minute(), t.second()),
        (1980, 1, 1, 0, 0, 0)
    );
    // 2018-11-17 10:38:30 in packed DOS form.
    let t = zip::DateTime::from_msdos(0x4D71, 0x54CF);
    assert_eq!(t.year(), 2018);
    assert_eq!(t.month(), 11);
    assert_eq!(t.day(), 17);
    assert_eq!(t.hour(), 10);
    assert_eq!(t.minute(), 38);
    assert_eq!(t.second(), 30);
}

#[test]
fn compression_method_ids() {
    assert_eq!(CompressionMethod::from_u16(0), CompressionMethod::Stored);
    assert_eq!(CompressionMethod::from_u16(8), CompressionMethod::Deflated);
    assert_eq!(CompressionMethod::from_u16(9), CompressionMethod::Deflate64);
    assert_eq!(CompressionMethod::from_u16(12), CompressionMethod::Bzip2);
    assert_eq!(CompressionMethod::from_u16(14), CompressionMethod::Lzma);
    assert_eq!(CompressionMethod::from_u16(93), CompressionMethod::Zstd);
    assert_eq!(CompressionMethod::from_u16(99), CompressionMethod::Aes);
    assert_eq!(
        CompressionMethod::from_u16(42),
        CompressionMethod::Unsupported(42)
    );
    for id in [0u16, 8, 9, 12, 14, 93, 99, 42] {
        assert_eq!(CompressionMethod::from_u16(id).to_u16(), id);
    }
}

#[test]
fn little_endian_primitives() {
    let data = vec![0x50u8, 0x4B, 0x05, 0x06, 0xFF];
    assert_eq!(zip::bytes::read_u16_le(&data, 0), Some(0x4B50));
    assert_eq!(zip::bytes::read_u32_le(&data, 0), Some(0x06054B50));
    assert_eq!(zip::bytes::read_u32_le(&data, 2), None);
    let mut out = Vec::new();
    zip::bytes::push_u32_le(&mut out, 0x06054B50);
    assert_eq!(out, vec![0x50, 0x4B, 0x05, 0x06]);
    zip::bytes::push_u16_le(&mut out, 0x0201);
    assert_eq!(&out[4..], &[0x01, 0x02]);
    let mut big = Vec::new();
    zip::bytes::push_u64_le(&mut big, 0x0807060504030201);
    assert_eq!(big, vec![1, 2, 3, 4, 5, 6, 7, 8]);
    assert_eq!(zip::bytes::read_u64_le(&big, 0), Some(0x0807060504030201));
}

#[test]
fn magic_roundtrip() {
    let m = Magic::literal(0x04034B50);
    assert_eq!(m.to_le_bytes(), [0x50, 0x4B, 0x03, 0x04]);
    assert_eq!(Magic::from_le_bytes([0x50, 0x4B, 0x03, 0x04]), m);
    assert_eq!(Magic::from_first_le_bytes(&[0x50, 0x4B, 0x03, 0x04, 0x99]), m);
}

#[test]
fn zip64_locator_roundtrip() {
    let loc = Zip64CentralDirectoryEndLocator {
        disk_with_central_directory: 0,
        end_of_central_directory_offset: 0x0123456789,
        number_of_disks: 1,
    };
    let mut out = Vec::new();
    loc.write(&mut out).unwrap();
    assert_eq!(out.len(), 20);
    let back = Zip64CentralDirectoryEndLocator::parse(&out, 0).unwrap();
    assert_eq!(back.end_of_central_directory_offset, 0x0123456789);
    assert_eq!(back.number_of_disks, 1);
}

#[test]
fn zip64_end_roundtrip() {
    let end = Zip64CentralDirectoryEnd {
        version_made_by: 45,
        version_needed_to_extract: 45,
        disk_number: 0,
        disk_with_central_directory: 0,
        number_of_files_on_this_disk: 2,
        number_of_files: 2,
        central_directory_size: 92,
        central_directory_offset: 0x100000000,
    };
    let mut out = Vec::new();
    end.write(&mut out).unwrap();
    assert_eq!(out.len(), 56);
    let back = Zip64CentralDirectoryEnd::parse(&out, 0).unwrap();
    assert_eq!(back.number_of_files, 2);
    assert_eq!(back.central_directory_offset, 0x100000000);
}

#[test]
fn crc32_known_value() {
    // The standard check value of CRC-32.
    assert!(zip::read::verify_crc32(b"123456789", 0xCBF43926, false));
    assert!(!zip::read::verify_crc32(b"123456789", 0xCBF43927, false));
}

#[test]
fn extraction_plan() {
    let mk = |name: &str| zip::ZipFileData {
        system: zip::types::System::Unix,
        version_made_by: 20,
        encrypted: false,
        using_data_descriptor: false,
        is_utf8: false,
        compression_method: zip::CompressionMethod::Stored,
        last_modified_time: zip::DateTime::from_msdos(0x21, 0),
        crc32: 0,
        compressed_size: 0,
        uncompressed_size: 0,
        file_name: name.to_string(),
        file_name_raw: name.as_bytes().to_vec(),
        extra_field: Vec::new(),
        file_comment: String::new(),
        header_start: 0,
        central_header_start: 0,
        data_start: None,
        external_attributes: 0,
        large_file: false,
        aes_mode: None,
        extra_fields: Vec::new(),
    };
    let files = vec![mk("d/"), mk("d/a"), mk("b")];
    let (paths, stops) = plan_extraction(&files).unwrap();
    assert_eq!(paths, vec!["d/".to_string(), "d/a".to_string(), "b".to_string()]);
    assert_eq!(stops.len(), 2);
    assert_eq!(stops[0].0, 1);
    assert_eq!(stops[0].1, "d/a");
    assert_eq!(stops[1].0, 2);
    assert_eq!(stops[1].1, "b");

    let bad = vec![mk("../escape")];
    assert!(plan_extraction(&bad).is_err());

    assert_eq!(chunk_len(10, 4), 2);
    assert_eq!(chunk_len(3, 8), 3);
    assert_eq!(chunk_len(0, 4), 0);
    assert!(spool_in_memory(1999, 2000));
    assert!(!spool_in_memory(2000, 2000));
}

#[test]
fn unix_mode_attributes() {
    let mut d = zip::ZipFileData {
        system: zip::types::System::Unix,
        version_made_by: 20,
        encrypted: false,
        using_data_descriptor: false,
        is_utf8: false,
        compression_method: zip::CompressionMethod::Stored,
        last_modified_time: zip::DateTime::from_msdos(0x21, 0),
        crc32: 0,
        compressed_size: 0,
        uncompressed_size: 0,
        file_name: "f".to_string(),
        file_name_raw: b"f".to_vec(),
        extra_field: Vec::new(),
        file_comment: String::new(),
        header_start: 0,
        central_header_start: 0,
        data_start: None,
        external_attributes: 0o100644 << 16,
        large_file: false,
        aes_mode: None,
        extra_fields: Vec::new(),
    };
    assert_eq!(d.unix_mode(), Some(0o100644));
    d.external_attributes = 0;
    assert_eq!(d.unix_mode(), None);
    d.system = zip::types::System::Dos;
    d.external_attributes = 0x10; // directory bit
    assert_eq!(d.unix_mode(), Some(0o40777));
    d.external_attributes = 0x01; // read-only bit
    assert_eq!(d.unix_mode(), Some(0o100444));
}

#[test]
fn extended_timestamp_extra() {
    let mut extra = Vec::new();
    extra.extend_from_slice(&0x5455u16.to_le_bytes());
    extra.extend_from_slice(&5u16.to_le_bytes());
    extra.push(1); // modification time present
    extra.extend_from_slice(&1_700_000_000u32.to_le_bytes());
    let mut d = zip::ZipFileData {
        system: zip::types::System::Unix,
        version_made_by: 20,
        encrypted: false,
        using_data_descriptor: false,
        is_utf8: false,
        compression_method: zip::CompressionMethod::Stored,
        last_modified_time: zip::DateTime::from_msdos(0x21, 0),
        crc32: 0,
        compressed_size: 0,
        uncompressed_size: 0,
        file_name: "f".to_string(),
        file_name_raw: b"f".to_vec(),
        extra_field: extra,
        file_comment: String::new(),
        header_start: 0,
        central_header_start: 0,
        data_start: None,
        external_attributes: 0,
        large_file: false,
        aes_mode: None,
        extra_fields: Vec::new(),
    };
    zip::extra::parse_extra_field(&mut d).unwrap();
    assert_eq!(d.extra_fields.len(), 1);
    let zip::types::ExtraField::ExtendedTimestamp(ts) = d.extra_fields[0];
    assert_eq!(ts.mod_time, Some(1_700_000_000));
    assert_eq!(ts.ac_time, None);
}

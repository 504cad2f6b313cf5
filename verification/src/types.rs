//! The data model of an archive entry: compression methods, the recording
//! system, DOS timestamps, AES markers and the per-entry descriptor that the
//! central directory parser produces.

use vstd::prelude::*;

verus! {

/// The system that wrote an entry, from the high byte of `version_made_by`.
#[derive(Clone, Copy, Debug, PartialEq, Eq, Structural)]
pub enum System {
    Dos,
    Unix,
    Unknown,
}

impl System {
    /// Decode the high byte of `version_made_by`.
    pub fn from_u8(system: u8) -> (r: System)
        ensures
            r == System::spec_from_u8(system),
    {
        match system {
            0 => System::Dos,
            3 => System::Unix,
            _ => System::Unknown,
        }
    }

    /// The decoding of the high byte of `version_made_by`.
    pub open spec fn spec_from_u8(system: u8) -> System {
        match system {
            0 => System::Dos,
            3 => System::Unix,
            _ => System::Unknown,
        }
    }
}

/// A compression method, identified by its numeric id in the central
/// directory.
#[derive(Clone, Copy, Debug, PartialEq, Eq, Structural)]
pub enum CompressionMethod {
    Stored,
    Deflated,
    Deflate64,
    Bzip2,
    Lzma,
    Zstd,
    Aes,
    Unsupported(u16),
}

impl CompressionMethod {
    /// The method denoted by a numeric id.
    pub open spec fn spec_from_u16(val: u16) -> CompressionMethod {
        match val {
            0 => CompressionMethod::Stored,
            8 => CompressionMethod::Deflated,
            9 => CompressionMethod::Deflate64,
            12 => CompressionMethod::Bzip2,
            14 => CompressionMethod::Lzma,
            93 => CompressionMethod::Zstd,
            99 => CompressionMethod::Aes,
            v => CompressionMethod::Unsupported(v),
        }
    }

    /// Decode a numeric method id.
    pub fn from_u16(val: u16) -> (r: CompressionMethod)
        ensures
            r == CompressionMethod::spec_from_u16(val),
    {
        match val {
            0 => CompressionMethod::Stored,
            8 => CompressionMethod::Deflated,
            9 => CompressionMethod::Deflate64,
            12 => CompressionMethod::Bzip2,
            14 => CompressionMethod::Lzma,
            93 => CompressionMethod::Zstd,
            99 => CompressionMethod::Aes,
            v => CompressionMethod::Unsupported(v),
        }
    }

    /// The numeric id this method is written as.
    pub fn to_u16(self) -> (r: u16)
        ensures
            self is Unsupported ==> r == self->Unsupported_0,
            !(self is Unsupported) ==> CompressionMethod::spec_from_u16(r) == self,
    {
        match self {
            CompressionMethod::Stored => 0,
            CompressionMethod::Deflated => 8,
            CompressionMethod::Deflate64 => 9,
            CompressionMethod::Bzip2 => 12,
            CompressionMethod::Lzma => 14,
            CompressionMethod::Zstd => 93,
            CompressionMethod::Aes => 99,
            CompressionMethod::Unsupported(v) => v,
        }
    }
}

/// A last-modification timestamp in MS-DOS format: a packed date word and a
/// packed time word.
#[derive(Clone, Copy, Debug, PartialEq, Eq, Structural)]
pub struct DateTime {
    pub datepart: u16,
    pub timepart: u16,
}

impl DateTime {
    /// Wrap the two packed words as read from a header.
    pub fn from_msdos(datepart: u16, timepart: u16) -> (r: DateTime)
        ensures
            r.datepart == datepart,
            r.timepart == timepart,
    {
        DateTime { datepart, timepart }
    }

    /// The packed time word.
    pub fn timepart(&self) -> (r: u16)
        ensures
            r == self.timepart,
    {
        self.timepart
    }

    /// The packed date word.
    pub fn datepart(&self) -> (r: u16)
        ensures
            r == self.datepart,
    {
        self.datepart
    }

    /// The year, counted from the DOS epoch of 1980.
    pub fn year(&self) -> (r: u16)
        ensures
            r == 1980 + self.datepart / 512,
    {
        1980 + self.datepart / 512
    }

    /// The month, 1 to 12 in a well-formed timestamp.
    pub fn month(&self) -> (r: u16)
        ensures
            r == (self.datepart / 32) % 16,
    {
        (self.datepart / 32) % 16
    }

    /// The day of the month, 1 to 31 in a well-formed timestamp.
    pub fn day(&self) -> (r: u16)
        ensures
            r == self.datepart % 32,
    {
        self.datepart % 32
    }

    /// The hour, 0 to 23 in a well-formed timestamp.
    pub fn hour(&self) -> (r: u16)
        ensures
            r == self.timepart / 2048,
    {
        self.timepart / 2048
    }

    /// The minute, 0 to 59 in a well-formed timestamp.
    pub fn minute(&self) -> (r: u16)
        ensures
            r == (self.timepart / 32) % 64,
    {
        (self.timepart / 32) % 64
    }

    /// The second, rounded down to an even value.
    pub fn second(&self) -> (r: u16)
        ensures
            r == (self.timepart % 32) * 2,
    {
        (self.timepart % 32) * 2
    }
}

/// The strength of WinZip AES encryption.
#[derive(Clone, Copy, Debug, PartialEq, Eq, Structural)]
pub enum AesMode {
    Aes128,
    Aes192,
    Aes256,
}

/// The WinZip AES scheme version. AE-2 deliberately stores a zero CRC, so
/// the outer CRC check is skipped for it.
#[derive(Clone, Copy, Debug, PartialEq, Eq, Structural)]
pub enum AesVendorVersion {
    Ae1,
    Ae2,
}

/// An extended (Unix-epoch) timestamp carried in an extra field.
#[derive(Clone, Copy, Debug, PartialEq, Eq, Structural)]
pub struct ExtendedTimestamp {
    pub flags: u8,
    pub mod_time: Option<u32>,
    pub ac_time: Option<u32>,
    pub cr_time: Option<u32>,
}

/// A recognized, structured extra field.
#[derive(Clone, Copy, Debug, PartialEq, Eq, Structural)]
pub enum ExtraField {
    ExtendedTimestamp(ExtendedTimestamp),
}

/// Everything the central directory records about one entry.
#[derive(Debug, Clone)]
pub struct ZipFileData {
    /// The system that wrote the entry.
    pub system: System,
    /// The low byte of `version_made_by`.
    pub version_made_by: u8,
    /// Flag bit 0: the payload is encrypted.
    pub encrypted: bool,
    /// Flag bit 3: sizes and CRC live in a trailing data descriptor.
    pub using_data_descriptor: bool,
    /// Flag bit 11: the name and comment are UTF-8 rather than CP437.
    pub is_utf8: bool,
    /// The method the payload is stored with; for AES entries this is the
    /// inner method from the AES extra field.
    pub compression_method: CompressionMethod,
    /// Last modification time in MS-DOS format.
    pub last_modified_time: DateTime,
    /// CRC-32 of the uncompressed payload (zero for AE-2 AES entries).
    pub crc32: u32,
    /// Size of the stored payload, widened to 64 bits.
    pub compressed_size: u64,
    /// Size of the uncompressed payload, widened to 64 bits.
    pub uncompressed_size: u64,
    /// The decoded entry name.
    pub file_name: String,
    /// The raw bytes the name was decoded from.
    pub file_name_raw: Vec<u8>,
    /// The raw extra field bytes.
    pub extra_field: Vec<u8>,
    /// The decoded entry comment.
    pub file_comment: String,
    /// Offset of the local header, absolute in the underlying bytes.
    pub header_start: u64,
    /// Offset of this entry's central directory header.
    pub central_header_start: u64,
    /// Offset of the stored payload, once it has been located.
    pub data_start: Option<u64>,
    /// The external attributes word.
    pub external_attributes: u32,
    /// Whether a ZIP64 extra field widened a size or offset.
    pub large_file: bool,
    /// AES strength, scheme version and inner method, when the entry is
    /// AES-encrypted.
    pub aes_mode: Option<(AesMode, AesVendorVersion, CompressionMethod)>,
    /// The recognized, structured extra fields.
    pub extra_fields: Vec<ExtraField>,
}

/// The mathematical content of an entry descriptor: every field, with text
/// and byte fields as sequences.
pub struct EntryView {
    pub system: System,
    pub version_made_by: u8,
    pub encrypted: bool,
    pub using_data_descriptor: bool,
    pub is_utf8: bool,
    pub compression_method: CompressionMethod,
    pub last_modified_time: DateTime,
    pub crc32: u32,
    pub compressed_size: u64,
    pub uncompressed_size: u64,
    pub file_name: Seq<char>,
    pub file_name_raw: Seq<u8>,
    pub extra_field: Seq<u8>,
    pub file_comment: Seq<char>,
    pub header_start: u64,
    pub central_header_start: u64,
    pub data_start: Option<u64>,
    pub external_attributes: u32,
    pub large_file: bool,
    pub aes_mode: Option<(AesMode, AesVendorVersion, CompressionMethod)>,
    pub extra_fields: Seq<ExtraField>,
}

impl View for ZipFileData {
    type V = EntryView;

    open spec fn view(&self) -> EntryView {
        EntryView {
            system: self.system,
            version_made_by: self.version_made_by,
            encrypted: self.encrypted,
            using_data_descriptor: self.using_data_descriptor,
            is_utf8: self.is_utf8,
            compression_method: self.compression_method,
            last_modified_time: self.last_modified_time,
            crc32: self.crc32,
            compressed_size: self.compressed_size,
            uncompressed_size: self.uncompressed_size,
            file_name: self.file_name@,
            file_name_raw: self.file_name_raw@,
            extra_field: self.extra_field@,
            file_comment: self.file_comment@,
            header_start: self.header_start,
            central_header_start: self.central_header_start,
            data_start: self.data_start,
            external_attributes: self.external_attributes,
            large_file: self.large_file,
            aes_mode: self.aes_mode,
            extra_fields: self.extra_fields@,
        }
    }
}

/// Copy a byte vector.
pub fn clone_bytes(v: &Vec<u8>) -> (r: Vec<u8>)
    ensures
        r@ == v@,
{
    let mut out: Vec<u8> = Vec::new();
    let n = v.len();
    let mut i: usize = 0;
    while i < n
        invariant
            n == v@.len(),
            i <= n,
            out@ == v@.subrange(0, i as int),
        decreases n - i,
    {
        out.push(v[i]);
        proof {
            assert(out@ =~= v@.subrange(0, i + 1));
        }
        i = i + 1;
    }
    proof {
        assert(v@.subrange(0, n as int) =~= v@);
    }
    out
}

/// The POSIX permission bits a descriptor records, where the recording
/// system defined any: the high half of the attributes word for Unix, a
/// mode synthesized from the directory and read-only bits for DOS.
pub open spec fn unix_mode_of(v: EntryView) -> Option<u32> {
    if v.external_attributes == 0 {
        None
    } else {
        match v.system {
            System::Unix => Some((v.external_attributes / 0x10000) as u32),
            System::Dos => {
                let base: u32 = if v.external_attributes % 32 >= 16 {
                    0o40777
                } else {
                    0o100666
                };
                if v.external_attributes % 2 == 1 {
                    Some((base - 0o222) as u32)
                } else {
                    Some(base)
                }
            },
            System::Unknown => None,
        }
    }
}

impl ZipFileData {
    /// An exact copy of this descriptor.
    pub fn clone_entry(&self) -> (r: ZipFileData)
        ensures
            r@ == self@,
    {
        let mut extra_fields: Vec<ExtraField> = Vec::new();
        let n = self.extra_fields.len();
        let mut i: usize = 0;
        while i < n
            invariant
                n == self.extra_fields@.len(),
                i <= n,
                extra_fields@ == self.extra_fields@.subrange(0, i as int),
            decreases n - i,
        {
            extra_fields.push(self.extra_fields[i]);
            proof {
                assert(extra_fields@ =~= self.extra_fields@.subrange(0, i + 1));
            }
            i = i + 1;
        }
        proof {
            assert(self.extra_fields@.subrange(0, n as int) =~= self.extra_fields@);
        }
        ZipFileData {
            system: self.system,
            version_made_by: self.version_made_by,
            encrypted: self.encrypted,
            using_data_descriptor: self.using_data_descriptor,
            is_utf8: self.is_utf8,
            compression_method: self.compression_method,
            last_modified_time: self.last_modified_time,
            crc32: self.crc32,
            compressed_size: self.compressed_size,
            uncompressed_size: self.uncompressed_size,
            file_name: self.file_name.clone(),
            file_name_raw: clone_bytes(&self.file_name_raw),
            extra_field: clone_bytes(&self.extra_field),
            file_comment: self.file_comment.clone(),
            header_start: self.header_start,
            central_header_start: self.central_header_start,
            data_start: self.data_start,
            external_attributes: self.external_attributes,
            large_file: self.large_file,
            aes_mode: self.aes_mode,
            extra_fields,
        }
    }

    /// Whether the entry is a directory: its decoded name ends in a
    /// separator.
    pub open spec fn spec_is_dir(&self) -> bool {
        self.file_name@.len() > 0 && (self.file_name@.last() == '/' || self.file_name@.last()
            == '\\')
    }

    /// The POSIX permission bits of the entry, where the recording system
    /// defined any.
    pub open spec fn spec_unix_mode(&self) -> Option<u32> {
        unix_mode_of(self@)
    }

    /// The POSIX permission bits of the entry, if any were recorded.
    pub fn unix_mode(&self) -> (r: Option<u32>)
        ensures
            r == self.spec_unix_mode(),
    {
        if self.external_attributes == 0 {
            return None;
        }
        match self.system {
            System::Unix => Some(self.external_attributes / 0x10000),
            System::Dos => {
                let base: u32 = if self.external_attributes % 32 >= 16 {
                    0o40777
                } else {
                    0o100666
                };
                if self.external_attributes % 2 == 1 {
                    Some(base - 0o222)
                } else {
                    Some(base)
                }
            },
            System::Unknown => None,
        }
    }
}

} // verus!

//! The fixed-layout records that frame a ZIP archive: the end-of-central-
//! directory record, its ZIP64 counterpart and locator, and the reverse
//! searches that locate them in a buffer that may carry arbitrary prefixed
//! junk.

use vstd::prelude::*;

use crate::bytes::{
    read_bytes, u16_at, u16_le_at, u16_le_bytes, u32_at, u32_le_at, u32_le_bytes, u64_at,
    u64_le_at, u64_le_bytes,
};
use crate::errors::{ZipError, ZipResult};

verus! {

/// A 32-bit tag marking the start of one of the fixed-layout records of the
/// ZIP format.
#[derive(Clone, Copy, Debug, PartialEq, Eq, Structural)]
pub struct Magic(pub u32);

impl Magic {
    /// Wrap a known literal tag value.
    pub fn literal(x: u32) -> (r: Self)
        ensures
            r.0 == x,
    {
        Magic(x)
    }

    /// The tag encoded by four little-endian bytes.
    pub fn from_le_bytes(b: [u8; 4]) -> (r: Self)
        ensures
            r.0 == u32_le_at(b@, 0),
    {
        let b0 = b[0] as u32;
        let b1 = b[1] as u32;
        let b2 = b[2] as u32;
        let b3 = b[3] as u32;
        Magic(b0 + b1 * 0x100 + b2 * 0x10000 + b3 * 0x1000000)
    }

    /// The tag encoded by the first four bytes of `data`.
    pub fn from_first_le_bytes(data: &[u8]) -> (r: Self)
        requires
            data@.len() >= 4,
        ensures
            r.0 == u32_le_at(data@, 0),
    {
        Magic(u32_at(data, 0))
    }

    /// The four little-endian bytes of the tag.
    pub fn to_le_bytes(self) -> (r: [u8; 4])
        ensures
            r@ == u32_le_bytes(self.0),
    {
        let r = [
            (self.0 % 0x100) as u8,
            ((self.0 / 0x100) % 0x100) as u8,
            ((self.0 / 0x10000) % 0x100) as u8,
            (self.0 / 0x1000000) as u8,
        ];
        assert(r@ =~= u32_le_bytes(self.0));
        r
    }
}

/// Tag of a local file header.
pub const LOCAL_FILE_HEADER_SIGNATURE: u32 = 0x04034b50;

/// Tag of a central directory header.
pub const CENTRAL_DIRECTORY_HEADER_SIGNATURE: u32 = 0x02014b50;

/// Tag of the end-of-central-directory record.
pub const CENTRAL_DIRECTORY_END_SIGNATURE: u32 = 0x06054b50;

/// Tag of the ZIP64 end-of-central-directory record.
pub const ZIP64_CENTRAL_DIRECTORY_END_SIGNATURE: u32 = 0x06064b50;

/// Tag of the ZIP64 end-of-central-directory locator.
pub const ZIP64_CENTRAL_DIRECTORY_END_LOCATOR_SIGNATURE: u32 = 0x07064b50;

/// The sentinel for 32-bit size and offset fields whose true value lives in
/// a ZIP64 extra field.
pub const ZIP64_BYTES_THR: u64 = 0xFFFFFFFF;

/// The sentinel for 16-bit count fields whose true value lives in the ZIP64
/// end-of-central-directory record.
pub const ZIP64_ENTRY_THR: usize = 0xFFFF;

/// A fixed-layout record with a leading magic tag and little-endian fields.
///
/// `interpret` decodes the record from a buffer position and fails exactly
/// when the buffer is too short or the tag is wrong; `encode` appends the
/// record's exact byte image.
pub trait Block: Sized {
    /// The width in bytes of the fixed part of the record.
    spec fn block_size() -> int;

    /// The exact byte image of this record.
    spec fn encoded(self) -> Seq<u8>;

    /// Whether the fields of this record are the decodings of `s` at `pos`.
    spec fn decodes_at(self, s: Seq<u8>, pos: int) -> bool;

    /// Whether the bytes at `pos` carry this record's magic tag.
    spec fn magic_ok(s: Seq<u8>, pos: int) -> bool;

    /// Decode the record at `pos`.
    fn interpret(data: &[u8], pos: usize) -> (r: ZipResult<Self>)
        ensures
            r is Ok <==> pos + Self::block_size() <= data@.len() && Self::magic_ok(
                data@,
                pos as int,
            ),
            r matches Ok(b) ==> b.decodes_at(data@, pos as int),
            r matches Err(e) ==> (e is Io || e is InvalidArchive),
            r matches Err(e) && e is Io ==> pos + Self::block_size() > data@.len(),
    ;

    /// Append the record's byte image to `out`.
    fn encode(&self, out: &mut Vec<u8>)
        ensures
            final(out)@ == old(out)@ + self.encoded(),
    ;
}

/// The fixed 22-byte part of the end-of-central-directory record.
#[derive(Clone, Copy, Debug, PartialEq, Eq, Structural)]
pub struct Zip32CDEBlock {
    pub magic: Magic,
    pub disk_number: u16,
    pub disk_with_central_directory: u16,
    pub number_of_files_on_this_disk: u16,
    pub number_of_files: u16,
    pub central_directory_size: u32,
    pub central_directory_offset: u32,
    pub zip_file_comment_length: u16,
}

impl Block for Zip32CDEBlock {
    open spec fn block_size() -> int {
        22
    }

    open spec fn encoded(self) -> Seq<u8> {
        u32_le_bytes(self.magic.0) + u16_le_bytes(self.disk_number) + u16_le_bytes(
            self.disk_with_central_directory,
        ) + u16_le_bytes(self.number_of_files_on_this_disk) + u16_le_bytes(self.number_of_files)
            + u32_le_bytes(self.central_directory_size) + u32_le_bytes(
            self.central_directory_offset,
        ) + u16_le_bytes(self.zip_file_comment_length)
    }

    open spec fn decodes_at(self, s: Seq<u8>, pos: int) -> bool {
        &&& self.magic.0 == u32_le_at(s, pos)
        &&& self.disk_number == u16_le_at(s, pos + 4)
        &&& self.disk_with_central_directory == u16_le_at(s, pos + 6)
        &&& self.number_of_files_on_this_disk == u16_le_at(s, pos + 8)
        &&& self.number_of_files == u16_le_at(s, pos + 10)
        &&& self.central_directory_size == u32_le_at(s, pos + 12)
        &&& self.central_directory_offset == u32_le_at(s, pos + 16)
        &&& self.zip_file_comment_length == u16_le_at(s, pos + 20)
    }

    open spec fn magic_ok(s: Seq<u8>, pos: int) -> bool {
        u32_le_at(s, pos) == CENTRAL_DIRECTORY_END_SIGNATURE
    }

    fn interpret(data: &[u8], pos: usize) -> (r: ZipResult<Self>)
        ensures
            r matches Err(e) && e is InvalidArchive ==> pos + Self::block_size() <= data@.len(),
    {
        if !(data.len() >= 22 && pos <= data.len() - 22) {
            return Err(ZipError::Io(String::from_str("failed to fill whole buffer")));
        }
        let magic = u32_at(data, pos);
        if magic != CENTRAL_DIRECTORY_END_SIGNATURE {
            return Err(ZipError::InvalidArchive("Invalid digital signature header"));
        }
        Ok(
            Zip32CDEBlock {
                magic: Magic(magic),
                disk_number: u16_at(data, pos + 4),
                disk_with_central_directory: u16_at(data, pos + 6),
                number_of_files_on_this_disk: u16_at(data, pos + 8),
                number_of_files: u16_at(data, pos + 10),
                central_directory_size: u32_at(data, pos + 12),
                central_directory_offset: u32_at(data, pos + 16),
                zip_file_comment_length: u16_at(data, pos + 20),
            },
        )
    }

    fn encode(&self, out: &mut Vec<u8>)
        ensures
            final(out)@.len() == old(out)@.len() + 22,
    {
        crate::bytes::push_u32_le(out, self.magic.0);
        crate::bytes::push_u16_le(out, self.disk_number);
        crate::bytes::push_u16_le(out, self.disk_with_central_directory);
        crate::bytes::push_u16_le(out, self.number_of_files_on_this_disk);
        crate::bytes::push_u16_le(out, self.number_of_files);
        crate::bytes::push_u32_le(out, self.central_directory_size);
        crate::bytes::push_u32_le(out, self.central_directory_offset);
        crate::bytes::push_u16_le(out, self.zip_file_comment_length);
        assert(out@ =~= old(out)@ + self.encoded());
    }
}

/// Whether a whole end-of-central-directory record (fixed part plus comment)
/// lies at `pos`.
pub open spec fn cde_record_ok(s: Seq<u8>, pos: int) -> bool {
    &&& 0 <= pos
    &&& pos + 22 <= s.len()
    &&& u32_le_at(s, pos) == CENTRAL_DIRECTORY_END_SIGNATURE
    &&& pos + 22 + u16_le_at(s, pos + 20) <= s.len()
}

/// The end-of-central-directory record: the archive's footer.
#[derive(Debug, Clone)]
pub struct Zip32CentralDirectoryEnd {
    pub disk_number: u16,
    pub disk_with_central_directory: u16,
    pub number_of_files_on_this_disk: u16,
    pub number_of_files: u16,
    pub central_directory_size: u32,
    pub central_directory_offset: u32,
    pub zip_file_comment: Vec<u8>,
}

impl Zip32CentralDirectoryEnd {
    /// Whether this record's fields are the decodings of `s` at `pos`.
    pub open spec fn decodes_record_at(self, s: Seq<u8>, pos: int) -> bool {
        &&& self.disk_number == u16_le_at(s, pos + 4)
        &&& self.disk_with_central_directory == u16_le_at(s, pos + 6)
        &&& self.number_of_files_on_this_disk == u16_le_at(s, pos + 8)
        &&& self.number_of_files == u16_le_at(s, pos + 10)
        &&& self.central_directory_size == u32_le_at(s, pos + 12)
        &&& self.central_directory_offset == u32_le_at(s, pos + 16)
        &&& self.zip_file_comment@ == s.subrange(pos + 22, pos + 22 + u16_le_at(s, pos + 20))
    }

    /// The byte image this record writes: the fixed part then the comment,
    /// with an over-long comment length clamped to the 16-bit maximum.
    pub open spec fn encoded_record(self) -> Seq<u8> {
        let clen = if self.zip_file_comment@.len() > 0xFFFF {
            0xFFFF as u16
        } else {
            self.zip_file_comment@.len() as u16
        };
        Zip32CDEBlock {
            magic: Magic(CENTRAL_DIRECTORY_END_SIGNATURE),
            disk_number: self.disk_number,
            disk_with_central_directory: self.disk_with_central_directory,
            number_of_files_on_this_disk: self.number_of_files_on_this_disk,
            number_of_files: self.number_of_files,
            central_directory_size: self.central_directory_size,
            central_directory_offset: self.central_directory_offset,
            zip_file_comment_length: clen,
        }.encoded() + self.zip_file_comment@
    }

    /// Split this record into its fixed block and the comment bytes.
    pub fn block_and_comment(self) -> (r: ZipResult<(Zip32CDEBlock, Vec<u8>)>)
        ensures
            r matches Ok((b, c)) && b.encoded() + c@ == self.encoded_record(),
    {
        let clen: u16 = if self.zip_file_comment.len() > 0xFFFF {
            0xFFFF
        } else {
            self.zip_file_comment.len() as u16
        };
        let block = Zip32CDEBlock {
            magic: Magic(CENTRAL_DIRECTORY_END_SIGNATURE),
            disk_number: self.disk_number,
            disk_with_central_directory: self.disk_with_central_directory,
            number_of_files_on_this_disk: self.number_of_files_on_this_disk,
            number_of_files: self.number_of_files,
            central_directory_size: self.central_directory_size,
            central_directory_offset: self.central_directory_offset,
            zip_file_comment_length: clen,
        };
        Ok((block, self.zip_file_comment))
    }

    /// Decode the record at `pos`, comment included.
    pub fn parse(data: &[u8], pos: usize) -> (r: ZipResult<Zip32CentralDirectoryEnd>)
        ensures
            r is Ok <==> cde_record_ok(data@, pos as int),
            r matches Ok(cde) ==> cde.decodes_record_at(data@, pos as int),
            (r matches Err(e) ==> if pos + 22 <= data@.len() && u32_le_at(data@, pos as int)
                != CENTRAL_DIRECTORY_END_SIGNATURE {
                e is InvalidArchive
            } else {
                e is Io
            }),
    {
        let block = match Zip32CDEBlock::interpret(data, pos) {
            Ok(b) => b,
            Err(e) => {
                return Err(e);
            },
        };
        let clen = block.zip_file_comment_length as usize;
        let n = data.len();
        assert(pos + 22 <= n);
        match read_bytes(data, pos + 22, clen) {
            Some(comment) => Ok(
                Zip32CentralDirectoryEnd {
                    disk_number: block.disk_number,
                    disk_with_central_directory: block.disk_with_central_directory,
                    number_of_files_on_this_disk: block.number_of_files_on_this_disk,
                    number_of_files: block.number_of_files,
                    central_directory_size: block.central_directory_size,
                    central_directory_offset: block.central_directory_offset,
                    zip_file_comment: comment,
                },
            ),
            None => Err(ZipError::Io(String::from_str("failed to fill whole buffer"))),
        }
    }

    /// Scan back from the end of the buffer for the rightmost position where
    /// a whole end-of-central-directory record parses, and decode it there.
    pub fn find_and_parse(data: &[u8]) -> (r: ZipResult<(Zip32CentralDirectoryEnd, u64)>)
        ensures
            r matches Ok((cde, p)) ==> {
                &&& cde_record_ok(data@, p as int)
                &&& cde.decodes_record_at(data@, p as int)
                &&& forall|j: int| p < j ==> !cde_record_ok(data@, j)
            },
            r is Err ==> forall|j: int| !cde_record_ok(data@, j),
            (r matches Err(e) ==> e is InvalidArchive),
    {
        if data.len() < 22 {
            assert(forall|j: int| !cde_record_ok(data@, j));
            return Err(ZipError::InvalidArchive("Invalid zip header"));
        }
        let mut hi: usize = data.len();
        loop
            invariant
                hi <= data@.len(),
                data@.len() >= 22,
                forall|j: int| j + 4 > hi ==> !cde_record_ok(data@, j),
            decreases hi,
        {
            let window = &data[0..hi];
            proof {
                assert forall|j: int| 0 <= j && j + 4 <= hi implies u32_le_at(
                    data@.subrange(0, hi as int),
                    j,
                ) == u32_le_at(data@, j) by {
                    assert(data@.subrange(0, hi as int)[j] == data@[j]);
                    assert(data@.subrange(0, hi as int)[j + 1] == data@[j + 1]);
                    assert(data@.subrange(0, hi as int)[j + 2] == data@[j + 2]);
                    assert(data@.subrange(0, hi as int)[j + 3] == data@[j + 3]);
                }
            }
            match crate::trusted::rfind_signature(window, CENTRAL_DIRECTORY_END_SIGNATURE) {
                Some(i) => {
                    match Self::parse(data, i) {
                        Ok(cde) => {
                            return Ok((cde, i as u64));
                        },
                        Err(_) => {
                            hi = i + 3;
                        },
                    }
                },
                None => {
                    return Err(ZipError::InvalidArchive("Could not find central directory end"));
                },
            }
        }
    }

    /// Append this record's byte image (fixed part then comment).
    pub fn write(self, out: &mut Vec<u8>) -> (r: ZipResult<()>)
        ensures
            r is Ok,
            final(out)@ == old(out)@ + self.encoded_record(),
    {
        let ghost encoded = self.encoded_record();
        let (block, comment) = match self.block_and_comment() {
            Ok(p) => p,
            Err(e) => {
                return Err(e);
            },
        };
        block.encode(out);
        out.extend_from_slice(comment.as_slice());
        assert(out@ =~= old(out)@ + encoded);
        Ok(())
    }
}

/// A whole end-of-central-directory record reads the same after the
/// buffer gains a prefix.
proof fn lemma_cde_record_shift(junk: Seq<u8>, s: Seq<u8>, p: int)
    requires
        0 <= p,
    ensures
        cde_record_ok(junk + s, junk.len() + p) == cde_record_ok(s, p),
{
    let s2 = junk + s;
    let q = junk.len() + p;
    if p + 22 <= s.len() {
        assert(s2[q] == s[p]);
        assert(s2[q + 1] == s[p + 1]);
        assert(s2[q + 2] == s[p + 2]);
        assert(s2[q + 3] == s[p + 3]);
        assert(s2[q + 20] == s[p + 20]);
        assert(s2[q + 21] == s[p + 21]);
        assert(u32_le_at(s2, q) == u32_le_at(s, p));
        assert(u16_le_at(s2, q + 20) == u16_le_at(s, p + 20));
    }
}

/// Prefix invariance of the footer search: the rightmost position where a
/// whole end-of-central-directory record parses moves by exactly the
/// length of a prepended prefix.
pub proof fn lemma_eocd_search_shift(junk: Seq<u8>, s: Seq<u8>, p: int)
    requires
        cde_record_ok(s, p),
        forall|j: int| p < j ==> !cde_record_ok(s, j),
    ensures
        cde_record_ok(junk + s, junk.len() + p),
        forall|j: int| junk.len() + p < j ==> !cde_record_ok(junk + s, j),
{
    lemma_cde_record_shift(junk, s, p);
    assert forall|j: int| junk.len() + p < j implies !cde_record_ok(junk + s, j) by {
        lemma_cde_record_shift(junk, s, j - junk.len());
        assert(!cde_record_ok(s, j - junk.len()));
    }
}

/// The fixed 20-byte ZIP64 end-of-central-directory locator.
#[derive(Clone, Copy, Debug, PartialEq, Eq, Structural)]
pub struct Zip64CDELocatorBlock {
    pub magic: Magic,
    pub disk_with_central_directory: u32,
    pub end_of_central_directory_offset: u64,
    pub number_of_disks: u32,
}

impl Block for Zip64CDELocatorBlock {
    open spec fn block_size() -> int {
        20
    }

    open spec fn encoded(self) -> Seq<u8> {
        u32_le_bytes(self.magic.0) + u32_le_bytes(self.disk_with_central_directory)
            + u64_le_bytes(self.end_of_central_directory_offset) + u32_le_bytes(
            self.number_of_disks,
        )
    }

    open spec fn decodes_at(self, s: Seq<u8>, pos: int) -> bool {
        &&& self.magic.0 == u32_le_at(s, pos)
        &&& self.disk_with_central_directory == u32_le_at(s, pos + 4)
        &&& self.end_of_central_directory_offset == u64_le_at(s, pos + 8)
        &&& self.number_of_disks == u32_le_at(s, pos + 16)
    }

    open spec fn magic_ok(s: Seq<u8>, pos: int) -> bool {
        u32_le_at(s, pos) == ZIP64_CENTRAL_DIRECTORY_END_LOCATOR_SIGNATURE
    }

    fn interpret(data: &[u8], pos: usize) -> (r: ZipResult<Self>)
        ensures
            r matches Err(e) && e is InvalidArchive ==> pos + Self::block_size() <= data@.len(),
    {
        if !(data.len() >= 20 && pos <= data.len() - 20) {
            return Err(ZipError::Io(String::from_str("failed to fill whole buffer")));
        }
        let magic = u32_at(data, pos);
        if magic != ZIP64_CENTRAL_DIRECTORY_END_LOCATOR_SIGNATURE {
            return Err(ZipError::InvalidArchive("Invalid zip64 locator digital signature header"));
        }
        Ok(
            Zip64CDELocatorBlock {
                magic: Magic(magic),
                disk_with_central_directory: u32_at(data, pos + 4),
                end_of_central_directory_offset: u64_at(data, pos + 8),
                number_of_disks: u32_at(data, pos + 16),
            },
        )
    }

    fn encode(&self, out: &mut Vec<u8>) {
        crate::bytes::push_u32_le(out, self.magic.0);
        crate::bytes::push_u32_le(out, self.disk_with_central_directory);
        crate::bytes::push_u64_le(out, self.end_of_central_directory_offset);
        crate::bytes::push_u32_le(out, self.number_of_disks);
        assert(out@ =~= old(out)@ + self.encoded());
    }
}

/// The ZIP64 end-of-central-directory locator record.
#[derive(Clone, Copy, Debug)]
pub struct Zip64CentralDirectoryEndLocator {
    pub disk_with_central_directory: u32,
    pub end_of_central_directory_offset: u64,
    pub number_of_disks: u32,
}

impl Zip64CentralDirectoryEndLocator {
    /// Whether this record's fields are the decodings of `s` at `pos`.
    pub open spec fn decodes_record_at(self, s: Seq<u8>, pos: int) -> bool {
        &&& self.disk_with_central_directory == u32_le_at(s, pos + 4)
        &&& self.end_of_central_directory_offset == u64_le_at(s, pos + 8)
        &&& self.number_of_disks == u32_le_at(s, pos + 16)
    }

    /// Decode the locator at `pos`.
    pub fn parse(data: &[u8], pos: usize) -> (r: ZipResult<Zip64CentralDirectoryEndLocator>)
        ensures
            r is Ok <==> pos + 20 <= data@.len() && Zip64CDELocatorBlock::magic_ok(
                data@,
                pos as int,
            ),
            r matches Ok(l) ==> l.decodes_record_at(data@, pos as int),
            (r matches Err(e) ==> if pos + 20 <= data@.len() {
                e is InvalidArchive
            } else {
                e is Io
            }),
    {
        let block = match Zip64CDELocatorBlock::interpret(data, pos) {
            Ok(b) => b,
            Err(e) => {
                return Err(e);
            },
        };
        Ok(
            Zip64CentralDirectoryEndLocator {
                disk_with_central_directory: block.disk_with_central_directory,
                end_of_central_directory_offset: block.end_of_central_directory_offset,
                number_of_disks: block.number_of_disks,
            },
        )
    }

    /// The byte image this record writes.
    pub open spec fn encoded_record(self) -> Seq<u8> {
        Zip64CDELocatorBlock {
            magic: Magic(ZIP64_CENTRAL_DIRECTORY_END_LOCATOR_SIGNATURE),
            disk_with_central_directory: self.disk_with_central_directory,
            end_of_central_directory_offset: self.end_of_central_directory_offset,
            number_of_disks: self.number_of_disks,
        }.encoded()
    }

    /// This record's fixed block, magic included.
    pub fn block(self) -> (r: Zip64CDELocatorBlock)
        ensures
            r.magic.0 == ZIP64_CENTRAL_DIRECTORY_END_LOCATOR_SIGNATURE,
            r.disk_with_central_directory == self.disk_with_central_directory,
            r.end_of_central_directory_offset == self.end_of_central_directory_offset,
            r.number_of_disks == self.number_of_disks,
    {
        Zip64CDELocatorBlock {
            magic: Magic(ZIP64_CENTRAL_DIRECTORY_END_LOCATOR_SIGNATURE),
            disk_with_central_directory: self.disk_with_central_directory,
            end_of_central_directory_offset: self.end_of_central_directory_offset,
            number_of_disks: self.number_of_disks,
        }
    }

    /// Append this record's byte image.
    pub fn write(self, out: &mut Vec<u8>) -> (r: ZipResult<()>)
        ensures
            r is Ok,
            final(out)@ == old(out)@ + self.encoded_record(),
    {
        let block = self.block();
        block.encode(out);
        Ok(())
    }
}

/// The fixed 56-byte part of the ZIP64 end-of-central-directory record, as
/// this library uses it.
#[derive(Clone, Copy, Debug, PartialEq, Eq, Structural)]
pub struct Zip64CDEBlock {
    pub magic: Magic,
    pub record_size: u64,
    pub version_made_by: u16,
    pub version_needed_to_extract: u16,
    pub disk_number: u32,
    pub disk_with_central_directory: u32,
    pub number_of_files_on_this_disk: u64,
    pub number_of_files: u64,
    pub central_directory_size: u64,
    pub central_directory_offset: u64,
}

impl Block for Zip64CDEBlock {
    open spec fn block_size() -> int {
        56
    }

    open spec fn encoded(self) -> Seq<u8> {
        u32_le_bytes(self.magic.0) + u64_le_bytes(self.record_size) + u16_le_bytes(
            self.version_made_by,
        ) + u16_le_bytes(self.version_needed_to_extract) + u32_le_bytes(self.disk_number)
            + u32_le_bytes(self.disk_with_central_directory) + u64_le_bytes(
            self.number_of_files_on_this_disk,
        ) + u64_le_bytes(self.number_of_files) + u64_le_bytes(self.central_directory_size)
            + u64_le_bytes(self.central_directory_offset)
    }

    open spec fn decodes_at(self, s: Seq<u8>, pos: int) -> bool {
        &&& self.magic.0 == u32_le_at(s, pos)
        &&& self.record_size == u64_le_at(s, pos + 4)
        &&& self.version_made_by == u16_le_at(s, pos + 12)
        &&& self.version_needed_to_extract == u16_le_at(s, pos + 14)
        &&& self.disk_number == u32_le_at(s, pos + 16)
        &&& self.disk_with_central_directory == u32_le_at(s, pos + 20)
        &&& self.number_of_files_on_this_disk == u64_le_at(s, pos + 24)
        &&& self.number_of_files == u64_le_at(s, pos + 32)
        &&& self.central_directory_size == u64_le_at(s, pos + 40)
        &&& self.central_directory_offset == u64_le_at(s, pos + 48)
    }

    open spec fn magic_ok(s: Seq<u8>, pos: int) -> bool {
        u32_le_at(s, pos) == ZIP64_CENTRAL_DIRECTORY_END_SIGNATURE
    }

    fn interpret(data: &[u8], pos: usize) -> (r: ZipResult<Self>)
        ensures
            r matches Err(e) && e is InvalidArchive ==> pos + Self::block_size() <= data@.len(),
    {
        if !(data.len() >= 56 && pos <= data.len() - 56) {
            return Err(ZipError::Io(String::from_str("failed to fill whole buffer")));
        }
        let magic = u32_at(data, pos);
        if magic != ZIP64_CENTRAL_DIRECTORY_END_SIGNATURE {
            return Err(ZipError::InvalidArchive("Invalid digital signature header"));
        }
        Ok(
            Zip64CDEBlock {
                magic: Magic(magic),
                record_size: u64_at(data, pos + 4),
                version_made_by: u16_at(data, pos + 12),
                version_needed_to_extract: u16_at(data, pos + 14),
                disk_number: u32_at(data, pos + 16),
                disk_with_central_directory: u32_at(data, pos + 20),
                number_of_files_on_this_disk: u64_at(data, pos + 24),
                number_of_files: u64_at(data, pos + 32),
                central_directory_size: u64_at(data, pos + 40),
                central_directory_offset: u64_at(data, pos + 48),
            },
        )
    }

    #[verifier::rlimit(100)]
    fn encode(&self, out: &mut Vec<u8>) {
        crate::bytes::push_u32_le(out, self.magic.0);
        crate::bytes::push_u64_le(out, self.record_size);
        crate::bytes::push_u16_le(out, self.version_made_by);
        crate::bytes::push_u16_le(out, self.version_needed_to_extract);
        crate::bytes::push_u32_le(out, self.disk_number);
        crate::bytes::push_u32_le(out, self.disk_with_central_directory);
        crate::bytes::push_u64_le(out, self.number_of_files_on_this_disk);
        crate::bytes::push_u64_le(out, self.number_of_files);
        crate::bytes::push_u64_le(out, self.central_directory_size);
        crate::bytes::push_u64_le(out, self.central_directory_offset);
        assert(out@ =~= old(out)@ + self.encoded());
    }
}

/// Whether the ZIP64 end-of-central-directory magic lies at `j`, wholly
/// inside the region `[lo, hi)`.
pub open spec fn z64_sig_in_region(s: Seq<u8>, lo: int, hi: int, j: int) -> bool {
    lo <= j && j + 4 <= hi && u32_le_at(s, j) == ZIP64_CENTRAL_DIRECTORY_END_SIGNATURE
}

/// Whether a ZIP64 end-of-central-directory record lies at `pos`.
pub open spec fn z64_cde_ok(s: Seq<u8>, pos: int) -> bool {
    &&& 0 <= pos
    &&& pos + 56 <= s.len()
    &&& u32_le_at(s, pos) == ZIP64_CENTRAL_DIRECTORY_END_SIGNATURE
}

/// The ZIP64 end-of-central-directory record.
#[derive(Clone, Copy, Debug)]
pub struct Zip64CentralDirectoryEnd {
    pub version_made_by: u16,
    pub version_needed_to_extract: u16,
    pub disk_number: u32,
    pub disk_with_central_directory: u32,
    pub number_of_files_on_this_disk: u64,
    pub number_of_files: u64,
    pub central_directory_size: u64,
    pub central_directory_offset: u64,
}

/// What the ZIP64 search returns: every candidate in `v` decodes at its
/// position `nominal + off` inside the region, and every occurrence of the
/// magic in the region is represented by some candidate.
pub open spec fn z64_candidates_ok(
    s: Seq<u8>,
    nominal: int,
    upper: int,
    v: Seq<(Zip64CentralDirectoryEnd, u64)>,
) -> bool {
    &&& forall|k: int|
        #![trigger v[k]]
        0 <= k < v.len() ==> {
            &&& v[k].1 <= upper - nominal
            &&& z64_cde_ok(s, nominal + v[k].1)
            &&& nominal + v[k].1 + 4 <= upper
            &&& v[k].0.decodes_record_at(s, nominal + v[k].1)
        }
    &&& forall|j: int|
        nominal <= j && j + 4 <= upper && u32_le_at(s, j) == ZIP64_CENTRAL_DIRECTORY_END_SIGNATURE
            ==> exists|k: int| 0 <= k < v.len() && nominal + v[k].1 == j
}

impl Zip64CentralDirectoryEnd {
    /// Whether this record's fields are the decodings of `s` at `pos`.
    pub open spec fn decodes_record_at(self, s: Seq<u8>, pos: int) -> bool {
        &&& self.version_made_by == u16_le_at(s, pos + 12)
        &&& self.version_needed_to_extract == u16_le_at(s, pos + 14)
        &&& self.disk_number == u32_le_at(s, pos + 16)
        &&& self.disk_with_central_directory == u32_le_at(s, pos + 20)
        &&& self.number_of_files_on_this_disk == u64_le_at(s, pos + 24)
        &&& self.number_of_files == u64_le_at(s, pos + 32)
        &&& self.central_directory_size == u64_le_at(s, pos + 40)
        &&& self.central_directory_offset == u64_le_at(s, pos + 48)
    }

    /// Decode the record at `pos`.
    pub fn parse(data: &[u8], pos: usize) -> (r: ZipResult<Zip64CentralDirectoryEnd>)
        ensures
            r is Ok <==> z64_cde_ok(data@, pos as int),
            r matches Ok(cde) ==> cde.decodes_record_at(data@, pos as int),
            (r matches Err(e) ==> if pos + 56 <= data@.len() {
                e is InvalidArchive
            } else {
                e is Io
            }),
    {
        let block = match Zip64CDEBlock::interpret(data, pos) {
            Ok(b) => b,
            Err(e) => {
                return Err(e);
            },
        };
        Ok(
            Zip64CentralDirectoryEnd {
                version_made_by: block.version_made_by,
                version_needed_to_extract: block.version_needed_to_extract,
                disk_number: block.disk_number,
                disk_with_central_directory: block.disk_with_central_directory,
                number_of_files_on_this_disk: block.number_of_files_on_this_disk,
                number_of_files: block.number_of_files,
                central_directory_size: block.central_directory_size,
                central_directory_offset: block.central_directory_offset,
            },
        )
    }

    /// Collect every ZIP64 end-of-central-directory record whose magic lies
    /// in `[nominal_offset, search_upper_bound)`, scanning from the top down.
    /// Each hit is paired with its distance from `nominal_offset`, the
    /// candidate archive offset. A hit whose record fails to decode aborts
    /// the search; comments may legally contain the magic, so the caller
    /// weighs all candidates.
    #[verifier::rlimit(50)]
    pub fn find_and_parse(data: &[u8], nominal_offset: u64, search_upper_bound: u64) -> (r:
        ZipResult<Vec<(Zip64CentralDirectoryEnd, u64)>>)
        ensures
            (r is Ok <==> {
                &&& nominal_offset <= search_upper_bound <= data@.len()
                &&& exists|j: int|
                    z64_sig_in_region(data@, nominal_offset as int, search_upper_bound as int, j)
                &&& forall|j: int|
                    z64_sig_in_region(data@, nominal_offset as int, search_upper_bound as int, j)
                        ==> j + 56 <= data@.len()
            }),
            (r matches Err(e) ==> (e is Io || e is InvalidArchive)),
            r matches Ok(v) ==> {
                &&& v@.len() >= 1
                &&& nominal_offset <= search_upper_bound <= data@.len()
                &&& z64_candidates_ok(
                    data@,
                    nominal_offset as int,
                    search_upper_bound as int,
                    v@,
                )
            },
    {
        if search_upper_bound > data.len() as u64 || nominal_offset > search_upper_bound {
            return Err(
                ZipError::InvalidArchive("Could not find ZIP64 central directory end"),
            );
        }
        let lo: usize = nominal_offset as usize;
        let upper: usize = search_upper_bound as usize;
        let mut results: Vec<(Zip64CentralDirectoryEnd, u64)> = Vec::new();
        let mut hi: usize = upper;
        loop
            invariant
                lo <= upper <= data@.len(),
                lo <= hi <= upper,
                lo == nominal_offset,
                upper == search_upper_bound,
                forall|k: int|
                    #![trigger results@[k]]
                    0 <= k < results@.len() ==> {
                        &&& results@[k].1 <= upper - lo
                        &&& z64_cde_ok(data@, lo + results@[k].1)
                        &&& lo + results@[k].1 + 4 <= upper
                        &&& results@[k].0.decodes_record_at(data@, lo + results@[k].1)
                    },
                forall|j: int|
                    lo <= j && j + 4 <= upper && j + 4 > hi && u32_le_at(data@, j)
                        == ZIP64_CENTRAL_DIRECTORY_END_SIGNATURE ==> exists|k: int|
                        0 <= k < results@.len() && lo + results@[k].1 == j,
            ensures
                forall|k: int|
                    #![trigger results@[k]]
                    0 <= k < results@.len() ==> {
                        &&& results@[k].1 <= upper - lo
                        &&& z64_cde_ok(data@, lo + results@[k].1)
                        &&& lo + results@[k].1 + 4 <= upper
                        &&& results@[k].0.decodes_record_at(data@, lo + results@[k].1)
                    },
                forall|j: int|
                    lo <= j && j + 4 <= upper && u32_le_at(data@, j)
                        == ZIP64_CENTRAL_DIRECTORY_END_SIGNATURE ==> exists|k: int|
                        0 <= k < results@.len() && lo + results@[k].1 == j,
            decreases hi,
        {
            if hi - lo < 4 {
                break ;
            }
            let window = &data[lo..hi];
            proof {
                assert forall|j: int| 0 <= j && j + 4 <= hi - lo implies u32_le_at(
                    data@.subrange(lo as int, hi as int),
                    j,
                ) == u32_le_at(data@, lo + j) by {
                    assert(data@.subrange(lo as int, hi as int)[j] == data@[lo + j]);
                    assert(data@.subrange(lo as int, hi as int)[j + 1] == data@[lo + j + 1]);
                    assert(data@.subrange(lo as int, hi as int)[j + 2] == data@[lo + j + 2]);
                    assert(data@.subrange(lo as int, hi as int)[j + 3] == data@[lo + j + 3]);
                }
            }
            match crate::trusted::rfind_signature(window, ZIP64_CENTRAL_DIRECTORY_END_SIGNATURE) {
                Some(i) => {
                    let p = lo + i;
                    let cde = match Self::parse(data, p) {
                        Ok(c) => c,
                        Err(e) => {
                            proof {
                                assert(u32_le_at(data@.subrange(lo as int, hi as int), i as int)
                                    == u32_le_at(data@, p as int));
                                assert(z64_sig_in_region(
                                    data@,
                                    nominal_offset as int,
                                    search_upper_bound as int,
                                    p as int,
                                ));
                                assert(p + 56 > data@.len());
                            }
                            return Err(e);
                        },
                    };
                    let ghost prev = results@;
                    results.push((cde, (p - lo) as u64));
                    proof {
                        assert forall|j: int|
                            lo <= j && j + 4 <= upper && j + 4 > p + 3 && u32_le_at(data@, j)
                                == ZIP64_CENTRAL_DIRECTORY_END_SIGNATURE implies exists|k: int|
                            0 <= k < results@.len() && lo + results@[k].1 == j by {
                            if j == p {
                                assert(lo + results@[results@.len() - 1].1 == j);
                            } else if j + 4 <= hi {
                                assert(u32_le_at(data@.subrange(lo as int, hi as int), j - lo)
                                    != ZIP64_CENTRAL_DIRECTORY_END_SIGNATURE);
                                assert(false);
                            } else {
                                let k = choose|k: int|
                                    0 <= k < prev.len() && lo + prev[k].1 == j;
                                assert(results@[k] == prev[k]);
                            }
                        }
                    }
                    hi = p + 3;
                },
                None => {
                    proof {
                        assert forall|j: int|
                            lo <= j && j + 4 <= upper && u32_le_at(data@, j)
                                == ZIP64_CENTRAL_DIRECTORY_END_SIGNATURE implies exists|k: int|
                            0 <= k < results@.len() && lo + results@[k].1 == j by {
                            if j + 4 <= hi {
                                assert(u32_le_at(data@.subrange(lo as int, hi as int), j - lo)
                                    != ZIP64_CENTRAL_DIRECTORY_END_SIGNATURE);
                                assert(false);
                            }
                        }
                    }
                    break ;
                },
            }
        }
        if results.is_empty() {
            proof {
                if exists|j: int|
                    z64_sig_in_region(
                        data@,
                        nominal_offset as int,
                        search_upper_bound as int,
                        j,
                    ) {
                    let j = choose|j: int|
                        z64_sig_in_region(
                            data@,
                            nominal_offset as int,
                            search_upper_bound as int,
                            j,
                        );
                    assert(exists|k: int| 0 <= k < results@.len() && lo + results@[k].1 == j);
                    assert(false);
                }
            }
            Err(ZipError::InvalidArchive("Could not find ZIP64 central directory end"))
        } else {
            proof {
                assert(z64_candidates_ok(
                    data@,
                    nominal_offset as int,
                    search_upper_bound as int,
                    results@,
                ));
                assert(z64_sig_in_region(
                    data@,
                    nominal_offset as int,
                    search_upper_bound as int,
                    lo + results@[0].1,
                ));
                assert forall|j: int|
                    z64_sig_in_region(
                        data@,
                        nominal_offset as int,
                        search_upper_bound as int,
                        j,
                    ) implies j + 56 <= data@.len() by {
                    let k = choose|k: int| 0 <= k < results@.len() && lo + results@[k].1 == j;
                    assert(z64_cde_ok(data@, lo + results@[k].1));
                }
            }
            Ok(results)
        }
    }

    /// The byte image this record writes.
    pub open spec fn encoded_record(self) -> Seq<u8> {
        Zip64CDEBlock {
            magic: Magic(ZIP64_CENTRAL_DIRECTORY_END_SIGNATURE),
            record_size: 44,
            version_made_by: self.version_made_by,
            version_needed_to_extract: self.version_needed_to_extract,
            disk_number: self.disk_number,
            disk_with_central_directory: self.disk_with_central_directory,
            number_of_files_on_this_disk: self.number_of_files_on_this_disk,
            number_of_files: self.number_of_files,
            central_directory_size: self.central_directory_size,
            central_directory_offset: self.central_directory_offset,
        }.encoded()
    }

    /// This record's fixed block, magic and record size included.
    pub fn block(self) -> (r: Zip64CDEBlock)
        ensures
            r.magic.0 == ZIP64_CENTRAL_DIRECTORY_END_SIGNATURE,
            r.record_size == 44,
            r.version_made_by == self.version_made_by,
            r.version_needed_to_extract == self.version_needed_to_extract,
            r.disk_number == self.disk_number,
            r.disk_with_central_directory == self.disk_with_central_directory,
            r.number_of_files_on_this_disk == self.number_of_files_on_this_disk,
            r.number_of_files == self.number_of_files,
            r.central_directory_size == self.central_directory_size,
            r.central_directory_offset == self.central_directory_offset,
    {
        Zip64CDEBlock {
            magic: Magic(ZIP64_CENTRAL_DIRECTORY_END_SIGNATURE),
            record_size: 44,
            version_made_by: self.version_made_by,
            version_needed_to_extract: self.version_needed_to_extract,
            disk_number: self.disk_number,
            disk_with_central_directory: self.disk_with_central_directory,
            number_of_files_on_this_disk: self.number_of_files_on_this_disk,
            number_of_files: self.number_of_files,
            central_directory_size: self.central_directory_size,
            central_directory_offset: self.central_directory_offset,
        }
    }

    /// Append this record's byte image.
    pub fn write(self, out: &mut Vec<u8>) -> (r: ZipResult<()>)
        ensures
            r is Ok,
            final(out)@ == old(out)@ + self.encoded_record(),
    {
        let block = self.block();
        block.encode(out);
        Ok(())
    }
}

} // verus!

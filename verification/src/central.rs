//! Decoding of central directory headers into entry descriptors.

use vstd::prelude::*;

use crate::blocks::CENTRAL_DIRECTORY_HEADER_SIGNATURE;
use crate::bytes::{read_bytes, u16_at, u16_le_at, u32_at, u32_le_at};
use crate::cp437::cp437_decode;
use crate::errors::{ZipError, ZipResult};
use crate::extra::{parse_extra_field, run_extras, ExtraOutcome, ExtraState};
use crate::trusted::utf8_lossy_of;
use crate::types::{CompressionMethod, DateTime, System, ZipFileData};

verus! {

/// The name length declared by the fixed fields at `pos` (`pos` is just
/// after the magic).
pub open spec fn cdh_name_len(s: Seq<u8>, pos: int) -> int {
    u16_le_at(s, pos + 24) as int
}

/// The extra-field length declared by the fixed fields at `pos`.
pub open spec fn cdh_extra_len(s: Seq<u8>, pos: int) -> int {
    u16_le_at(s, pos + 26) as int
}

/// The comment length declared by the fixed fields at `pos`.
pub open spec fn cdh_comment_len(s: Seq<u8>, pos: int) -> int {
    u16_le_at(s, pos + 28) as int
}

/// Whether the whole header body (fixed fields and the three variable
/// areas) lies within the buffer.
pub open spec fn cdh_inner_record_ok(s: Seq<u8>, pos: int) -> bool {
    &&& 0 <= pos
    &&& pos + 42 <= s.len()
    &&& pos + 42 + cdh_name_len(s, pos) + cdh_extra_len(s, pos) + cdh_comment_len(s, pos)
        <= s.len()
}

/// The descriptor state the fixed fields establish before the extra fields
/// are applied: 32-bit sizes and offset widened, method decoded.
pub open spec fn cdh_initial_state(s: Seq<u8>, pos: int) -> ExtraState {
    ExtraState {
        uncompressed_size: u32_le_at(s, pos + 20) as u64,
        compressed_size: u32_le_at(s, pos + 16) as u64,
        header_start: u32_le_at(s, pos + 38) as u64,
        large_file: false,
        compression_method: CompressionMethod::spec_from_u16(u16_le_at(s, pos + 6)),
        aes_mode: None,
        extra_fields: Seq::empty(),
    }
}

/// The raw extra-field bytes of the header at `pos`.
pub open spec fn cdh_extra_bytes(s: Seq<u8>, pos: int) -> Seq<u8> {
    s.subrange(pos + 42 + cdh_name_len(s, pos), pos + 42 + cdh_name_len(s, pos) + cdh_extra_len(
        s,
        pos,
    ))
}

/// Whether the header body at `pos` decodes to a descriptor: it fits, its
/// extra fields apply cleanly, an AES method comes with an AES record, and
/// the archive offset does not push the local header offset past 64 bits.
pub open spec fn cdh_inner_ok(s: Seq<u8>, pos: int, archive_offset: u64) -> bool {
    &&& cdh_inner_record_ok(s, pos)
    &&& match run_extras(cdh_extra_bytes(s, pos), 0, cdh_initial_state(s, pos)) {
        ExtraOutcome::Done(st, _) => {
            &&& !(st.compression_method is Aes && st.aes_mode is None)
            &&& st.header_start + archive_offset <= u64::MAX
        },
        _ => false,
    }
}

/// Whether `d` is the descriptor decoded from the header body at `pos`.
pub open spec fn cdh_inner_entry(
    s: Seq<u8>,
    pos: int,
    archive_offset: u64,
    chs: u64,
    d: ZipFileData,
) -> bool {
    let vmb = u16_le_at(s, pos);
    let flags = u16_le_at(s, pos + 4);
    let nl = cdh_name_len(s, pos);
    let name = s.subrange(pos + 42, pos + 42 + nl);
    let comment = s.subrange(
        pos + 42 + nl + cdh_extra_len(s, pos),
        pos + 42 + nl + cdh_extra_len(s, pos) + cdh_comment_len(s, pos),
    );
    let is_utf8 = (flags / 2048) % 2 == 1;
    match run_extras(cdh_extra_bytes(s, pos), 0, cdh_initial_state(s, pos)) {
        ExtraOutcome::Done(st, _) => {
            &&& d.system == System::spec_from_u8((vmb / 0x100) as u8)
            &&& d.version_made_by == (vmb % 0x100) as u8
            &&& d.encrypted == (flags % 2 == 1)
            &&& d.using_data_descriptor == ((flags / 8) % 2 == 1)
            &&& d.is_utf8 == is_utf8
            &&& d.compression_method == st.compression_method
            &&& d.last_modified_time == DateTime {
                datepart: u16_le_at(s, pos + 10),
                timepart: u16_le_at(s, pos + 8),
            }
            &&& d.crc32 == u32_le_at(s, pos + 12)
            &&& d.compressed_size == st.compressed_size
            &&& d.uncompressed_size == st.uncompressed_size
            &&& d.file_name_raw@ == name
            &&& d.file_name@ == (if is_utf8 {
                utf8_lossy_of(name)
            } else {
                cp437_decode(name)
            })
            &&& d.extra_field@ == cdh_extra_bytes(s, pos)
            &&& d.file_comment@ == (if is_utf8 {
                utf8_lossy_of(comment)
            } else {
                cp437_decode(comment)
            })
            &&& d.header_start == st.header_start + archive_offset
            &&& d.central_header_start == chs
            &&& d.data_start is None
            &&& d.external_attributes == u32_le_at(s, pos + 34)
            &&& d.large_file == st.large_file
            &&& d.aes_mode == st.aes_mode
            &&& d.extra_fields@ == st.extra_fields
        },
        _ => false,
    }
}

/// Decode the header body at `pos` (just after the magic), returning the
/// descriptor and the position after the whole header.
#[verifier::rlimit(100)]
pub fn central_header_to_zip_file_inner(
    data: &[u8],
    pos: usize,
    archive_offset: u64,
    central_header_start: u64,
) -> (r: ZipResult<(ZipFileData, usize)>)
    ensures
        r is Ok <==> cdh_inner_ok(data@, pos as int, archive_offset),
        (r matches Err(e) ==> (e is Io || e is InvalidArchive || e is UnsupportedArchive)),
        (cdh_inner_record_ok(data@, pos as int) ==> (match run_extras(
            cdh_extra_bytes(data@, pos as int),
            0,
            cdh_initial_state(data@, pos as int),
        ) {
            ExtraOutcome::Done(st, _) => !(st.compression_method is Aes && st.aes_mode is None)
                && st.header_start + archive_offset > u64::MAX ==> (r matches Err(e)
                && e is InvalidArchive),
            _ => true,
        })),
        r matches Ok((d, next)) ==> cdh_inner_entry(
            data@,
            pos as int,
            archive_offset,
            central_header_start,
            d,
        ) && next == pos + 42 + cdh_name_len(data@, pos as int) + cdh_extra_len(
            data@,
            pos as int,
        ) + cdh_comment_len(data@, pos as int),
{
    if !(data.len() >= 42 && pos <= data.len() - 42) {
        return Err(ZipError::Io(String::from_str("failed to fill whole buffer")));
    }
    let vmb = u16_at(data, pos);
    let flags = u16_at(data, pos + 4);
    let method_id = u16_at(data, pos + 6);
    let timepart = u16_at(data, pos + 8);
    let datepart = u16_at(data, pos + 10);
    let crc32 = u32_at(data, pos + 12);
    let compressed_size = u32_at(data, pos + 16);
    let uncompressed_size = u32_at(data, pos + 20);
    let name_len = u16_at(data, pos + 24) as usize;
    let extra_len = u16_at(data, pos + 26) as usize;
    let comment_len = u16_at(data, pos + 28) as usize;
    let external_attributes = u32_at(data, pos + 34);
    let offset32 = u32_at(data, pos + 38);
    let file_name_raw = match read_bytes(data, pos + 42, name_len) {
        Some(v) => v,
        None => {
            return Err(ZipError::Io(String::from_str("failed to fill whole buffer")));
        },
    };
    let extra_field = match read_bytes(data, pos + 42 + name_len, extra_len) {
        Some(v) => v,
        None => {
            return Err(ZipError::Io(String::from_str("failed to fill whole buffer")));
        },
    };
    let file_comment_raw = match read_bytes(data, pos + 42 + name_len + extra_len, comment_len) {
        Some(v) => v,
        None => {
            return Err(ZipError::Io(String::from_str("failed to fill whole buffer")));
        },
    };
    let is_utf8 = (flags / 2048) % 2 == 1;
    let file_name = if is_utf8 {
        crate::trusted::decode_utf8_lossy(file_name_raw.as_slice())
    } else {
        crate::cp437::from_cp437(file_name_raw.as_slice())
    };
    let file_comment = if is_utf8 {
        crate::trusted::decode_utf8_lossy(file_comment_raw.as_slice())
    } else {
        crate::cp437::from_cp437(file_comment_raw.as_slice())
    };
    let mut result = ZipFileData {
        system: System::from_u8((vmb / 0x100) as u8),
        version_made_by: (vmb % 0x100) as u8,
        encrypted: flags % 2 == 1,
        using_data_descriptor: (flags / 8) % 2 == 1,
        is_utf8,
        compression_method: CompressionMethod::from_u16(method_id),
        last_modified_time: DateTime::from_msdos(datepart, timepart),
        crc32,
        compressed_size: compressed_size as u64,
        uncompressed_size: uncompressed_size as u64,
        file_name,
        file_name_raw,
        extra_field,
        file_comment,
        header_start: offset32 as u64,
        central_header_start,
        data_start: None,
        external_attributes,
        large_file: false,
        aes_mode: None,
        extra_fields: Vec::new(),
    };
    proof {
        assert(crate::extra::extra_state_of(result) =~~= ExtraState {
            extra_fields: Seq::empty(),
            ..cdh_initial_state(data@, pos as int)
        });
        assert(crate::extra::extra_state_of(result) == cdh_initial_state(data@, pos as int))
            by {
            assert(cdh_initial_state(data@, pos as int).extra_fields =~= Seq::empty());
        }
    }
    match parse_extra_field(&mut result) {
        Ok(_) => {},
        Err(ZipError::Io(_)) => {},
        Err(e) => {
            return Err(e);
        },
    }
    let aes_missing = match (&result.compression_method, &result.aes_mode) {
        (CompressionMethod::Aes, Option::None) => true,
        _ => false,
    };
    if aes_missing {
        return Err(ZipError::InvalidArchive("AES encryption without AES extra data field"));
    }
    match result.header_start.checked_add(archive_offset) {
        Some(h) => {
            result.header_start = h;
        },
        None => {
            return Err(ZipError::InvalidArchive("Archive header is too large"));
        },
    }
    Ok((result, pos + 42 + name_len + extra_len + comment_len))
}

/// A two-byte field reads the same after the buffer gains a prefix.
proof fn lemma_u16_shift(junk: Seq<u8>, s: Seq<u8>, i: int)
    requires
        0 <= i,
        i + 2 <= s.len(),
    ensures
        u16_le_at(junk + s, junk.len() + i) == u16_le_at(s, i),
{
    assert((junk + s)[junk.len() + i] == s[i]);
    assert((junk + s)[junk.len() + i + 1] == s[i + 1]);
}

/// A four-byte field reads the same after the buffer gains a prefix.
proof fn lemma_u32_shift(junk: Seq<u8>, s: Seq<u8>, i: int)
    requires
        0 <= i,
        i + 4 <= s.len(),
    ensures
        u32_le_at(junk + s, junk.len() + i) == u32_le_at(s, i),
{
    assert((junk + s)[junk.len() + i] == s[i]);
    assert((junk + s)[junk.len() + i + 1] == s[i + 1]);
    assert((junk + s)[junk.len() + i + 2] == s[i + 2]);
    assert((junk + s)[junk.len() + i + 3] == s[i + 3]);
}

/// A byte range reads the same after the buffer gains a prefix.
proof fn lemma_subrange_shift(junk: Seq<u8>, s: Seq<u8>, a: int, b: int)
    requires
        0 <= a <= b <= s.len(),
    ensures
        (junk + s).subrange(junk.len() + a, junk.len() + b) == s.subrange(a, b),
{
    assert((junk + s).subrange(junk.len() + a, junk.len() + b) =~= s.subrange(a, b));
}

/// Prefix invariance: prepending arbitrary bytes to the archive moves a
/// central directory header and enlarges the archive offset by the same
/// amount, and the descriptor decoded at the shifted position differs from
/// the unshifted one only in its local-header offset and its own
/// central-directory position, each moved by the prefix length.
pub proof fn lemma_prefix_invariance(
    junk: Seq<u8>,
    s: Seq<u8>,
    pos: int,
    off: u64,
    d1: ZipFileData,
    d2: ZipFileData,
)
    requires
        cdh_ok(s, pos, off),
        cdh_inner_entry(s, pos + 4, off, pos as u64, d1),
        off + junk.len() <= u64::MAX,
        d1.header_start + junk.len() <= u64::MAX,
        pos + junk.len() <= u64::MAX,
        cdh_inner_entry(
            junk + s,
            junk.len() + pos + 4,
            (off + junk.len()) as u64,
            (junk.len() + pos) as u64,
            d2,
        ),
    ensures
        cdh_ok(junk + s, junk.len() + pos, (off + junk.len()) as u64),
        d2@ == (crate::types::EntryView {
            header_start: (d1@.header_start + junk.len()) as u64,
            central_header_start: (d1@.central_header_start + junk.len()) as u64,
            ..d1@
        }),
{
    let s2 = junk + s;
    let p = pos + 4;
    let p2 = junk.len() + pos + 4;
    let off2 = (off + junk.len()) as u64;
    lemma_u32_shift(junk, s, pos);
    lemma_u16_shift(junk, s, p);
    lemma_u16_shift(junk, s, p + 4);
    lemma_u16_shift(junk, s, p + 6);
    lemma_u16_shift(junk, s, p + 8);
    lemma_u16_shift(junk, s, p + 10);
    lemma_u32_shift(junk, s, p + 12);
    lemma_u32_shift(junk, s, p + 16);
    lemma_u32_shift(junk, s, p + 20);
    lemma_u16_shift(junk, s, p + 24);
    lemma_u16_shift(junk, s, p + 26);
    lemma_u16_shift(junk, s, p + 28);
    lemma_u32_shift(junk, s, p + 34);
    lemma_u32_shift(junk, s, p + 38);
    let nl = cdh_name_len(s, p);
    let el = cdh_extra_len(s, p);
    let cl = cdh_comment_len(s, p);
    assert(cdh_name_len(s2, p2) == nl && cdh_extra_len(s2, p2) == el && cdh_comment_len(s2, p2)
        == cl);
    lemma_subrange_shift(junk, s, p + 42, p + 42 + nl);
    lemma_subrange_shift(junk, s, p + 42 + nl, p + 42 + nl + el);
    lemma_subrange_shift(junk, s, p + 42 + nl + el, p + 42 + nl + el + cl);
    assert(cdh_extra_bytes(s2, p2) == cdh_extra_bytes(s, p));
    assert(cdh_initial_state(s2, p2) == cdh_initial_state(s, p));
    assert(cdh_inner_record_ok(s2, p2));
    let outcome = run_extras(cdh_extra_bytes(s, p), 0, cdh_initial_state(s, p));
    assert(outcome matches ExtraOutcome::Done(_, _)) by {
        if !(outcome matches ExtraOutcome::Done(_, _)) {
            assert(!cdh_inner_entry(s, p, off, pos as u64, d1));
        }
    }
    let st = outcome->Done_0;
    assert(d1.header_start == st.header_start + off);
    assert(cdh_inner_ok(s2, p2, off2));
    assert(cdh_ok(s2, junk.len() + pos, off2));
    assert(d2@.header_start == st.header_start + off2);
    assert(d2@ =~~= (crate::types::EntryView {
        header_start: (d1@.header_start + junk.len()) as u64,
        central_header_start: (d1@.central_header_start + junk.len()) as u64,
        ..d1@
    }));
}

/// Whether a whole central directory header (magic included) decodes at
/// `pos`.
pub open spec fn cdh_ok(s: Seq<u8>, pos: int, archive_offset: u64) -> bool {
    &&& 0 <= pos
    &&& pos + 4 <= s.len()
    &&& u32_le_at(s, pos) == CENTRAL_DIRECTORY_HEADER_SIGNATURE
    &&& cdh_inner_ok(s, pos + 4, archive_offset)
}

/// Decode the central directory header at `pos`, magic first.
pub fn central_header_to_zip_file(data: &[u8], pos: usize, archive_offset: u64) -> (r: ZipResult<
    (ZipFileData, usize),
>)
    ensures
        r is Ok <==> cdh_ok(data@, pos as int, archive_offset),
        r matches Ok((d, next)) ==> cdh_inner_entry(
            data@,
            pos + 4,
            archive_offset,
            pos as u64,
            d,
        ) && next == pos + 46 + cdh_name_len(data@, pos + 4) + cdh_extra_len(data@, pos + 4)
            + cdh_comment_len(data@, pos + 4),
        (pos + 4 <= data@.len() && u32_le_at(data@, pos as int)
            != CENTRAL_DIRECTORY_HEADER_SIGNATURE ==> (r matches Err(e) && e is InvalidArchive)),
        (pos + 4 > data@.len() ==> (r matches Err(e) && e is Io)),
        (r matches Err(e) ==> (e is Io || e is InvalidArchive || e is UnsupportedArchive)),
{
    if !(data.len() >= 4 && pos <= data.len() - 4) {
        return Err(ZipError::Io(String::from_str("failed to fill whole buffer")));
    }
    let signature = u32_at(data, pos);
    if signature != CENTRAL_DIRECTORY_HEADER_SIGNATURE {
        return Err(ZipError::InvalidArchive("Invalid Central Directory header"));
    }
    central_header_to_zip_file_inner(data, pos + 4, archive_offset, pos as u64)
}

} // verus!

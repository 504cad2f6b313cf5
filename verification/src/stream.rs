//! Reading entries from consecutive local file headers, as a non-seekable
//! source would see them: no central directory, so entries whose sizes are
//! deferred to a data descriptor, and encrypted entries, cannot be read
//! this way.

use vstd::prelude::*;

use crate::blocks::{CENTRAL_DIRECTORY_HEADER_SIGNATURE, LOCAL_FILE_HEADER_SIGNATURE};
use crate::bytes::{read_bytes, u16_at, u16_le_at, u32_at, u32_le_at};
use crate::errors::{unsupported_zip_error, ZipError, ZipResult};
use crate::extra::{extra_state_of, parse_extra_field, run_extras, ExtraOutcome, ExtraState};
use crate::read::{bounded_slice, ZipFile};
use crate::types::{CompressionMethod, DateTime, System, ZipFileData};

verus! {

/// The name length declared by the local header at `pos`.
pub open spec fn lfh_name_len(s: Seq<u8>, pos: int) -> int {
    u16_le_at(s, pos + 26) as int
}

/// The extra-field length declared by the local header at `pos`.
pub open spec fn lfh_extra_len(s: Seq<u8>, pos: int) -> int {
    u16_le_at(s, pos + 28) as int
}

/// Whether a whole local header lies at `pos`.
pub open spec fn lfh_record_ok(s: Seq<u8>, pos: int) -> bool {
    &&& 0 <= pos
    &&& pos + 30 <= s.len()
    &&& u32_le_at(s, pos) == LOCAL_FILE_HEADER_SIGNATURE
    &&& pos + 30 + lfh_name_len(s, pos) + lfh_extra_len(s, pos) <= s.len()
}

/// The flags word of the local header at `pos`.
pub open spec fn lfh_flags(s: Seq<u8>, pos: int) -> u16 {
    u16_le_at(s, pos + 6)
}

/// The descriptor state the local header's fixed fields establish before
/// its extra fields are applied.
pub open spec fn lfh_initial_state(s: Seq<u8>, pos: int) -> ExtraState {
    ExtraState {
        uncompressed_size: u32_le_at(s, pos + 22) as u64,
        compressed_size: u32_le_at(s, pos + 18) as u64,
        header_start: 0,
        large_file: false,
        compression_method: CompressionMethod::spec_from_u16(u16_le_at(s, pos + 8)),
        aes_mode: None,
        extra_fields: Seq::empty(),
    }
}

/// The raw extra-field bytes of the local header at `pos`.
pub open spec fn lfh_extra_bytes(s: Seq<u8>, pos: int) -> Seq<u8> {
    s.subrange(pos + 30 + lfh_name_len(s, pos), pos + 30 + lfh_name_len(s, pos) + lfh_extra_len(
        s,
        pos,
    ))
}

/// Read the entry whose local header lies at `pos`.
///
/// `Ok(None)` means the central directory begins here and no entries
/// remain. A successful read returns the entry and the position just past
/// its stored payload, so consecutive calls walk the archive. An entry
/// whose sizes live in a trailing data descriptor, or an encrypted one,
/// cannot be read from a stream and is refused as unsupported.
#[verifier::rlimit(100)]
pub fn read_zipfile_from_stream(data: &[u8], pos: usize) -> (r: ZipResult<
    Option<(ZipFile, usize)>,
>)
    ensures
        ((r matches Ok(o) && o is None) <==> pos + 4 <= data@.len() && u32_le_at(
            data@,
            pos as int,
        ) == CENTRAL_DIRECTORY_HEADER_SIGNATURE),
        (lfh_record_ok(data@, pos as int) && (run_extras(
            lfh_extra_bytes(data@, pos as int),
            0,
            lfh_initial_state(data@, pos as int),
        ) matches ExtraOutcome::Done(_, _)) && lfh_flags(data@, pos as int) % 2 == 1 ==> (r matches Err(
            e,
        ) && e is UnsupportedArchive)),
        (lfh_record_ok(data@, pos as int) && (run_extras(
            lfh_extra_bytes(data@, pos as int),
            0,
            lfh_initial_state(data@, pos as int),
        ) matches ExtraOutcome::Done(_, _)) && lfh_flags(data@, pos as int) % 2 != 1 && (lfh_flags(
            data@,
            pos as int,
        ) / 8) % 2 == 1 ==> (r matches Err(e) && e is UnsupportedArchive)),
        (pos + 4 <= data@.len() && u32_le_at(data@, pos as int)
            != CENTRAL_DIRECTORY_HEADER_SIGNATURE && u32_le_at(data@, pos as int)
            != LOCAL_FILE_HEADER_SIGNATURE ==> (r matches Err(e) && e is InvalidArchive)),
        (lfh_record_ok(data@, pos as int) && (run_extras(
            lfh_extra_bytes(data@, pos as int),
            0,
            lfh_initial_state(data@, pos as int),
        ) matches ExtraOutcome::Done(_, _)) && lfh_flags(data@, pos as int) % 2 != 1 && (lfh_flags(
            data@,
            pos as int,
        ) / 8) % 2 != 1 ==> (r matches Ok(o) && o is Some)),
        (r matches Ok(o) ==> o matches Some((f, next)) ==> {
            let s = data@;
            let p = pos as int;
            let flags = lfh_flags(s, p);
            let nl = lfh_name_len(s, p);
            match run_extras(lfh_extra_bytes(s, p), 0, lfh_initial_state(s, p)) {
                ExtraOutcome::Done(st, _) => {
                    &&& lfh_record_ok(s, p)
                    &&& flags % 2 != 1
                    &&& (flags / 8) % 2 != 1
                    &&& !f.is_raw()
                    &&& !f.spec_ae2()
                    &&& f.descriptor().file_name_raw == s.subrange(p + 30, p + 30 + nl)
                    &&& f.descriptor().compression_method == st.compression_method
                    &&& f.descriptor().crc32 == u32_le_at(s, p + 14)
                    &&& f.descriptor().compressed_size == st.compressed_size
                    &&& f.descriptor().uncompressed_size == st.uncompressed_size
                    &&& f.descriptor().file_comment.len() == 0
                    &&& f.descriptor().data_start is None
                    &&& f.descriptor().header_start == st.header_start
                    &&& f.descriptor().central_header_start == 0
                    &&& f.descriptor().external_attributes == 0
                    &&& f.spec_content() == bounded_slice(
                        s,
                        (p + 30 + nl + lfh_extra_len(s, p)) as u64,
                        st.compressed_size,
                    )
                    &&& next == p + 30 + nl + lfh_extra_len(s, p) + f.spec_content().len()
                },
                _ => false,
            }
        }),
{
    let n = data.len();
    if !(n >= 4 && pos <= n - 4) {
        return Err(ZipError::Io(String::from_str("failed to fill whole buffer")));
    }
    let signature = u32_at(data, pos);
    if signature == CENTRAL_DIRECTORY_HEADER_SIGNATURE {
        return Ok(None);
    }
    if signature != LOCAL_FILE_HEADER_SIGNATURE {
        return Err(ZipError::InvalidArchive("Invalid local file header"));
    }
    if !(n >= 30 && pos <= n - 30) {
        return Err(ZipError::Io(String::from_str("failed to fill whole buffer")));
    }
    let vmb = u16_at(data, pos + 4);
    let flags = u16_at(data, pos + 6);
    let method_id = u16_at(data, pos + 8);
    let timepart = u16_at(data, pos + 10);
    let datepart = u16_at(data, pos + 12);
    let crc32 = u32_at(data, pos + 14);
    let compressed_size = u32_at(data, pos + 18);
    let uncompressed_size = u32_at(data, pos + 22);
    let name_len = u16_at(data, pos + 26) as usize;
    let extra_len = u16_at(data, pos + 28) as usize;
    let file_name_raw = match read_bytes(data, pos + 30, name_len) {
        Some(v) => v,
        None => {
            return Err(ZipError::Io(String::from_str("failed to fill whole buffer")));
        },
    };
    let extra_field = match read_bytes(data, pos + 30 + name_len, extra_len) {
        Some(v) => v,
        None => {
            return Err(ZipError::Io(String::from_str("failed to fill whole buffer")));
        },
    };
    let is_utf8 = (flags / 2048) % 2 == 1;
    let file_name = if is_utf8 {
        crate::trusted::decode_utf8_lossy(file_name_raw.as_slice())
    } else {
        crate::cp437::from_cp437(file_name_raw.as_slice())
    };
    let mut result = ZipFileData {
        system: System::from_u8((vmb / 0x100) as u8),
        version_made_by: (vmb % 0x100) as u8,
        encrypted: flags % 2 == 1,
        using_data_descriptor: (flags / 8) % 2 == 1,
        is_utf8,
        compression_method: CompressionMethod::from_u16(method_id),
        last_modified_time: DateTime::from_msdos(datepart, timepart),
        crc32,
        compressed_size: compressed_size as u64,
        uncompressed_size: uncompressed_size as u64,
        file_name,
        file_name_raw,
        extra_field,
        file_comment: String::new(),
        header_start: 0,
        central_header_start: 0,
        data_start: None,
        external_attributes: 0,
        large_file: false,
        aes_mode: None,
        extra_fields: Vec::new(),
    };
    proof {
        assert(extra_state_of(result) =~~= ExtraState {
            extra_fields: Seq::empty(),
            ..lfh_initial_state(data@, pos as int)
        });
        assert(extra_state_of(result) == lfh_initial_state(data@, pos as int)) by {
            assert(lfh_initial_state(data@, pos as int).extra_fields =~= Seq::empty());
        }
    }
    match parse_extra_field(&mut result) {
        Ok(_) => {},
        Err(ZipError::Io(_)) => {},
        Err(e) => {
            return Err(e);
        },
    }
    if result.encrypted {
        return unsupported_zip_error("Encrypted files are not supported");
    }
    if result.using_data_descriptor {
        return unsupported_zip_error("The file length is not available in the local header");
    }
    let content_start = pos + 30 + name_len + extra_len;
    let avail: u64 = (n - content_start) as u64;
    let take: u64 = if result.compressed_size <= avail {
        result.compressed_size
    } else {
        avail
    };
    let content = match read_bytes(data, content_start, take as usize) {
        Some(v) => v,
        None => {
            return Err(ZipError::Io(String::from_str("failed to fill whole buffer")));
        },
    };
    let next = content_start + take as usize;
    proof {
        assert(content@ =~= bounded_slice(
            data@,
            content_start as u64,
            result.compressed_size,
        ));
    }
    Ok(Some((ZipFile::assemble(result, content, false, false), next)))
}

} // verus!

//! Parsing of the extra-field area of a central directory entry: the ZIP64
//! size overrides, the WinZip AES marker and the extended timestamp, as
//! repeated tag-length-value records.

use vstd::prelude::*;

use crate::bytes::{u16_le_at, u32_le_at, u64_le_at};
use crate::errors::{ZipError, ZipResult};
use crate::types::{
    AesMode, AesVendorVersion, CompressionMethod, ExtendedTimestamp, ExtraField, ZipFileData,
};

verus! {

/// The fields of a descriptor that extra-field records may change.
pub struct ExtraState {
    pub uncompressed_size: u64,
    pub compressed_size: u64,
    pub header_start: u64,
    pub large_file: bool,
    pub compression_method: CompressionMethod,
    pub aes_mode: Option<(AesMode, AesVendorVersion, CompressionMethod)>,
    pub extra_fields: Seq<ExtraField>,
}

/// How a pass over the extra bytes ends: `Done` carries the state as
/// mutated so far and whether the pass ran cleanly off the end (`true`) or
/// a record was cut short (`false`); `Unsupported` is an AES record of the
/// wrong length, `Invalid` a malformed one.
pub enum ExtraOutcome {
    Done(ExtraState, bool),
    Unsupported,
    Invalid,
}

/// The descriptor fields that the extra-field pass works on.
pub open spec fn extra_state_of(d: ZipFileData) -> ExtraState {
    ExtraState {
        uncompressed_size: d.uncompressed_size,
        compressed_size: d.compressed_size,
        header_start: d.header_start,
        large_file: d.large_file,
        compression_method: d.compression_method,
        aes_mode: d.aes_mode,
        extra_fields: d.extra_fields@,
    }
}

/// The number of timestamp words an extended-timestamp record with these
/// flags carries.
pub open spec fn ts_words(flags: u8) -> int {
    (if flags % 2 == 1 {
        1int
    } else {
        0int
    }) + (if (flags / 2) % 2 == 1 {
        1int
    } else {
        0int
    }) + (if (flags / 4) % 2 == 1 {
        1int
    } else {
        0int
    })
}

/// One ZIP64 record applied to the state: each 32-bit sentinel consumes an
/// eight-byte value, in the fixed order uncompressed size, compressed size,
/// then header start. Returns the position after the consumed values, the
/// new state, and whether a value was cut short.
pub open spec fn zip64_step(s: Seq<u8>, p: int, cond: bool, cur: u64) -> (int, u64, bool) {
    if cond {
        if p + 8 > s.len() {
            (p, cur, true)
        } else {
            (p + 8, u64_le_at(s, p), false)
        }
    } else {
        (p, cur, false)
    }
}

pub open spec fn apply_zip64(s: Seq<u8>, body: int, st: ExtraState) -> (int, ExtraState, bool) {
    let c1 = st.uncompressed_size == 0xFFFFFFFF;
    let (p1, v1, io1) = zip64_step(s, body, c1, st.uncompressed_size);
    let c2 = !io1 && st.compressed_size == 0xFFFFFFFF;
    let (p2, v2, io2) = zip64_step(s, p1, c2, st.compressed_size);
    let c3 = !io1 && !io2 && st.header_start == 0xFFFFFFFF;
    let (p3, v3, io3) = zip64_step(s, p2, c3, st.header_start);
    let st2 = ExtraState {
        uncompressed_size: v1,
        compressed_size: v2,
        header_start: v3,
        large_file: st.large_file || c1 || c2,
        ..st
    };
    (p3, st2, io1 || io2 || io3)
}

/// The whole pass over the extra bytes from `pos`, mirroring one
/// tag-length-value record per step. A truncated read ends the pass with
/// the state as mutated so far; a bad AES record fails it.
pub open spec fn run_extras(s: Seq<u8>, pos: int, st: ExtraState) -> ExtraOutcome
    decreases s.len() - pos,
{
    if pos >= s.len() {
        ExtraOutcome::Done(st, true)
    } else if pos + 2 > s.len() || pos + 4 > s.len() {
        ExtraOutcome::Done(st, false)
    } else {
        let kind = u16_le_at(s, pos);
        let len = u16_le_at(s, pos + 2) as int;
        let body = pos + 4;
        if kind == 0x0001 {
            let (pz, stz, io) = apply_zip64(s, body, st);
            if io {
                ExtraOutcome::Done(stz, false)
            } else {
                let consumed = pz - body;
                let pnext = if len > consumed {
                    body + len
                } else {
                    pz
                };
                run_extras(s, clamp_pos(s, pnext), stz)
            }
        } else if kind == 0x9901 {
            if len != 7 {
                ExtraOutcome::Unsupported
            } else if body + 7 > s.len() {
                ExtraOutcome::Done(st, false)
            } else {
                let vendor_version = u16_le_at(s, body);
                let vendor_id = u16_le_at(s, body + 2);
                let aes_mode = s[body + 4];
                let method = u16_le_at(s, body + 5);
                if vendor_id != 0x4541 {
                    ExtraOutcome::Invalid
                } else if vendor_version != 1 && vendor_version != 2 {
                    ExtraOutcome::Invalid
                } else if aes_mode != 1 && aes_mode != 2 && aes_mode != 3 {
                    ExtraOutcome::Invalid
                } else {
                    let vv = if vendor_version == 1 {
                        AesVendorVersion::Ae1
                    } else {
                        AesVendorVersion::Ae2
                    };
                    let strength = if aes_mode == 1 {
                        AesMode::Aes128
                    } else if aes_mode == 2 {
                        AesMode::Aes192
                    } else {
                        AesMode::Aes256
                    };
                    let inner = CompressionMethod::spec_from_u16(method);
                    let st2 = ExtraState {
                        aes_mode: Some((strength, vv, inner)),
                        compression_method: inner,
                        ..st
                    };
                    run_extras(s, clamp_pos(s, body + 7), st2)
                }
            }
        } else if kind == 0x5455 {
            if len < 1 || body + 1 > s.len() {
                ExtraOutcome::Done(st, false)
            } else {
                let flags = s[body];
                let required = 1 + 4 * ts_words(flags);
                if required > len || body + required > s.len() {
                    ExtraOutcome::Done(st, false)
                } else {
                    let mod_time = if flags % 2 == 1 {
                        Some(u32_le_at(s, body + 1))
                    } else {
                        None
                    };
                    let p_ac = body + 1 + (if flags % 2 == 1 {
                        4int
                    } else {
                        0int
                    });
                    let ac_time = if (flags / 2) % 2 == 1 {
                        Some(u32_le_at(s, p_ac))
                    } else {
                        None
                    };
                    let p_cr = p_ac + (if (flags / 2) % 2 == 1 {
                        4int
                    } else {
                        0int
                    });
                    let cr_time = if (flags / 4) % 2 == 1 {
                        Some(u32_le_at(s, p_cr))
                    } else {
                        None
                    };
                    let ts = ExtendedTimestamp { flags, mod_time, ac_time, cr_time };
                    let st2 = ExtraState {
                        extra_fields: st.extra_fields.push(ExtraField::ExtendedTimestamp(ts)),
                        ..st
                    };
                    run_extras(s, clamp_pos(s, body + len), st2)
                }
            }
        } else {
            run_extras(s, clamp_pos(s, body + len), st)
        }
    }
}

/// Positions past the end of the buffer all end the pass alike.
pub open spec fn clamp_pos(s: Seq<u8>, p: int) -> int {
    if p > s.len() {
        s.len() as int
    } else {
        p
    }
}

/// Whether everything outside the extra-field pass's reach is unchanged
/// between two descriptors.
pub open spec fn extras_frame(a: ZipFileData, b: ZipFileData) -> bool {
    &&& b.file_name == a.file_name
    &&& b.file_name_raw == a.file_name_raw
    &&& b.file_comment == a.file_comment
    &&& b.extra_field == a.extra_field
    &&& b.system == a.system
    &&& b.version_made_by == a.version_made_by
    &&& b.encrypted == a.encrypted
    &&& b.using_data_descriptor == a.using_data_descriptor
    &&& b.is_utf8 == a.is_utf8
    &&& b.last_modified_time == a.last_modified_time
    &&& b.crc32 == a.crc32
    &&& b.central_header_start == a.central_header_start
    &&& b.data_start == a.data_start
    &&& b.external_attributes == a.external_attributes
}

/// Apply one ZIP64 record in place; returns the position after the consumed
/// values and whether one was cut short.
#[verifier::rlimit(100)]
fn apply_zip64_exec(file: &mut ZipFileData, body: usize) -> (r: (usize, bool))
    requires
        body <= old(file).extra_field@.len(),
        old(file).extra_field@.len() <= 0xFFFF,
    ensures
        extras_frame(*old(file), *final(file)),
        ({
            let (pz, stz, io) = apply_zip64(
                old(file).extra_field@,
                body as int,
                extra_state_of(*old(file)),
            );
            &&& r.1 == io
            &&& extra_state_of(*final(file)) == stz
            &&& r.0 == pz
        }),
{
    let ghost s = file.extra_field@;
    let ghost st0 = extra_state_of(*file);
    let mut cursor = body;
    let mut truncated = false;
    if file.uncompressed_size == 0xFFFFFFFF {
        file.large_file = true;
        match crate::bytes::read_u64_le(file.extra_field.as_slice(), cursor) {
            Some(v) => {
                file.uncompressed_size = v;
                cursor = cursor + 8;
            },
            None => {
                truncated = true;
            },
        }
    }
    proof {
        let c1 = st0.uncompressed_size == 0xFFFFFFFF;
        let (p1, v1, io1) = zip64_step(s, body as int, c1, st0.uncompressed_size);
        assert(cursor == p1 && truncated == io1 && file.uncompressed_size == v1);
        assert(file.large_file == (st0.large_file || c1));
    }
    if !truncated && file.compressed_size == 0xFFFFFFFF {
        file.large_file = true;
        match crate::bytes::read_u64_le(file.extra_field.as_slice(), cursor) {
            Some(v) => {
                file.compressed_size = v;
                cursor = cursor + 8;
            },
            None => {
                truncated = true;
            },
        }
    }
    proof {
        let c1 = st0.uncompressed_size == 0xFFFFFFFF;
        let (p1, v1, io1) = zip64_step(s, body as int, c1, st0.uncompressed_size);
        let c2 = !io1 && st0.compressed_size == 0xFFFFFFFF;
        let (p2, v2, io2) = zip64_step(s, p1, c2, st0.compressed_size);
        assert(cursor == p2 && truncated == (io1 || io2) && file.compressed_size == v2);
        assert(file.large_file == (st0.large_file || c1 || c2));
    }
    if !truncated && file.header_start == 0xFFFFFFFF {
        match crate::bytes::read_u64_le(file.extra_field.as_slice(), cursor) {
            Some(v) => {
                file.header_start = v;
                cursor = cursor + 8;
            },
            None => {
                truncated = true;
            },
        }
    }
    proof {
        let c1 = st0.uncompressed_size == 0xFFFFFFFF;
        let (p1, v1, io1) = zip64_step(s, body as int, c1, st0.uncompressed_size);
        let c2 = !io1 && st0.compressed_size == 0xFFFFFFFF;
        let (p2, v2, io2) = zip64_step(s, p1, c2, st0.compressed_size);
        let c3 = !io1 && !io2 && st0.header_start == 0xFFFFFFFF;
        let (p3, v3, io3) = zip64_step(s, p2, c3, st0.header_start);
        assert(cursor == p3 && truncated == (io1 || io2 || io3) && file.header_start == v3);
        let (pz, stz, io) = apply_zip64(s, body as int, st0);
        assert(extra_state_of(*file) == stz);
    }
    (cursor, truncated)
}

/// Apply one AES record in place.
fn apply_aes_exec(file: &mut ZipFileData, body: usize, len: u16) -> (r: ZipResult<()>)
    requires
        body <= old(file).extra_field@.len(),
        old(file).extra_field@.len() <= 0xFFFF,
    ensures
        extras_frame(*old(file), *final(file)),
        ({
            let s = old(file).extra_field@;
            let st = extra_state_of(*old(file));
            if len != 7 {
                r matches Err(e) && e is UnsupportedArchive && extra_state_of(*final(file)) == st
            } else if body + 7 > s.len() {
                r matches Err(e) && e is Io && extra_state_of(*final(file)) == st
            } else {
                let vendor_version = u16_le_at(s, body as int);
                let vendor_id = u16_le_at(s, body + 2);
                let aes_mode = s[body + 4];
                let method = u16_le_at(s, body + 5);
                if vendor_id != 0x4541 || (vendor_version != 1 && vendor_version != 2) || (aes_mode
                    != 1 && aes_mode != 2 && aes_mode != 3) {
                    r matches Err(e) && e is InvalidArchive
                } else {
                    let vv = if vendor_version == 1 {
                        AesVendorVersion::Ae1
                    } else {
                        AesVendorVersion::Ae2
                    };
                    let strength = if aes_mode == 1 {
                        AesMode::Aes128
                    } else if aes_mode == 2 {
                        AesMode::Aes192
                    } else {
                        AesMode::Aes256
                    };
                    let inner = CompressionMethod::spec_from_u16(method);
                    r is Ok && extra_state_of(*final(file)) == ExtraState {
                        aes_mode: Some((strength, vv, inner)),
                        compression_method: inner,
                        ..st
                    }
                }
            }
        }),
{
    if len != 7 {
        return Err(ZipError::UnsupportedArchive("AES extra data field has an unsupported length"));
    }
    let n = file.extra_field.len();
    if body + 7 > n {
        return Err(ZipError::Io(String::from_str("failed to fill whole buffer")));
    }
    let vendor_version = crate::bytes::u16_at(file.extra_field.as_slice(), body);
    let vendor_id = crate::bytes::u16_at(file.extra_field.as_slice(), body + 2);
    let aes_mode = file.extra_field[body + 4];
    let method_id = crate::bytes::u16_at(file.extra_field.as_slice(), body + 5);
    if vendor_id != 0x4541 {
        return Err(ZipError::InvalidArchive("Invalid AES vendor"));
    }
    let vendor_version = match vendor_version {
        0x0001 => AesVendorVersion::Ae1,
        0x0002 => AesVendorVersion::Ae2,
        _ => {
            return Err(ZipError::InvalidArchive("Invalid AES vendor version"));
        },
    };
    let strength = match aes_mode {
        0x01 => AesMode::Aes128,
        0x02 => AesMode::Aes192,
        0x03 => AesMode::Aes256,
        _ => {
            return Err(ZipError::InvalidArchive("Invalid AES encryption strength"));
        },
    };
    let method = CompressionMethod::from_u16(method_id);
    file.aes_mode = Some((strength, vendor_version, method));
    file.compression_method = method;
    Ok(())
}

/// Apply one extended-timestamp record in place.
fn apply_ts_exec(file: &mut ZipFileData, body: usize, len: u16) -> (r: ZipResult<()>)
    requires
        body <= old(file).extra_field@.len(),
        old(file).extra_field@.len() <= 0xFFFF,
    ensures
        extras_frame(*old(file), *final(file)),
        ({
            let s = old(file).extra_field@;
            let st = extra_state_of(*old(file));
            if len < 1 || body + 1 > s.len() {
                r matches Err(e) && e is Io && extra_state_of(*final(file)) == st
            } else {
                let flags = s[body as int];
                let required = 1 + 4 * ts_words(flags);
                if required > len || body + required > s.len() {
                    r matches Err(e) && e is Io && extra_state_of(*final(file)) == st
                } else {
                    let mod_time = if flags % 2 == 1 {
                        Some(u32_le_at(s, body + 1))
                    } else {
                        None
                    };
                    let p_ac = body + 1 + (if flags % 2 == 1 {
                        4int
                    } else {
                        0int
                    });
                    let ac_time = if (flags / 2) % 2 == 1 {
                        Some(u32_le_at(s, p_ac))
                    } else {
                        None
                    };
                    let p_cr = p_ac + (if (flags / 2) % 2 == 1 {
                        4int
                    } else {
                        0int
                    });
                    let cr_time = if (flags / 4) % 2 == 1 {
                        Some(u32_le_at(s, p_cr))
                    } else {
                        None
                    };
                    let ts = ExtendedTimestamp { flags, mod_time, ac_time, cr_time };
                    r is Ok && extra_state_of(*final(file)) == ExtraState {
                        extra_fields: st.extra_fields.push(ExtraField::ExtendedTimestamp(ts)),
                        ..st
                    }
                }
            }
        }),
{
    let n = file.extra_field.len();
    if len < 1 || body + 1 > n {
        return Err(ZipError::Io(String::from_str("failed to fill whole buffer")));
    }
    let flags = file.extra_field[body];
    let words: usize = (if flags % 2 == 1 {
        1usize
    } else {
        0usize
    }) + (if (flags / 2) % 2 == 1 {
        1usize
    } else {
        0usize
    }) + (if (flags / 4) % 2 == 1 {
        1usize
    } else {
        0usize
    });
    let required = 1 + 4 * words;
    if required > len as usize || body + required > n {
        return Err(ZipError::Io(String::from_str("failed to fill whole buffer")));
    }
    let mut cursor = body + 1;
    let mod_time: Option<u32> = if flags % 2 == 1 {
        let v = crate::bytes::u32_at(file.extra_field.as_slice(), cursor);
        cursor = cursor + 4;
        Some(v)
    } else {
        None
    };
    let ac_time: Option<u32> = if (flags / 2) % 2 == 1 {
        let v = crate::bytes::u32_at(file.extra_field.as_slice(), cursor);
        cursor = cursor + 4;
        Some(v)
    } else {
        None
    };
    let cr_time: Option<u32> = if (flags / 4) % 2 == 1 {
        let v = crate::bytes::u32_at(file.extra_field.as_slice(), cursor);
        cursor = cursor + 4;
        Some(v)
    } else {
        None
    };
    let ts = ExtendedTimestamp { flags, mod_time, ac_time, cr_time };
    file.extra_fields.push(ExtraField::ExtendedTimestamp(ts));
    Ok(())
}

/// Read and apply every extra-field record of the descriptor.
///
/// The ZIP64 record replaces each size or offset that the fixed header left
/// as a 32-bit sentinel; the AES record stores the encryption parameters
/// and swaps in the real inner compression method; the extended timestamp
/// is collected. A record cut short by the end of the bytes stops the pass
/// with an I/O error and keeps what was applied so far; a malformed AES
/// record fails the whole parse.
#[verifier::rlimit(100)]
pub fn parse_extra_field(file: &mut ZipFileData) -> (r: ZipResult<()>)
    requires
        old(file).extra_field@.len() <= 0xFFFF,
    ensures
        final(file).file_name == old(file).file_name,
        final(file).file_name_raw == old(file).file_name_raw,
        final(file).file_comment == old(file).file_comment,
        final(file).extra_field == old(file).extra_field,
        final(file).system == old(file).system,
        final(file).version_made_by == old(file).version_made_by,
        final(file).encrypted == old(file).encrypted,
        final(file).using_data_descriptor == old(file).using_data_descriptor,
        final(file).is_utf8 == old(file).is_utf8,
        final(file).last_modified_time == old(file).last_modified_time,
        final(file).crc32 == old(file).crc32,
        final(file).central_header_start == old(file).central_header_start,
        final(file).data_start == old(file).data_start,
        final(file).external_attributes == old(file).external_attributes,
        match run_extras(old(file).extra_field@, 0, extra_state_of(*old(file))) {
            ExtraOutcome::Done(st, clean) => (if clean {
                r is Ok
            } else {
                r matches Err(e) && e is Io
            }) && extra_state_of(*final(file)) == st,
            ExtraOutcome::Unsupported => r matches Err(e) && e is UnsupportedArchive,
            ExtraOutcome::Invalid => r matches Err(e) && e is InvalidArchive,
        },
{
    let ghost s = file.extra_field@;
    let n = file.extra_field.len();
    let mut pos: usize = 0;
    loop
        invariant
            n == s.len(),
            n <= 0xFFFF,
            pos <= n,
            s == file.extra_field@,
            extras_frame(*old(file), *file),
            run_extras(s, 0, extra_state_of(*old(file))) == run_extras(
                s,
                pos as int,
                extra_state_of(*file),
            ),
        decreases n - pos,
    {
        if pos >= n {
            return Ok(());
        }
        let kind = match crate::bytes::read_u16_le(file.extra_field.as_slice(), pos) {
            Some(k) => k,
            None => {
                return Err(ZipError::Io(String::from_str("failed to fill whole buffer")));
            },
        };
        let len = match crate::bytes::read_u16_le(file.extra_field.as_slice(), pos + 2) {
            Some(l) => l,
            None => {
                return Err(ZipError::Io(String::from_str("failed to fill whole buffer")));
            },
        };
        let body = pos + 4;
        let ghost st_before = extra_state_of(*file);
        if kind == 0x0001 {
            let (cursor, truncated) = apply_zip64_exec(file, body);
            if truncated {
                proof {
                    assert(run_extras(s, pos as int, st_before) == ExtraOutcome::Done(
                        extra_state_of(*file),
                        false,
                    ));
                }
                return Err(ZipError::Io(String::from_str("failed to fill whole buffer")));
            }
            let consumed = cursor - body;
            let next = if (len as usize) > consumed {
                body + (len as usize)
            } else {
                cursor
            };
            let new_pos = if next > n {
                n
            } else {
                next
            };
            proof {
                assert(run_extras(s, pos as int, st_before) == run_extras(
                    s,
                    new_pos as int,
                    extra_state_of(*file),
                ));
            }
            pos = new_pos;
        } else if kind == 0x9901 {
            match apply_aes_exec(file, body, len) {
                Ok(()) => {},
                Err(e) => {
                    return Err(e);
                },
            }
            let new_pos = if body + 7 > n {
                n
            } else {
                body + 7
            };
            proof {
                assert(run_extras(s, pos as int, st_before) == run_extras(
                    s,
                    new_pos as int,
                    extra_state_of(*file),
                ));
            }
            pos = new_pos;
        } else if kind == 0x5455 {
            match apply_ts_exec(file, body, len) {
                Ok(()) => {},
                Err(e) => {
                    return Err(e);
                },
            }
            let next = body + (len as usize);
            let new_pos = if next > n {
                n
            } else {
                next
            };
            proof {
                assert(run_extras(s, pos as int, st_before) == run_extras(
                    s,
                    new_pos as int,
                    extra_state_of(*file),
                ));
            }
            pos = new_pos;
        } else {
            let next = body + (len as usize);
            let new_pos = if next > n {
                n
            } else {
                next
            };
            proof {
                assert(run_extras(s, pos as int, st_before) == run_extras(
                    s,
                    new_pos as int,
                    extra_state_of(*file),
                ));
            }
            pos = new_pos;
        }
    }
}

} // verus!

//! Reading a whole archive: reconciling the ZIP32 and ZIP64 footers,
//! parsing the central directory, and the archive handle itself.

use vstd::prelude::*;

use crate::blocks::{
    z64_cde_ok, Zip32CentralDirectoryEnd, Zip64CentralDirectoryEnd, Zip64CentralDirectoryEndLocator,
};
use crate::central::{
    cdh_comment_len, cdh_extra_len, cdh_inner_entry, cdh_name_len, cdh_ok,
    central_header_to_zip_file,
};
use crate::errors::{unsupported_zip_error, ZipError, ZipResult};
use crate::types::ZipFileData;

verus! {

/// One candidate reading of the central directory's place and size.
pub struct CentralDirectoryInfo {
    pub archive_offset: u64,
    pub directory_start: u64,
    pub number_of_files: usize,
    pub disk_number: u32,
    pub disk_with_central_directory: u32,
}

/// The ZIP32 reading of the footer: the archive offset is whatever lies
/// before the recorded directory, and fails exactly when the recorded size
/// and offset together overshoot the footer's own position.
pub fn get_directory_info_zip32(footer: &Zip32CentralDirectoryEnd, cde_start_pos: u64) -> (r:
    ZipResult<CentralDirectoryInfo>)
    ensures
        r is Ok <==> footer.central_directory_size + footer.central_directory_offset
            <= cde_start_pos,
        r matches Ok(info) ==> {
            &&& info.archive_offset == cde_start_pos - footer.central_directory_size
                - footer.central_directory_offset
            &&& info.directory_start == cde_start_pos - footer.central_directory_size
            &&& info.number_of_files == footer.number_of_files_on_this_disk
            &&& info.disk_number == footer.disk_number
            &&& info.disk_with_central_directory == footer.disk_with_central_directory
        },
        r matches Err(e) ==> e is InvalidArchive,
{
    let cds = footer.central_directory_size as u64;
    let cdo = footer.central_directory_offset as u64;
    let archive_offset = match cde_start_pos.checked_sub(cds) {
        Some(x) => match x.checked_sub(cdo) {
            Some(y) => y,
            None => {
                return Err(ZipError::InvalidArchive("Invalid central directory size or offset"));
            },
        },
        None => {
            return Err(ZipError::InvalidArchive("Invalid central directory size or offset"));
        },
    };
    let directory_start = cdo + archive_offset;
    Ok(
        CentralDirectoryInfo {
            archive_offset,
            directory_start,
            number_of_files: footer.number_of_files_on_this_disk as usize,
            disk_number: footer.disk_number as u32,
            disk_with_central_directory: footer.disk_with_central_directory as u32,
        },
    )
}

/// Whether a candidate's count, disks and directory start are those of a
/// ZIP64 end-of-central-directory record that decodes somewhere in the
/// bytes.
pub open spec fn z64_info_sound(s: Seq<u8>, info: CentralDirectoryInfo) -> bool {
    exists|p: int, cde: Zip64CentralDirectoryEnd|
        {
            &&& z64_cde_ok(s, p)
            &&& #[trigger] cde.decodes_record_at(s, p)
            &&& info.number_of_files == cde.number_of_files as usize
            &&& info.disk_number == cde.disk_number
            &&& info.disk_with_central_directory == cde.disk_with_central_directory
            &&& info.directory_start == cde.central_directory_offset + info.archive_offset
            &&& cde.number_of_files_on_this_disk <= cde.number_of_files
            &&& cde.version_needed_to_extract <= cde.version_made_by
        }
}

/// Where the ZIP64 locator must sit: just before the ZIP32 footer and its
/// comment.
pub open spec fn z64_locator_pos(s: Seq<u8>, clen: int) -> int {
    s.len() - 42 - clen
}

/// Whether a ZIP64 locator record sits at its place.
pub open spec fn z64_locator_found(s: Seq<u8>, clen: int) -> bool {
    s.len() >= 42 + clen && crate::bytes::u32_le_at(s, z64_locator_pos(s, clen))
        == crate::blocks::ZIP64_CENTRAL_DIRECTORY_END_LOCATOR_SIGNATURE
}

/// The nominal ZIP64 end-of-central-directory offset the locator records.
pub open spec fn z64_nominal(s: Seq<u8>, clen: int) -> u64 {
    crate::bytes::u64_le_at(s, z64_locator_pos(s, clen) + 8)
}

/// Whether a candidate's fields are those of a ZIP64 record that decodes
/// inside the locator's search region, at the distance the candidate
/// records.
pub open spec fn z64_info_in_region(
    s: Seq<u8>,
    clen: int,
    cde_start_pos: u64,
    info: CentralDirectoryInfo,
) -> bool {
    exists|p: int, cde: Zip64CentralDirectoryEnd|
        {
            &&& z64_cde_ok(s, p)
            &&& #[trigger] cde.decodes_record_at(s, p)
            &&& z64_nominal(s, clen) <= p
            &&& p + 4 <= cde_start_pos - 60
            &&& p == z64_nominal(s, clen) + info.archive_offset
            &&& info.number_of_files == cde.number_of_files as usize
            &&& info.disk_number == cde.disk_number
            &&& info.disk_with_central_directory == cde.disk_with_central_directory
            &&& info.directory_start == cde.central_directory_offset + info.archive_offset
        }
}

/// How one search hit maps to one element of the candidate list: the hit's
/// record and archive offset yield `Ok` with the computed directory start
/// exactly when the offset arithmetic stays in bounds, the per-disk count
/// is plausible and the versions are ordered; otherwise that element is an
/// invalid-archive error.
pub open spec fn z64_element_matches(
    upper: u64,
    cand: (Zip64CentralDirectoryEnd, u64),
    e: ZipResult<CentralDirectoryInfo>,
) -> bool {
    let cde = cand.0;
    let off = cand.1;
    let accepted = {
        &&& cde.central_directory_offset + off <= u64::MAX
        &&& cde.central_directory_offset + off <= upper
        &&& cde.number_of_files_on_this_disk <= cde.number_of_files
        &&& cde.version_needed_to_extract <= cde.version_made_by
    };
    match e {
        Ok(info) => {
            &&& accepted
            &&& info.archive_offset == off
            &&& info.directory_start == cde.central_directory_offset + off
            &&& info.number_of_files == cde.number_of_files as usize
            &&& info.disk_number == cde.disk_number
            &&& info.disk_with_central_directory == cde.disk_with_central_directory
        },
        Err(err) => !accepted && err is InvalidArchive,
    }
}

/// Whether some ZIP64 record in the search region fails one of the
/// reconciler's sanity checks: its directory start overflows or overshoots
/// the search bound, it claims more entries on this disk than in the whole
/// archive, or it demands a newer tool than wrote it.
pub open spec fn z64_some_candidate_rejected(
    s: Seq<u8>,
    nominal: u64,
    cde_start_pos: u64,
) -> bool {
    exists|p: int, cde: Zip64CentralDirectoryEnd|
        {
            &&& z64_cde_ok(s, p)
            &&& #[trigger] cde.decodes_record_at(s, p)
            &&& nominal <= p
            &&& p + 4 <= cde_start_pos - 60
            &&& {
                ||| cde.central_directory_offset + (p - nominal) > u64::MAX
                ||| cde.central_directory_offset + (p - nominal) > cde_start_pos - 60
                ||| cde.number_of_files_on_this_disk > cde.number_of_files
                ||| cde.version_needed_to_extract > cde.version_made_by
            }
        }
}

/// The ZIP64 readings of the footer: find the locator just before the
/// ZIP32 footer, search the region it points into, and turn every hit into
/// a candidate, marking implausible ones as errors.
pub fn get_directory_info_zip64(
    data: &[u8],
    footer: &Zip32CentralDirectoryEnd,
    cde_start_pos: u64,
) -> (r: ZipResult<Vec<ZipResult<CentralDirectoryInfo>>>)
    ensures
        (r matches Err(e) ==> (e is Io || e is InvalidArchive)),
        r matches Ok(v) ==> forall|k: int|
            #![trigger v@[k]]
            0 <= k < v@.len() ==> (v@[k] matches Err(e) ==> e is InvalidArchive),
        (r is Ok <==> {
            let clen = footer.zip_file_comment@.len() as int;
            &&& z64_locator_found(data@, clen)
            &&& cde_start_pos >= 60
            &&& z64_nominal(data@, clen) <= cde_start_pos - 60 <= data@.len()
            &&& exists|j: int|
                #[trigger] crate::blocks::z64_sig_in_region(
                    data@,
                    z64_nominal(data@, clen) as int,
                    (cde_start_pos - 60) as int,
                    j,
                )
            &&& forall|j: int|
                #[trigger] crate::blocks::z64_sig_in_region(
                    data@,
                    z64_nominal(data@, clen) as int,
                    (cde_start_pos - 60) as int,
                    j,
                ) ==> j + 56 <= data@.len()
        }),
        r matches Ok(v) ==> v@.len() >= 1 && forall|k: int|
            #![trigger v@[k]]
            0 <= k < v@.len() ==> (v@[k] matches Ok(info) ==> info.directory_start
                <= cde_start_pos - 60 && z64_info_sound(data@, info)),
        r matches Ok(v) ==> forall|k: int|
            #![trigger v@[k]]
            0 <= k < v@.len() ==> (v@[k] is Err ==> z64_some_candidate_rejected(
                data@,
                z64_nominal(data@, footer.zip_file_comment@.len() as int),
                cde_start_pos,
            )),
        r matches Ok(v) ==> forall|k: int|
            #![trigger v@[k]]
            0 <= k < v@.len() ==> (v@[k] matches Ok(info) ==> z64_info_in_region(
                data@,
                footer.zip_file_comment@.len() as int,
                cde_start_pos,
                info,
            )),
        r matches Ok(v) ==> exists|cands: Seq<(Zip64CentralDirectoryEnd, u64)>|
            {
                &&& #[trigger] crate::blocks::z64_candidates_ok(
                    data@,
                    z64_nominal(data@, footer.zip_file_comment@.len() as int) as int,
                    (cde_start_pos - 60) as int,
                    cands,
                )
                &&& v@.len() == cands.len()
                &&& forall|k: int|
                    0 <= k < v@.len() ==> #[trigger] z64_element_matches(
                        (cde_start_pos - 60) as u64,
                        cands[k],
                        v@[k],
                    )
            },
{
    let flen = data.len() as u64;
    let comment_len = footer.zip_file_comment.len() as u64;
    let locator_pos = match flen.checked_sub(20) {
        Some(x) => match x.checked_sub(22) {
            Some(y) => match y.checked_sub(comment_len) {
                Some(z) => z,
                None => {
                    return Err(ZipError::Io(String::from_str("invalid seek offset")));
                },
            },
            None => {
                return Err(ZipError::Io(String::from_str("invalid seek offset")));
            },
        },
        None => {
            return Err(ZipError::Io(String::from_str("invalid seek offset")));
        },
    };
    let locator64 = match Zip64CentralDirectoryEndLocator::parse(data, locator_pos as usize) {
        Ok(l) => l,
        Err(e) => {
            return Err(e);
        },
    };
    let search_upper_bound = match cde_start_pos.checked_sub(60) {
        Some(x) => x,
        None => {
            return Err(
                ZipError::InvalidArchive("File cannot contain ZIP64 central directory end"),
            );
        },
    };
    let search_results = match Zip64CentralDirectoryEnd::find_and_parse(
        data,
        locator64.end_of_central_directory_offset,
        search_upper_bound,
    ) {
        Ok(v) => v,
        Err(e) => {
            return Err(e);
        },
    };
    let mut results: Vec<ZipResult<CentralDirectoryInfo>> = Vec::new();
    let n = search_results.len();
    let mut i: usize = 0;
    while i < n
        invariant
            n == search_results@.len(),
            i <= n,
            results@.len() == i,
            crate::blocks::z64_candidates_ok(
                data@,
                locator64.end_of_central_directory_offset as int,
                search_upper_bound as int,
                search_results@,
            ),
            locator64.end_of_central_directory_offset <= search_upper_bound <= data@.len(),
            search_upper_bound == cde_start_pos - 60,
            forall|k: int|
                #![trigger results@[k]]
                0 <= k < i ==> (results@[k] matches Ok(info) ==> info.directory_start
                    <= cde_start_pos - 60 && z64_info_sound(data@, info)),
            forall|k: int|
                #![trigger results@[k]]
                0 <= k < i ==> (results@[k] is Err ==> z64_some_candidate_rejected(
                    data@,
                    locator64.end_of_central_directory_offset,
                    cde_start_pos,
                )),
            forall|k: int|
                #![trigger results@[k]]
                0 <= k < i ==> (results@[k] matches Ok(info) ==> z64_info_in_region(
                    data@,
                    footer.zip_file_comment@.len() as int,
                    cde_start_pos,
                    info,
                )),
            forall|k: int|
                0 <= k < i ==> #[trigger] z64_element_matches(
                    search_upper_bound,
                    search_results@[k],
                    results@[k],
                ),
            forall|k: int|
                #![trigger results@[k]]
                0 <= k < i ==> (results@[k] matches Err(e) ==> e is InvalidArchive),
            locator64.end_of_central_directory_offset == z64_nominal(
                data@,
                footer.zip_file_comment@.len() as int,
            ),
        decreases n - i,
    {
        let footer64 = &search_results[i].0;
        let archive_offset = search_results[i].1;
        proof {
            let p = locator64.end_of_central_directory_offset + search_results@[i as int].1;
            assert(z64_cde_ok(data@, p));
            assert(search_results@[i as int].0.decodes_record_at(data@, p));
        }
        let entry: ZipResult<CentralDirectoryInfo> = match footer64
            .central_directory_offset
            .checked_add(archive_offset) {
            None => Err(ZipError::InvalidArchive("Invalid central directory size or offset")),
            Some(directory_start) => {
                if directory_start > search_upper_bound {
                    Err(ZipError::InvalidArchive("Invalid central directory size or offset"))
                } else if footer64.number_of_files_on_this_disk > footer64.number_of_files {
                    Err(
                        ZipError::InvalidArchive(
                            "ZIP64 footer indicates more files on this disk than in the whole archive",
                        ),
                    )
                } else if footer64.version_needed_to_extract > footer64.version_made_by {
                    Err(
                        ZipError::InvalidArchive(
                            "ZIP64 footer indicates a new version is needed to extract this archive than the version that wrote it",
                        ),
                    )
                } else {
                    proof {
                        let p = locator64.end_of_central_directory_offset
                            + search_results@[i as int].1;
                        assert(z64_cde_ok(data@, p));
                        assert(search_results@[i as int].0.decodes_record_at(data@, p));
                    }
                    Ok(
                        CentralDirectoryInfo {
                            archive_offset,
                            directory_start,
                            number_of_files: footer64.number_of_files as usize,
                            disk_number: footer64.disk_number,
                            disk_with_central_directory: footer64.disk_with_central_directory,
                        },
                    )
                }
            },
        };
        results.push(entry);
        i = i + 1;
    }
    proof {
        assert(crate::blocks::z64_candidates_ok(
            data@,
            z64_nominal(data@, footer.zip_file_comment@.len() as int) as int,
            (cde_start_pos - 60) as int,
            search_results@,
        ));
    }
    Ok(results)
}

/// The position of the header after the one at `pos`.
pub open spec fn cd_next(s: Seq<u8>, pos: int) -> int {
    pos + 46 + cdh_name_len(s, pos + 4) + cdh_extra_len(s, pos + 4) + cdh_comment_len(s, pos + 4)
}

/// Whether `count` consecutive central directory headers decode from `pos`.
pub open spec fn cd_chain_ok(s: Seq<u8>, pos: int, count: int, off: u64) -> bool
    decreases count,
{
    count <= 0 || (cdh_ok(s, pos, off) && cd_chain_ok(s, cd_next(s, pos), count - 1, off))
}

/// Whether `raw` is the run of `count` descriptors decoded from `pos`.
pub open spec fn chain_entries(
    s: Seq<u8>,
    pos: int,
    count: int,
    off: u64,
    raw: Seq<ZipFileData>,
) -> bool
    decreases count,
{
    if count <= 0 {
        raw.len() == 0
    } else {
        &&& raw.len() == count
        &&& cdh_ok(s, pos, off)
        &&& cdh_inner_entry(s, pos + 4, off, pos as u64, raw[0])
        &&& chain_entries(s, cd_next(s, pos), count - 1, off, raw.drop_first())
    }
}

/// The position of the first descriptor with this name, or -1.
pub open spec fn find_name(files: Seq<ZipFileData>, name: Seq<char>) -> int
    decreases files.len(),
{
    if files.len() == 0 {
        -1
    } else if files[0].file_name@ == name {
        0
    } else {
        let r = find_name(files.drop_first(), name);
        if r < 0 {
            -1
        } else {
            r + 1
        }
    }
}

/// Insert a descriptor under its name: an existing entry with the same name
/// is replaced in place, keeping its position; a new name goes to the end.
pub open spec fn insert_keyed(files: Seq<ZipFileData>, d: ZipFileData) -> Seq<ZipFileData> {
    let k = find_name(files, d.file_name@);
    if k < 0 {
        files.push(d)
    } else {
        files.update(k, d)
    }
}

/// The descriptors of `raw` inserted in order under their names.
pub open spec fn dedup_keyed(raw: Seq<ZipFileData>) -> Seq<ZipFileData>
    decreases raw.len(),
{
    if raw.len() == 0 {
        Seq::<ZipFileData>::empty()
    } else {
        insert_keyed(dedup_keyed(raw.drop_last()), raw.last())
    }
}

/// Whether no two descriptors share a name.
pub open spec fn names_unique(files: Seq<ZipFileData>) -> bool {
    forall|i: int, j: int|
        0 <= i < j < files.len() ==> files[i].file_name@ != files[j].file_name@
}

/// What `find_name` finds: the first position with the name, or nothing.
pub proof fn lemma_find_name(files: Seq<ZipFileData>, name: Seq<char>)
    ensures
        ({
            let k = find_name(files, name);
            if k < 0 {
                forall|j: int| 0 <= j < files.len() ==> files[j].file_name@ != name
            } else {
                &&& 0 <= k < files.len()
                &&& files[k].file_name@ == name
                &&& forall|j: int| 0 <= j < k ==> files[j].file_name@ != name
            }
        }),
    decreases files.len(),
{
    if files.len() > 0 && files[0].file_name@ != name {
        lemma_find_name(files.drop_first(), name);
        let rest = files.drop_first();
        assert forall|j: int| 0 <= j < rest.len() implies rest[j] == files[j + 1] by {
            assert(rest[j] == files.subrange(1, files.len() as int)[j]);
        }
        let kr = find_name(rest, name);
        if kr < 0 {
            assert forall|j: int| 0 <= j < files.len() implies files[j].file_name@ != name by {
                if j > 0 {
                    assert(rest[j - 1].file_name@ != name);
                }
            }
        } else {
            assert(files[kr + 1].file_name@ == name);
            assert forall|j: int| 0 <= j < kr + 1 implies files[j].file_name@ != name by {
                if j > 0 {
                    assert(rest[j - 1].file_name@ != name);
                }
            }
        }
    }
}

/// Keyed insertion keeps names unique.
pub proof fn lemma_insert_keyed_unique(files: Seq<ZipFileData>, d: ZipFileData)
    requires
        names_unique(files),
    ensures
        names_unique(insert_keyed(files, d)),
        insert_keyed(files, d).len() <= files.len() + 1,
        files.len() <= insert_keyed(files, d).len(),
{
    lemma_find_name(files, d.file_name@);
    let k = find_name(files, d.file_name@);
    let out = insert_keyed(files, d);
    if k < 0 {
        assert forall|i: int, j: int| 0 <= i < j < out.len() implies out[i].file_name@
            != out[j].file_name@ by {
            if j < files.len() {
            } else {
                assert(out[j] == d);
                assert(out[i] == files[i]);
                assert(files[i].file_name@ != d.file_name@);
            }
        }
    } else {
        assert forall|i: int, j: int| 0 <= i < j < out.len() implies out[i].file_name@
            != out[j].file_name@ by {
            if i == k {
                assert(out[i] == d && out[j] == files[j]);
                assert(files[k].file_name@ == d.file_name@);
                assert(files[j].file_name@ != files[k].file_name@);
            } else if j == k {
                assert(out[j] == d && out[i] == files[i]);
                assert(files[i].file_name@ != files[k].file_name@);
            }
        }
    }
}

/// The keyed view of any run has unique names and at most as many entries.
pub proof fn lemma_dedup_unique(raw: Seq<ZipFileData>)
    ensures
        names_unique(dedup_keyed(raw)),
        dedup_keyed(raw).len() <= raw.len(),
    decreases raw.len(),
{
    if raw.len() > 0 {
        lemma_dedup_unique(raw.drop_last());
        lemma_insert_keyed_unique(dedup_keyed(raw.drop_last()), raw.last());
    }
}

/// A run whose names are already unique is kept exactly as it is.
///
/// This is the heart of the claim that an archive's entry count equals the
/// count its winning footer declares: only a repeated name can collapse
/// entries.
pub proof fn lemma_dedup_distinct(raw: Seq<ZipFileData>)
    requires
        names_unique(raw),
    ensures
        dedup_keyed(raw) == raw,
    decreases raw.len(),
{
    if raw.len() > 0 {
        let prefix = raw.drop_last();
        assert(forall|i: int| 0 <= i < prefix.len() ==> prefix[i] == raw[i]);
        lemma_dedup_distinct(prefix);
        lemma_find_name(prefix, raw.last().file_name@);
        let k = find_name(prefix, raw.last().file_name@);
        if k >= 0 {
            assert(raw[k].file_name@ == raw[raw.len() - 1].file_name@);
            assert(false);
        }
        assert(insert_keyed(prefix, raw.last()) =~= raw);
    }
}

/// Replace the descriptor with this name, or append a new one.
fn insert_entry(files: &mut Vec<ZipFileData>, d: ZipFileData)
    ensures
        final(files)@ == insert_keyed(old(files)@, d),
{
    let n = files.len();
    let mut j: usize = 0;
    while j < n
        invariant
            n == files@.len(),
            j <= n,
            files@ == old(files)@,
            forall|jj: int| 0 <= jj < j ==> files@[jj].file_name@ != d.file_name@,
        decreases n - j,
    {
        if files[j].file_name.eq(&d.file_name) {
            proof {
                assert(find_name(old(files)@, d.file_name@) == j as int) by {
                    lemma_find_name(old(files)@, d.file_name@);
                    let k = find_name(old(files)@, d.file_name@);
                    if k < 0 {
                        assert(old(files)@[j as int].file_name@ != d.file_name@);
                    } else if k < j {
                        assert(old(files)@[k].file_name@ != d.file_name@);
                    } else if k > j {
                        assert(old(files)@[j as int].file_name@ != d.file_name@);
                    }
                }
            }
            files.set(j, d);
            return ;
        }
        j = j + 1;
    }
    proof {
        assert(find_name(old(files)@, d.file_name@) < 0) by {
            lemma_find_name(old(files)@, d.file_name@);
            let k = find_name(old(files)@, d.file_name@);
            if k >= 0 {
                assert(old(files)@[k].file_name@ != d.file_name@);
            }
        }
    }
    files.push(d);
}

/// Parse `count` consecutive central directory headers from `dir_start`,
/// keyed by decoded name: a later entry with a repeated name replaces the
/// earlier one in place. Storage grows one parsed entry at a time, so a
/// lying count never causes a large allocation up front.
pub fn parse_directory(data: &[u8], dir_start: u64, count: usize, archive_offset: u64) -> (r:
    ZipResult<Vec<ZipFileData>>)
    ensures
        r is Ok <==> cd_chain_ok(data@, dir_start as int, count as int, archive_offset),
        (r matches Err(e) ==> (e is Io || e is InvalidArchive || e is UnsupportedArchive)),
        r matches Ok(files) ==> exists|raw: Seq<ZipFileData>|
            #[trigger] chain_entries(data@, dir_start as int, count as int, archive_offset, raw)
                && files@ == dedup_keyed(raw),
        r matches Ok(files) ==> names_unique(files@) && files@.len() <= count,
{
    let mut files: Vec<ZipFileData> = Vec::new();
    let ghost mut raw: Seq<ZipFileData> = Seq::empty();
    let mut pos: u64 = dir_start;
    let mut i: usize = 0;
    while i < count
        invariant
            i <= count,
            pos as int == chain_pos(data@, dir_start as int, i as int),
            chain_entries(data@, dir_start as int, i as int, archive_offset, raw),
            cd_chain_ok(data@, dir_start as int, count as int, archive_offset) == cd_chain_ok(
                data@,
                pos as int,
                count - i,
                archive_offset,
            ),
            files@ == dedup_keyed(raw),
            names_unique(files@),
            files@.len() <= i,
            raw.len() == i,
        decreases count - i,
    {
        if pos > data.len() as u64 {
            proof {
                assert(!cdh_ok(data@, pos as int, archive_offset));
                assert(!cd_chain_ok(data@, pos as int, count - i, archive_offset));
            }
            return Err(ZipError::Io(String::from_str("failed to fill whole buffer")));
        }
        let (entry, next) = match central_header_to_zip_file(data, pos as usize, archive_offset) {
            Ok(p) => p,
            Err(e) => {
                proof {
                    assert(!cd_chain_ok(data@, pos as int, count - i, archive_offset));
                }
                return Err(e);
            },
        };
        proof {
            lemma_chain_snoc(data@, dir_start as int, i as int, archive_offset, raw, pos as int,
                entry);
            lemma_dedup_unique(raw.push(entry));
            lemma_insert_keyed_unique(dedup_keyed(raw), entry);
            assert(dedup_keyed(raw.push(entry)) == insert_keyed(dedup_keyed(raw), entry)) by {
                assert(raw.push(entry).drop_last() =~= raw);
                assert(raw.push(entry).last() == entry);
            }
        }
        insert_entry(&mut files, entry);
        proof {
            raw = raw.push(entry);
        }
        pos = next as u64;
        i = i + 1;
    }
    Ok(files)
}

/// The metadata an archive shares among its readers: the descriptor table
/// in directory order, the junk offset, and where the directory begins.
#[derive(Debug, Clone)]
pub struct Shared {
    pub files: Vec<ZipFileData>,
    pub offset: u64,
    pub dir_start: u64,
}

/// Whether `sh` is a faithful parse of a directory of `count` entries at
/// its recorded start: the headers decode there, and the table is their
/// run keyed by name.
pub open spec fn shared_parse_ok(s: Seq<u8>, sh: Shared, count: usize) -> bool {
    &&& names_unique(sh.files@)
    &&& cd_chain_ok(s, sh.dir_start as int, count as int, sh.offset)
    &&& exists|raw: Seq<ZipFileData>|
        #[trigger] chain_entries(s, sh.dir_start as int, count as int, sh.offset, raw)
            && sh.files@ == dedup_keyed(raw)
    &&& sh.files@.len() <= count
}

/// Whether `count` and the directory place of `sh` are those declared by
/// an end-of-central-directory view of the bytes: the ZIP32 footer itself,
/// or a ZIP64 record found in them.
pub open spec fn count_from_footer(
    s: Seq<u8>,
    footer: Zip32CentralDirectoryEnd,
    cde_start_pos: u64,
    sh: Shared,
    count: usize,
) -> bool {
    ||| {
        &&& count == footer.number_of_files_on_this_disk
        &&& footer.central_directory_size + footer.central_directory_offset <= cde_start_pos
        &&& sh.offset == cde_start_pos - footer.central_directory_size
            - footer.central_directory_offset
        &&& sh.dir_start == cde_start_pos - footer.central_directory_size
        &&& footer.disk_number == footer.disk_with_central_directory
    }
    ||| exists|p: int, cde: Zip64CentralDirectoryEnd|
        {
            &&& z64_cde_ok(s, p)
            &&& #[trigger] cde.decodes_record_at(s, p)
            &&& count == cde.number_of_files as usize
            &&& sh.dir_start == cde.central_directory_offset + sh.offset
            &&& cde.number_of_files_on_this_disk <= cde.number_of_files
            &&& cde.version_needed_to_extract <= cde.version_made_by
            &&& cde.disk_number == cde.disk_with_central_directory
            &&& (footer.central_directory_size + footer.central_directory_offset <= cde_start_pos
                ==> {
                &&& (cde.number_of_files as usize == footer.number_of_files_on_this_disk as usize
                    || footer.number_of_files_on_this_disk == 0xFFFF)
                &&& (cde.disk_number == footer.disk_number as u32 || footer.disk_number == 0xFFFF)
                &&& (cde.disk_with_central_directory == footer.disk_with_central_directory as u32
                    || footer.disk_with_central_directory == 0xFFFF)
            })
        }
}

/// Whether the ZIP32 view of this footer is clean: its arithmetic checks
/// out, a directory run of the declared length parses where it points, and
/// it names a single disk.
pub open spec fn zip32_footer_clean(
    s: Seq<u8>,
    footer: Zip32CentralDirectoryEnd,
    cde_start_pos: u64,
) -> bool {
    &&& footer.central_directory_size + footer.central_directory_offset <= cde_start_pos
    &&& cd_chain_ok(
        s,
        cde_start_pos - footer.central_directory_size,
        footer.number_of_files_on_this_disk as int,
        (cde_start_pos - footer.central_directory_size - footer.central_directory_offset) as u64,
    )
    &&& footer.disk_number == footer.disk_with_central_directory
}

/// Whether the ZIP64 view of this footer is clean: a locator sits in its
/// place pointing at a search region with at least one whole ZIP64 record,
/// and every record the region holds passes the reconciler's checks,
/// agrees with the ZIP32 view's non-sentinel fields, names a single disk,
/// and points at a directory run that parses.
#[verifier::opaque]
pub open spec fn zip64_footer_clean(
    s: Seq<u8>,
    footer: Zip32CentralDirectoryEnd,
    cde_start_pos: u64,
) -> bool {
    let clen = footer.zip_file_comment@.len() as int;
    let nominal = z64_nominal(s, clen);
    let upper = cde_start_pos - 60;
    &&& z64_locator_found(s, clen)
    &&& cde_start_pos >= 60
    &&& nominal <= cde_start_pos - 60 <= s.len()
    &&& exists|j: int| #[trigger] crate::blocks::z64_sig_in_region(s, nominal as int, upper, j)
    &&& forall|j: int|
        #[trigger] crate::blocks::z64_sig_in_region(s, nominal as int, upper, j) ==> j + 56
            <= s.len()
    &&& forall|p: int, cde: Zip64CentralDirectoryEnd|
        z64_cde_ok(s, p) && #[trigger] cde.decodes_record_at(s, p) && nominal <= p && p + 4
            <= upper ==> {
            &&& cde.central_directory_offset + (p - nominal) <= upper
            &&& cde.number_of_files_on_this_disk <= cde.number_of_files
            &&& cde.version_needed_to_extract <= cde.version_made_by
            &&& cde.number_of_files <= usize::MAX
            &&& cde.disk_number == cde.disk_with_central_directory
            &&& (footer.central_directory_size + footer.central_directory_offset <= cde_start_pos
                ==> {
                &&& (cde.number_of_files as usize == footer.number_of_files_on_this_disk as usize
                    || footer.number_of_files_on_this_disk == 0xFFFF)
                &&& (cde.disk_number == footer.disk_number as u32 || footer.disk_number == 0xFFFF)
                &&& (cde.disk_with_central_directory == footer.disk_with_central_directory as u32
                    || footer.disk_with_central_directory == 0xFFFF)
            })
            &&& cd_chain_ok(
                s,
                cde.central_directory_offset + (p - nominal),
                cde.number_of_files as int,
                (p - nominal) as u64,
            )
        }
}

/// Whether `sh` is a valid reading of the archive bytes against this
/// footer: parsed faithfully, with its entry count declared by a footer
/// view.
#[verifier::opaque]
pub open spec fn shared_ok(
    s: Seq<u8>,
    footer: Zip32CentralDirectoryEnd,
    cde_start_pos: u64,
    sh: Shared,
) -> bool {
    exists|count: usize|
        #[trigger] shared_parse_ok(s, sh, count) && count_from_footer(
            s,
            footer,
            cde_start_pos,
            sh,
            count,
        )
}

/// Under a clean ZIP64 view, an in-region candidate points at a directory
/// run that parses and names a single disk.
proof fn lemma_zip64_clean_candidate_works(
    s: Seq<u8>,
    footer: Zip32CentralDirectoryEnd,
    cde_start_pos: u64,
    info: CentralDirectoryInfo,
)
    requires
        zip64_footer_clean(s, footer, cde_start_pos),
        z64_info_in_region(s, footer.zip_file_comment@.len() as int, cde_start_pos, info),
    ensures
        cd_chain_ok(
            s,
            info.directory_start as int,
            info.number_of_files as int,
            info.archive_offset,
        ),
        info.disk_number == info.disk_with_central_directory,
{
    reveal(zip64_footer_clean);
    let clen = footer.zip_file_comment@.len() as int;
    let nominal = z64_nominal(s, clen);
    let (p, cde) = choose|p: int, cde: Zip64CentralDirectoryEnd|
        {
            &&& z64_cde_ok(s, p)
            &&& #[trigger] cde.decodes_record_at(s, p)
            &&& z64_nominal(s, clen) <= p
            &&& p + 4 <= cde_start_pos - 60
            &&& p == z64_nominal(s, clen) + info.archive_offset
            &&& info.number_of_files == cde.number_of_files as usize
            &&& info.disk_number == cde.disk_number
            &&& info.disk_with_central_directory == cde.disk_with_central_directory
            &&& info.directory_start == cde.central_directory_offset + info.archive_offset
        };
    assert(cde.decodes_record_at(s, p));
    assert(cde.number_of_files <= usize::MAX);
    assert(cd_chain_ok(
        s,
        cde.central_directory_offset + (p - nominal),
        cde.number_of_files as int,
        (p - nominal) as u64,
    ));
    assert(info.archive_offset == p - nominal);
    assert(info.number_of_files as int == cde.number_of_files as int);
    assert(cde.disk_number == cde.disk_with_central_directory);
}

/// Under a clean ZIP64 view, an in-region candidate agrees with the ZIP32
/// view's non-sentinel count and disk fields.
proof fn lemma_zip64_clean_no_mismatch(
    s: Seq<u8>,
    footer: Zip32CentralDirectoryEnd,
    cde_start_pos: u64,
    dir: CentralDirectoryInfo,
)
    requires
        zip64_footer_clean(s, footer, cde_start_pos),
        z64_info_in_region(s, footer.zip_file_comment@.len() as int, cde_start_pos, dir),
        footer.central_directory_size + footer.central_directory_offset <= cde_start_pos,
    ensures
        dir.number_of_files == footer.number_of_files_on_this_disk as usize
            || footer.number_of_files_on_this_disk == 0xFFFF,
        dir.disk_number == footer.disk_number as u32 || footer.disk_number == 0xFFFF,
        dir.disk_with_central_directory == footer.disk_with_central_directory as u32
            || footer.disk_with_central_directory == 0xFFFF,
{
    reveal(zip64_footer_clean);
    let clen = footer.zip_file_comment@.len() as int;
    let (p, cde) = choose|p: int, cde: Zip64CentralDirectoryEnd|
        {
            &&& z64_cde_ok(s, p)
            &&& #[trigger] cde.decodes_record_at(s, p)
            &&& z64_nominal(s, clen) <= p
            &&& p + 4 <= cde_start_pos - 60
            &&& p == z64_nominal(s, clen) + dir.archive_offset
            &&& dir.number_of_files == cde.number_of_files as usize
            &&& dir.disk_number == cde.disk_number
            &&& dir.disk_with_central_directory == cde.disk_with_central_directory
            &&& dir.directory_start == cde.central_directory_offset + dir.archive_offset
        };
    assert(cde.decodes_record_at(s, p));
}

/// A clean ZIP64 view leaves no candidate for the reconciler to reject.
proof fn lemma_zip64_clean_no_rejection(
    s: Seq<u8>,
    footer: Zip32CentralDirectoryEnd,
    cde_start_pos: u64,
)
    requires
        zip64_footer_clean(s, footer, cde_start_pos),
    ensures
        !z64_some_candidate_rejected(
            s,
            z64_nominal(s, footer.zip_file_comment@.len() as int),
            cde_start_pos,
        ),
{
    reveal(zip64_footer_clean);
    let clen = footer.zip_file_comment@.len() as int;
    let nominal = z64_nominal(s, clen);
    if !z64_some_candidate_rejected(s, nominal, cde_start_pos) {
        return ;
    }
    let (p, cde) = choose|p: int, cde: Zip64CentralDirectoryEnd|
        {
            &&& z64_cde_ok(s, p)
            &&& #[trigger] cde.decodes_record_at(s, p)
            &&& nominal <= p
            &&& p + 4 <= cde_start_pos - 60
            &&& {
                ||| cde.central_directory_offset + (p - nominal) > u64::MAX
                ||| cde.central_directory_offset + (p - nominal) > cde_start_pos - 60
                ||| cde.number_of_files_on_this_disk > cde.number_of_files
                ||| cde.version_needed_to_extract > cde.version_made_by
            }
        };
    assert(cde.decodes_record_at(s, p));
    assert(cde.central_directory_offset + (p - nominal) <= cde_start_pos - 60);
}

/// A clean ZIP64 view is exactly the case in which the locator and the
/// region search succeed.
proof fn lemma_zip64_clean_search(
    s: Seq<u8>,
    footer: Zip32CentralDirectoryEnd,
    cde_start_pos: u64,
)
    requires
        zip64_footer_clean(s, footer, cde_start_pos),
    ensures
        ({
            let clen = footer.zip_file_comment@.len() as int;
            &&& z64_locator_found(s, clen)
            &&& cde_start_pos >= 60
            &&& z64_nominal(s, clen) <= cde_start_pos - 60 <= s.len()
            &&& exists|j: int|
                #[trigger] crate::blocks::z64_sig_in_region(
                    s,
                    z64_nominal(s, clen) as int,
                    (cde_start_pos - 60) as int,
                    j,
                )
            &&& forall|j: int|
                #[trigger] crate::blocks::z64_sig_in_region(
                    s,
                    z64_nominal(s, clen) as int,
                    (cde_start_pos - 60) as int,
                    j,
                ) ==> j + 56 <= s.len()
        }),
{
    reveal(zip64_footer_clean);
}

/// Whether the ZIP64 record at `p` is a fully valid reading of this
/// archive: the locator and search region are sound, the record passes the
/// reconciler's sanity checks, agrees with the ZIP32 view's non-sentinel
/// fields, names a single disk, and points at a directory run that parses.
/// Such a reading always reaches the candidate table, so the winning
/// reading's directory start is at least this one's.
#[verifier::opaque]
pub open spec fn z64_candidate_gate(
    s: Seq<u8>,
    footer: Zip32CentralDirectoryEnd,
    cde_start_pos: u64,
    p: int,
    cde: Zip64CentralDirectoryEnd,
) -> bool {
    let clen = footer.zip_file_comment@.len() as int;
    let nominal = z64_nominal(s, clen);
    let upper = cde_start_pos - 60;
    &&& z64_locator_found(s, clen)
    &&& cde_start_pos >= 60
    &&& nominal <= cde_start_pos - 60 <= s.len()
    &&& (exists|j: int|
        #[trigger] crate::blocks::z64_sig_in_region(s, nominal as int, upper, j))
    &&& (forall|j: int|
        #[trigger] crate::blocks::z64_sig_in_region(s, nominal as int, upper, j) ==> j + 56
            <= s.len())
    &&& z64_cde_ok(s, p)
    &&& cde.decodes_record_at(s, p)
    &&& nominal <= p
    &&& p + 4 <= upper
    &&& cde.central_directory_offset + (p - nominal) <= upper
    &&& cde.number_of_files_on_this_disk <= cde.number_of_files
    &&& cde.version_needed_to_extract <= cde.version_made_by
    &&& cde.number_of_files <= usize::MAX
    &&& cde.disk_number == cde.disk_with_central_directory
    &&& (footer.central_directory_size + footer.central_directory_offset <= cde_start_pos ==> {
        &&& (cde.number_of_files as usize == footer.number_of_files_on_this_disk as usize
            || footer.number_of_files_on_this_disk == 0xFFFF)
        &&& (cde.disk_number == footer.disk_number as u32 || footer.disk_number == 0xFFFF)
        &&& (cde.disk_with_central_directory == footer.disk_with_central_directory as u32
            || footer.disk_with_central_directory == 0xFFFF)
    })
    &&& cd_chain_ok(
        s,
        cde.central_directory_offset + (p - nominal),
        cde.number_of_files as int,
        (p - nominal) as u64,
    )
}

/// Whether a candidate for the record at `p` still waits in the list.
#[verifier::opaque]
pub open spec fn z64_gate_pending(
    s: Seq<u8>,
    footer: Zip32CentralDirectoryEnd,
    p: int,
    cde: Zip64CentralDirectoryEnd,
    cands: Seq<ZipResult<CentralDirectoryInfo>>,
) -> bool {
    let nominal = z64_nominal(s, footer.zip_file_comment@.len() as int);
    exists|k: int|
        {
            &&& 0 <= k < cands.len()
            &&& (#[trigger] cands[k]) matches Ok(info) && {
                &&& info.archive_offset == p - nominal
                &&& info.directory_start == cde.central_directory_offset + (p - nominal)
                &&& info.number_of_files == cde.number_of_files as usize
                &&& info.disk_number == cde.disk_number
                &&& info.disk_with_central_directory == cde.disk_with_central_directory
            }
        }
}

/// Whether a reading of the record at `p` has already been parsed and
/// collected.
#[verifier::opaque]
pub open spec fn z64_gate_banked(
    s: Seq<u8>,
    footer: Zip32CentralDirectoryEnd,
    p: int,
    cde: Zip64CentralDirectoryEnd,
    oks: Seq<Shared>,
) -> bool {
    let nominal = z64_nominal(s, footer.zip_file_comment@.len() as int);
    exists|j: int|
        0 <= j < oks.len() && (#[trigger] oks[j]).dir_start == cde.central_directory_offset + (p
            - nominal)
}

/// A gated reading's candidate parses its directory run on a single disk.
proof fn lemma_z64_gate_works(
    s: Seq<u8>,
    footer: Zip32CentralDirectoryEnd,
    cde_start_pos: u64,
    p: int,
    cde: Zip64CentralDirectoryEnd,
    info: CentralDirectoryInfo,
)
    requires
        z64_candidate_gate(s, footer, cde_start_pos, p, cde),
        info.archive_offset == p - z64_nominal(s, footer.zip_file_comment@.len() as int),
        info.directory_start == cde.central_directory_offset + info.archive_offset,
        info.number_of_files == cde.number_of_files as usize,
        info.disk_number == cde.disk_number,
        info.disk_with_central_directory == cde.disk_with_central_directory,
    ensures
        cd_chain_ok(
            s,
            info.directory_start as int,
            info.number_of_files as int,
            info.archive_offset,
        ),
        info.disk_number == info.disk_with_central_directory,
        (footer.central_directory_size + footer.central_directory_offset <= cde_start_pos ==> {
            &&& (info.number_of_files == footer.number_of_files_on_this_disk as usize
                || footer.number_of_files_on_this_disk == 0xFFFF)
            &&& (info.disk_number == footer.disk_number as u32 || footer.disk_number == 0xFFFF)
            &&& (info.disk_with_central_directory == footer.disk_with_central_directory as u32
                || footer.disk_with_central_directory == 0xFFFF)
        }),
{
    reveal(z64_candidate_gate);
    assert(cde.number_of_files <= usize::MAX);
    assert(info.number_of_files as int == cde.number_of_files as int);
}

/// Try one candidate reading: parse its directory and reject multi-disk
/// archives.
fn try_candidate(data: &[u8], info: &CentralDirectoryInfo) -> (r: ZipResult<Shared>)
    ensures
        r matches Ok(sh) ==> {
            &&& shared_parse_ok(data@, sh, info.number_of_files)
            &&& sh.offset == info.archive_offset
            &&& sh.dir_start == info.directory_start
        },
        (r is Ok <==> cd_chain_ok(
            data@,
            info.directory_start as int,
            info.number_of_files as int,
            info.archive_offset,
        ) && info.disk_number == info.disk_with_central_directory),
        (r matches Err(e) ==> (cd_chain_ok(
            data@,
            info.directory_start as int,
            info.number_of_files as int,
            info.archive_offset,
        ) ==> e is UnsupportedArchive)),
        (r matches Err(e) ==> (e is Io || e is InvalidArchive || e is UnsupportedArchive)),
{
    let files = match parse_directory(
        data,
        info.directory_start,
        info.number_of_files,
        info.archive_offset,
    ) {
        Ok(f) => f,
        Err(e) => {
            return Err(e);
        },
    };
    if info.disk_number != info.disk_with_central_directory {
        return unsupported_zip_error("Support for multi-disk files is not implemented");
    }
    Ok(Shared { files, offset: info.archive_offset, dir_start: info.directory_start })
}

/// Reconcile the ZIP32 footer with any ZIP64 readings, parse the central
/// directory at each surviving candidate, and keep the reading whose
/// directory starts latest in the bytes (the file's own recorded directory
/// wins over a coincidental match inside a comment). When nothing parses,
/// an unsupported-feature error is preferred over an invalid-structure
/// one.
#[verifier::rlimit(100)]
pub fn get_metadata(data: &[u8], footer: &Zip32CentralDirectoryEnd, cde_start_pos: u64) -> (r:
    ZipResult<Shared>)
    ensures
        r matches Ok(sh) ==> shared_ok(data@, *footer, cde_start_pos, sh),
        (zip32_footer_clean(data@, *footer, cde_start_pos) ==> r is Ok),
        (zip64_footer_clean(data@, *footer, cde_start_pos) ==> r is Ok),
        (r matches Ok(sh) ==> (zip32_footer_clean(data@, *footer, cde_start_pos) ==> sh.dir_start
            >= cde_start_pos - footer.central_directory_size)),
        (r matches Ok(sh) ==> forall|p: int, cde: Zip64CentralDirectoryEnd|
            #[trigger] z64_candidate_gate(data@, *footer, cde_start_pos, p, cde) ==> sh.dir_start
                >= cde.central_directory_offset + (p - z64_nominal(
                data@,
                footer.zip_file_comment@.len() as int,
            ))),
        (({
            &&& footer.central_directory_size + footer.central_directory_offset <= cde_start_pos
            &&& cd_chain_ok(
                data@,
                cde_start_pos - footer.central_directory_size,
                footer.number_of_files_on_this_disk as int,
                (cde_start_pos - footer.central_directory_size
                    - footer.central_directory_offset) as u64,
            )
            &&& footer.disk_number != footer.disk_with_central_directory
        }) ==> (r is Ok || (r matches Err(e) && e is UnsupportedArchive))),
        (r matches Err(e) ==> (e is Io || e is InvalidArchive || e is UnsupportedArchive)),
{
    let mut candidates: Vec<ZipResult<CentralDirectoryInfo>> = match get_directory_info_zip64(
        data,
        footer,
        cde_start_pos,
    ) {
        Ok(v) => {
            proof {
                let clen = footer.zip_file_comment@.len() as int;
                let nominal = z64_nominal(data@, clen);
                assert forall|p: int, cde: Zip64CentralDirectoryEnd|
                    #[trigger] z64_candidate_gate(data@, *footer, cde_start_pos, p, cde) implies
                    z64_gate_pending(data@, *footer, p, cde, v@) by {
                    reveal(z64_candidate_gate);
                    reveal(z64_gate_pending);
                    let upper = (cde_start_pos - 60) as int;
                    let cands = choose|cands: Seq<(Zip64CentralDirectoryEnd, u64)>|
                        {
                            &&& #[trigger] crate::blocks::z64_candidates_ok(
                                data@,
                                nominal as int,
                                upper,
                                cands,
                            )
                            &&& v@.len() == cands.len()
                            &&& forall|k: int|
                                0 <= k < v@.len() ==> #[trigger] z64_element_matches(
                                    (cde_start_pos - 60) as u64,
                                    cands[k],
                                    v@[k],
                                )
                        };
                    assert(crate::blocks::z64_sig_in_region(data@, nominal as int, upper, p));
                    let k = choose|k: int| 0 <= k < cands.len() && nominal + cands[k].1 == p;
                    assert(z64_cde_ok(data@, nominal + cands[k].1));
                    assert(cands[k].0.decodes_record_at(data@, nominal + cands[k].1));
                    assert(cands[k].0.central_directory_offset == cde.central_directory_offset);
                    assert(cands[k].0.number_of_files == cde.number_of_files);
                    assert(cands[k].0.number_of_files_on_this_disk
                        == cde.number_of_files_on_this_disk);
                    assert(cands[k].0.version_needed_to_extract
                        == cde.version_needed_to_extract);
                    assert(cands[k].0.version_made_by == cde.version_made_by);
                    assert(cands[k].0.disk_number == cde.disk_number);
                    assert(cands[k].0.disk_with_central_directory
                        == cde.disk_with_central_directory);
                    assert(z64_element_matches((cde_start_pos - 60) as u64, cands[k], v@[k]));
                    assert(cands[k].1 == p - nominal);
                    assert(v@[k] matches Ok(info) && {
                        &&& info.archive_offset == p - nominal
                        &&& info.directory_start == cde.central_directory_offset + (p - nominal)
                        &&& info.number_of_files == cde.number_of_files as usize
                        &&& info.disk_number == cde.disk_number
                        &&& info.disk_with_central_directory == cde.disk_with_central_directory
                    });
                }
            }
            v
        },
        Err(e) => {
            proof {
                assert forall|p: int, cde: Zip64CentralDirectoryEnd|
                    !z64_candidate_gate(data@, *footer, cde_start_pos, p, cde) by {
                    if z64_candidate_gate(data@, *footer, cde_start_pos, p, cde) {
                        reveal(z64_candidate_gate);
                        assert(crate::blocks::z64_sig_in_region(
                            data@,
                            z64_nominal(data@, footer.zip_file_comment@.len() as int) as int,
                            (cde_start_pos - 60) as int,
                            p,
                        ));
                        assert(false);
                    }
                }
            }
            let mut v: Vec<ZipResult<CentralDirectoryInfo>> = Vec::new();
            v.push(Err(e));
            v
        },
    };
    let ghost n0 = candidates@.len();
    let zip32_result = get_directory_info_zip32(footer, cde_start_pos);
    proof {
        if zip64_footer_clean(data@, *footer, cde_start_pos) {
            lemma_zip64_clean_search(data@, *footer, cde_start_pos);
        }
        assert(forall|k: int|
            #![trigger candidates@[k]]
            0 <= k < candidates@.len() ==> (candidates@[k] matches Ok(info) ==> z64_info_sound(
                data@,
                info,
            )));
    }
    // Cross-check each ZIP64 reading against the ZIP32 view (counts and
    // disk numbers must agree unless the 16-bit field is its sentinel),
    // then try the readings in order, collecting what parses and
    // remembering the first error of each kind.
    let (z32_ok, z32_files, z32_disk, z32_dwcd) = match &zip32_result {
        Ok(d) => (true, d.number_of_files, d.disk_number, d.disk_with_central_directory),
        Err(_) => (false, 0usize, 0u32, 0u32),
    };
    let mut first_unsupported: Option<ZipError> = None;
    let mut first_invalid: Option<ZipError> = None;
    let mut ok_results: Vec<Shared> = Vec::new();
    loop
        invariant
            candidates@.len() <= n0,
            z32_ok == (footer.central_directory_size + footer.central_directory_offset
                <= cde_start_pos),
            (z32_ok ==> z32_files == footer.number_of_files_on_this_disk as usize && z32_disk
                == footer.disk_number as u32 && z32_dwcd == footer.disk_with_central_directory
                as u32),
            (first_unsupported matches Some(e) ==> e is UnsupportedArchive),
            (first_invalid matches Some(e) ==> (e is Io || e is InvalidArchive)),
            forall|k: int|
                #![trigger candidates@[k]]
                0 <= k < candidates@.len() ==> (candidates@[k] matches Err(e) ==> (e is Io
                    || e is InvalidArchive)),
            (zip64_footer_clean(data@, *footer, cde_start_pos) ==> n0 >= 1),
            (zip64_footer_clean(data@, *footer, cde_start_pos) ==> candidates@.len() < n0
                ==> ok_results@.len() >= 1),
            (zip64_footer_clean(data@, *footer, cde_start_pos) ==> forall|k: int|
                #![trigger candidates@[k]]
                0 <= k < candidates@.len() ==> (candidates@[k] is Err
                    ==> z64_some_candidate_rejected(
                    data@,
                    z64_nominal(data@, footer.zip_file_comment@.len() as int),
                    cde_start_pos,
                ))),
            (zip64_footer_clean(data@, *footer, cde_start_pos) ==> forall|k: int|
                #![trigger candidates@[k]]
                0 <= k < candidates@.len() ==> (candidates@[k] matches Ok(info)
                    ==> z64_info_in_region(
                    data@,
                    footer.zip_file_comment@.len() as int,
                    cde_start_pos,
                    info,
                ))),
            forall|k: int|
                #![trigger candidates@[k]]
                0 <= k < candidates@.len() ==> (candidates@[k] matches Ok(info)
                    ==> z64_info_sound(data@, info)),
            forall|k: int|
                #![trigger ok_results@[k]]
                0 <= k < ok_results@.len() ==> shared_ok(
                    data@,
                    *footer,
                    cde_start_pos,
                    ok_results@[k],
                ),
            forall|p: int, cde: Zip64CentralDirectoryEnd|
                #[trigger] z64_candidate_gate(data@, *footer, cde_start_pos, p, cde)
                    ==> z64_gate_pending(data@, *footer, p, cde, candidates@)
                    || z64_gate_banked(data@, *footer, p, cde, ok_results@),
        ensures
            (zip64_footer_clean(data@, *footer, cde_start_pos) ==> ok_results@.len() >= 1),
            forall|p: int, cde: Zip64CentralDirectoryEnd|
                #[trigger] z64_candidate_gate(data@, *footer, cde_start_pos, p, cde)
                    ==> z64_gate_banked(data@, *footer, p, cde, ok_results@),
            z32_ok == (footer.central_directory_size + footer.central_directory_offset
                <= cde_start_pos),
            (z32_ok ==> z32_files == footer.number_of_files_on_this_disk as usize && z32_disk
                == footer.disk_number as u32 && z32_dwcd == footer.disk_with_central_directory
                as u32),
            (first_unsupported matches Some(e) ==> e is UnsupportedArchive),
            (first_invalid matches Some(e) ==> (e is Io || e is InvalidArchive)),
            forall|k: int|
                #![trigger ok_results@[k]]
                0 <= k < ok_results@.len() ==> shared_ok(
                    data@,
                    *footer,
                    cde_start_pos,
                    ok_results@[k],
                ),
        decreases candidates@.len(),
    {
        if candidates.len() == 0 {
            proof {
                assert forall|p: int, cde: Zip64CentralDirectoryEnd|
                    #[trigger] z64_candidate_gate(data@, *footer, cde_start_pos, p, cde) implies
                    z64_gate_banked(data@, *footer, p, cde, ok_results@) by {
                    reveal(z64_gate_pending);
                    assert(!z64_gate_pending(data@, *footer, p, cde, candidates@));
                }
            }
            break ;
        }
        let ghost prev = candidates@;
        let ghost oks_at_entry = ok_results@;
        let cand = candidates.remove(0);
        proof {
            assert forall|k: int|
                #![trigger candidates@[k]]
                0 <= k < candidates@.len() implies ((candidates@[k] matches Ok(info)
                ==> z64_info_sound(data@, info)) && (candidates@[k] matches Err(e) ==> (e is Io
                || e is InvalidArchive))) by {
                assert(candidates@[k] == prev[k + 1]);
            }
            if zip64_footer_clean(data@, *footer, cde_start_pos) {
                assert forall|k: int|
                    #![trigger candidates@[k]]
                    0 <= k < candidates@.len() implies ((candidates@[k] is Err
                    ==> z64_some_candidate_rejected(
                    data@,
                    z64_nominal(data@, footer.zip_file_comment@.len() as int),
                    cde_start_pos,
                )) && (candidates@[k] matches Ok(info) ==> z64_info_in_region(
                    data@,
                    footer.zip_file_comment@.len() as int,
                    cde_start_pos,
                    info,
                ))) by {
                    assert(candidates@[k] == prev[k + 1]);
                }
            }
        }
        let cand = if z32_ok {
            match cand {
                Ok(dir) => {
                    if dir.number_of_files != z32_files && z32_files != 0xFFFF {
                        Err(ZipError::InvalidArchive("ZIP32 and ZIP64 file counts don't match"))
                    } else if dir.disk_number != z32_disk && z32_disk != 0xFFFF {
                        Err(ZipError::InvalidArchive("ZIP32 and ZIP64 disk numbers don't match"))
                    } else if dir.disk_with_central_directory != z32_dwcd && z32_dwcd != 0xFFFF {
                        Err(
                            ZipError::InvalidArchive(
                                "ZIP32 and ZIP64 last-disk numbers don't match",
                            ),
                        )
                    } else {
                        Ok(dir)
                    }
                },
                Err(e) => Err(e),
            }
        } else {
            cand
        };
        match cand {
            Ok(info) => {
                proof {
                    assert(prev[0] matches Ok(i0) && i0 == info);
                    assert(z64_info_sound(data@, info));
                }
                match try_candidate(data, &info) {
                    Ok(sh) => {
                        proof {
                            let (p, cde) = choose|p: int, cde: Zip64CentralDirectoryEnd|
                                {
                                    &&& z64_cde_ok(data@, p)
                                    &&& #[trigger] cde.decodes_record_at(data@, p)
                                    &&& info.number_of_files == cde.number_of_files as usize
                                    &&& info.disk_number == cde.disk_number
                                    &&& info.disk_with_central_directory
                                        == cde.disk_with_central_directory
                                    &&& info.directory_start == cde.central_directory_offset
                                        + info.archive_offset
                                    &&& cde.number_of_files_on_this_disk <= cde.number_of_files
                                    &&& cde.version_needed_to_extract <= cde.version_made_by
                                };
                            assert(sh.dir_start == cde.central_directory_offset + sh.offset);
                            assert(cde.disk_number == cde.disk_with_central_directory);
                            if footer.central_directory_size + footer.central_directory_offset
                                <= cde_start_pos {
                                assert(z32_ok);
                                assert(cde.number_of_files as usize
                                    == footer.number_of_files_on_this_disk as usize
                                    || footer.number_of_files_on_this_disk == 0xFFFF);
                                assert(cde.disk_number == footer.disk_number as u32
                                    || footer.disk_number == 0xFFFF);
                                assert(cde.disk_with_central_directory
                                    == footer.disk_with_central_directory as u32
                                    || footer.disk_with_central_directory == 0xFFFF);
                            }
                            assert(count_from_footer(
                                data@,
                                *footer,
                                cde_start_pos,
                                sh,
                                info.number_of_files,
                            ));
                            assert(shared_ok(data@, *footer, cde_start_pos, sh)) by {
                                reveal(shared_ok);
                            }
                        }
                        ok_results.push(sh);
                        proof {
                            assert forall|p: int, cde: Zip64CentralDirectoryEnd|
                                #[trigger] z64_candidate_gate(
                                data@,
                                *footer,
                                cde_start_pos,
                                p,
                                cde,
                            ) implies z64_gate_pending(data@, *footer, p, cde, candidates@)
                                || z64_gate_banked(data@, *footer, p, cde, ok_results@) by {
                                reveal(z64_gate_pending);
                                reveal(z64_gate_banked);
                                let nominal = z64_nominal(
                                    data@,
                                    footer.zip_file_comment@.len() as int,
                                );
                                if z64_gate_banked(data@, *footer, p, cde, oks_at_entry) {
                                    let j = choose|j: int|
                                        0 <= j < oks_at_entry.len() && (#[trigger] oks_at_entry[
                                            j
                                        ]).dir_start == cde.central_directory_offset + (p
                                            - nominal);
                                    assert(ok_results@[j] == oks_at_entry[j]);
                                } else {
                                    let k = choose|k: int|
                                        {
                                            &&& 0 <= k < prev.len()
                                            &&& (#[trigger] prev[k]) matches Ok(i0) && {
                                            &&& i0.archive_offset == p - nominal
                                            &&& i0.directory_start
                                                == cde.central_directory_offset + (p - nominal)
                                            &&& i0.number_of_files == cde.number_of_files
                                                as usize
                                            &&& i0.disk_number == cde.disk_number
                                            &&& i0.disk_with_central_directory
                                                == cde.disk_with_central_directory
                                            }
                                        };
                                    if k > 0 {
                                        assert(candidates@[k - 1] == prev[k]);
                                    } else {
                                        assert(prev[0] matches Ok(i0) && i0 == info);
                                        assert(sh.dir_start == cde.central_directory_offset + (
                                        p - nominal));
                                        assert(ok_results@[ok_results@.len() - 1] == sh);
                                    }
                                }
                            }
                        }
                    },
                    Err(e) => {
                        proof {
                            if zip64_footer_clean(data@, *footer, cde_start_pos) && prev.len()
                                == n0 {
                                lemma_zip64_clean_candidate_works(
                                    data@,
                                    *footer,
                                    cde_start_pos,
                                    info,
                                );
                                assert(false);
                            }
                            assert forall|p: int, cde: Zip64CentralDirectoryEnd|
                                #[trigger] z64_candidate_gate(
                                data@,
                                *footer,
                                cde_start_pos,
                                p,
                                cde,
                            ) implies z64_gate_pending(data@, *footer, p, cde, candidates@)
                                || z64_gate_banked(data@, *footer, p, cde, ok_results@) by {
                                reveal(z64_gate_pending);
                                reveal(z64_gate_banked);
                                let nominal = z64_nominal(
                                    data@,
                                    footer.zip_file_comment@.len() as int,
                                );
                                if !z64_gate_banked(data@, *footer, p, cde, oks_at_entry) {
                                    let k = choose|k: int|
                                        {
                                            &&& 0 <= k < prev.len()
                                            &&& (#[trigger] prev[k]) matches Ok(i0) && {
                                            &&& i0.archive_offset == p - nominal
                                            &&& i0.directory_start
                                                == cde.central_directory_offset + (p - nominal)
                                            &&& i0.number_of_files == cde.number_of_files
                                                as usize
                                            &&& i0.disk_number == cde.disk_number
                                            &&& i0.disk_with_central_directory
                                                == cde.disk_with_central_directory
                                            }
                                        };
                                    if k > 0 {
                                        assert(candidates@[k - 1] == prev[k]);
                                    } else {
                                        assert(prev[0] matches Ok(i0) && i0 == info);
                                        lemma_z64_gate_works(
                                            data@,
                                            *footer,
                                            cde_start_pos,
                                            p,
                                            cde,
                                            info,
                                        );
                                        assert(false);
                                    }
                                }
                            }
                        }
                        match e {
                            ZipError::UnsupportedArchive(d) => {
                                if first_unsupported.is_none() {
                                    first_unsupported = Some(ZipError::UnsupportedArchive(d));
                                }
                            },
                            _ => {
                                if first_invalid.is_none() {
                                    first_invalid = Some(e);
                                }
                            },
                        }
                    },
                }
            },
            Err(e) => {
                proof {
                    if zip64_footer_clean(data@, *footer, cde_start_pos) && prev.len() == n0 {
                        match prev[0] {
                            Ok(dir) => {
                                lemma_zip64_clean_no_mismatch(
                                    data@,
                                    *footer,
                                    cde_start_pos,
                                    dir,
                                );
                                assert(false);
                            },
                            Err(_) => {
                                assert(z64_some_candidate_rejected(
                                    data@,
                                    z64_nominal(data@, footer.zip_file_comment@.len() as int),
                                    cde_start_pos,
                                ));
                                lemma_zip64_clean_no_rejection(data@, *footer, cde_start_pos);
                                assert(false);
                            },
                        }
                    }
                    assert forall|p: int, cde: Zip64CentralDirectoryEnd|
                        #[trigger] z64_candidate_gate(data@, *footer, cde_start_pos, p, cde)
                        implies z64_gate_pending(data@, *footer, p, cde, candidates@)
                        || z64_gate_banked(data@, *footer, p, cde, ok_results@) by {
                        reveal(z64_gate_pending);
                        reveal(z64_gate_banked);
                        let nominal = z64_nominal(data@, footer.zip_file_comment@.len() as int);
                        if !z64_gate_banked(data@, *footer, p, cde, oks_at_entry) {
                            let k = choose|k: int|
                                {
                                    &&& 0 <= k < prev.len()
                                    &&& (#[trigger] prev[k]) matches Ok(i0) && {
                                    &&& i0.archive_offset == p - nominal
                                    &&& i0.directory_start == cde.central_directory_offset + (p
                                        - nominal)
                                    &&& i0.number_of_files == cde.number_of_files as usize
                                    &&& i0.disk_number == cde.disk_number
                                    &&& i0.disk_with_central_directory
                                        == cde.disk_with_central_directory
                                    }
                                };
                            if k > 0 {
                                assert(candidates@[k - 1] == prev[k]);
                            } else {
                                match prev[0] {
                                    Ok(dir) => {
                                        lemma_z64_gate_works(
                                            data@,
                                            *footer,
                                            cde_start_pos,
                                            p,
                                            cde,
                                            dir,
                                        );
                                        assert(false);
                                    },
                                    Err(_) => {
                                        assert(false);
                                    },
                                }
                            }
                        }
                    }
                }
                match e {
                    ZipError::UnsupportedArchive(d) => {
                        if first_unsupported.is_none() {
                            first_unsupported = Some(ZipError::UnsupportedArchive(d));
                        }
                    },
                    _ => {
                        if first_invalid.is_none() {
                            first_invalid = Some(e);
                        }
                    },
                }
            },
        }
    }
    let ghost oks_exit = ok_results@;
    // The ZIP32 view is the final candidate.
    match zip32_result {
        Ok(info) => {
            match try_candidate(data, &info) {
                Ok(sh) => {
                    proof {
                        assert(count_from_footer(
                            data@,
                            *footer,
                            cde_start_pos,
                            sh,
                            info.number_of_files,
                        ));
                        assert(shared_ok(data@, *footer, cde_start_pos, sh)) by {
                            reveal(shared_ok);
                        }
                    }
                    ok_results.push(sh);
                },
                Err(e) => {
                    match e {
                        ZipError::UnsupportedArchive(_) => {
                            if first_unsupported.is_none() {
                                first_unsupported = Some(e);
                            }
                        },
                        _ => {
                            if first_invalid.is_none() {
                                first_invalid = Some(e);
                            }
                        },
                    }
                },
            }
        },
        Err(e) => {
            match e {
                ZipError::UnsupportedArchive(_) => {
                    if first_unsupported.is_none() {
                        first_unsupported = Some(e);
                    }
                },
                _ => {
                    if first_invalid.is_none() {
                        first_invalid = Some(e);
                    }
                },
            }
        },
    }
    let ghost ok0 = ok_results@;
    proof {
        assert forall|p: int, cde: Zip64CentralDirectoryEnd|
            #[trigger] z64_candidate_gate(data@, *footer, cde_start_pos, p, cde) implies
            z64_gate_banked(data@, *footer, p, cde, ok0) by {
            reveal(z64_gate_banked);
            let nominal = z64_nominal(data@, footer.zip_file_comment@.len() as int);
            let j = choose|j: int|
                0 <= j < oks_exit.len() && (#[trigger] oks_exit[j]).dir_start
                    == cde.central_directory_offset + (p - nominal);
            assert(ok0[j] == oks_exit[j]);
        }
    }
    if ok_results.is_empty() {
        return Err(
            match first_unsupported {
                Some(e) => e,
                None => match first_invalid {
                    Some(e) => e,
                    None => ZipError::InvalidArchive("Invalid central directory size or offset"),
                },
            },
        );
    }
    // Keep the reading whose directory starts latest.
    let mut best = match ok_results.pop() {
        Some(sh) => sh,
        None => {
            return Err(ZipError::InvalidArchive("Invalid central directory size or offset"));
        },
    };
    proof {
        assert(best == ok0[ok0.len() - 1]);
    }
    loop
        invariant
            shared_ok(data@, *footer, cde_start_pos, best),
            (zip32_footer_clean(data@, *footer, cde_start_pos) ==> best.dir_start >= cde_start_pos
                - footer.central_directory_size),
            ok_results@.len() <= ok0.len(),
            forall|j: int| 0 <= j < ok_results@.len() ==> ok_results@[j] == ok0[j],
            forall|j: int|
                ok_results@.len() <= j < ok0.len() ==> best.dir_start >= (#[trigger] ok0[
                    j
                ]).dir_start,
            forall|k: int|
                #![trigger ok_results@[k]]
                0 <= k < ok_results@.len() ==> shared_ok(
                    data@,
                    *footer,
                    cde_start_pos,
                    ok_results@[k],
                ),
        ensures
            shared_ok(data@, *footer, cde_start_pos, best),
            (zip32_footer_clean(data@, *footer, cde_start_pos) ==> best.dir_start >= cde_start_pos
                - footer.central_directory_size),
            forall|j: int| 0 <= j < ok0.len() ==> best.dir_start >= (#[trigger] ok0[j]).dir_start,
        decreases ok_results@.len(),
    {
        let ghost before = ok_results@;
        match ok_results.pop() {
            Some(sh) => {
                proof {
                    assert(sh == before[before.len() - 1]);
                    assert(sh == ok0[before.len() - 1]);
                }
                if sh.dir_start > best.dir_start {
                    best = sh;
                }
            },
            None => {
                break ;
            },
        }
    }
    proof {
        assert forall|p: int, cde: Zip64CentralDirectoryEnd|
            #[trigger] z64_candidate_gate(data@, *footer, cde_start_pos, p, cde)
            implies best.dir_start >= cde.central_directory_offset + (p - z64_nominal(
            data@,
            footer.zip_file_comment@.len() as int,
        )) by {
            reveal(z64_gate_banked);
            let nominal = z64_nominal(data@, footer.zip_file_comment@.len() as int);
            let j = choose|j: int|
                0 <= j < ok0.len() && (#[trigger] ok0[j]).dir_start
                    == cde.central_directory_offset + (p - nominal);
            assert(best.dir_start >= ok0[j].dir_start);
        }
    }
    Ok(best)
}

/// Whether a footer decodes at the rightmost parsing position `p` and its
/// own ZIP32 view points at a clean single-disk directory run of the
/// declared length: the case in which reading the archive is owed to
/// succeed.
pub open spec fn zip32_view_clean(s: Seq<u8>, footer: Zip32CentralDirectoryEnd, p: u64) -> bool {
    &&& footer.decodes_record_at(s, p as int)
    &&& crate::blocks::cde_record_ok(s, p as int)
    &&& (forall|j: int| p < j ==> !crate::blocks::cde_record_ok(s, j))
    &&& footer.central_directory_size + footer.central_directory_offset <= p
    &&& cd_chain_ok(
        s,
        p - footer.central_directory_size,
        footer.number_of_files_on_this_disk as int,
        (p - footer.central_directory_size - footer.central_directory_offset) as u64,
    )
    &&& footer.disk_number == footer.disk_with_central_directory
}

/// Whether a footer decodes at the rightmost parsing position `p` and its
/// ZIP64 view is clean: the case in which reading the archive through the
/// ZIP64 records is owed to succeed.
pub open spec fn zip64_view_clean_at(
    s: Seq<u8>,
    footer: Zip32CentralDirectoryEnd,
    p: u64,
) -> bool {
    &&& footer.decodes_record_at(s, p as int)
    &&& crate::blocks::cde_record_ok(s, p as int)
    &&& (forall|j: int| p < j ==> !crate::blocks::cde_record_ok(s, j))
    &&& zip64_footer_clean(s, footer, p)
}

/// The byte source handed to an entry reader, after decryption: the bytes
/// untouched, or the ZipCrypto plaintext with its 12-byte prelude already
/// stripped. This build carries no AES codec, so no AES layer exists.
pub enum CryptoReader {
    Plaintext(Vec<u8>),
    ZipCrypto(Vec<u8>),
}

impl CryptoReader {
    /// Consume this layer, returning the bytes under it.
    pub fn into_inner(self) -> (r: Vec<u8>)
        ensures
            match self {
                CryptoReader::Plaintext(v) => r@ == v@,
                CryptoReader::ZipCrypto(v) => r@ == v@,
            },
    {
        match self {
            CryptoReader::Plaintext(v) => v,
            CryptoReader::ZipCrypto(v) => v,
        }
    }

    /// Whether the data came through a WinZip AE-2 AES layer, whose stored
    /// CRC is a placeholder zero. Never the case in this build, which has
    /// no AES codec.
    pub fn is_ae2_encrypted(&self) -> (r: bool)
        ensures
            r == false,
    {
        match self {
            CryptoReader::Plaintext(_) => false,
            CryptoReader::ZipCrypto(_) => false,
        }
    }
}

/// What the ZipCrypto layer makes of an encrypted payload under a
/// password: a truncated prelude fails as I/O, a prelude whose check byte
/// does not match the entry's CRC-32 (or, with a data descriptor, its
/// timestamp) rejects the password, and otherwise the plaintext past the
/// prelude comes through.
pub open spec fn zipcrypto_reader_ok(
    pw: Seq<u8>,
    payload: Seq<u8>,
    crc32: u32,
    timepart: u16,
    using_data_descriptor: bool,
) -> bool {
    &&& payload.len() >= 12
    &&& crate::zipcrypto::spec_decrypt(pw, payload)[11] == crate::zipcrypto::validation_byte(
        crc32,
        timepart,
        using_data_descriptor,
    )
}

/// The plaintext the ZipCrypto layer yields.
pub open spec fn zipcrypto_plaintext(pw: Seq<u8>, payload: Seq<u8>) -> Seq<u8> {
    crate::zipcrypto::spec_decrypt(pw, payload).subrange(12, payload.len() as int)
}

/// Choose the crypto layer for an entry: plaintext passthrough when no
/// password is in play, the ZipCrypto layer (validated against the CRC-32
/// or, with a data descriptor, the timestamp, with the scheme's inherent
/// 1-in-256 false accept) when a password is given, and a refusal for AES
/// entries, whose cipher this build does not carry.
pub fn make_crypto_reader(
    compression_method: crate::types::CompressionMethod,
    crc32: u32,
    last_modified_time: crate::types::DateTime,
    using_data_descriptor: bool,
    reader: Vec<u8>,
    password: Option<&[u8]>,
    aes_info: Option<
        (crate::types::AesMode, crate::types::AesVendorVersion, crate::types::CompressionMethod),
    >,
) -> (r: ZipResult<CryptoReader>)
    ensures
        compression_method is Unsupported ==> (r matches Err(e) && e is UnsupportedArchive),
        !(compression_method is Unsupported) && password is Some && aes_info is Some ==> (r
            matches Err(e) && e is UnsupportedArchive),
        !(compression_method is Unsupported) && password is None && aes_info is Some ==> (r
            matches Err(e) && e is InvalidPassword),
        !(compression_method is Unsupported) && password is None && aes_info is None ==> (r
            matches Ok(cr) && match cr {
            CryptoReader::Plaintext(v) => v@ == reader@,
            _ => false,
        }),
        (!(compression_method is Unsupported) && aes_info is None ==> (password matches Some(pw)
            ==> {
            if reader@.len() < 12 {
                r matches Err(e) && e is Io
            } else if !zipcrypto_reader_ok(
                pw@,
                reader@,
                crc32,
                last_modified_time.timepart,
                using_data_descriptor,
            ) {
                r matches Err(e) && e is InvalidPassword
            } else {
                r matches Ok(cr) && match cr {
                    CryptoReader::ZipCrypto(v) => v@ == zipcrypto_plaintext(pw@, reader@),
                    _ => false,
                }
            }
        })),
{
    if let crate::types::CompressionMethod::Unsupported(_) = compression_method {
        return unsupported_zip_error("Compression method not supported");
    }
    match (password, aes_info) {
        (Some(_), Some(_)) => unsupported_zip_error(
            "AES encrypted files cannot be decrypted without an AES codec",
        ),
        (Some(pw), None) => {
            if reader.len() < 12 {
                return Err(ZipError::Io(String::from_str("failed to fill whole buffer")));
            }
            let decrypted = crate::zipcrypto::decrypt(pw, reader.as_slice());
            proof {
                crate::zipcrypto::lemma_decrypt_stream_len(
                    crate::zipcrypto::keys_after_password(pw@),
                    reader@,
                );
            }
            let expected = if using_data_descriptor {
                (last_modified_time.timepart() / 0x100) as u8
            } else {
                (crc32 / 0x1000000) as u8
            };
            if decrypted[11] != expected {
                return Err(ZipError::InvalidPassword);
            }
            let n = decrypted.len();
            let tail = vstd::slice::slice_to_vec(&decrypted.as_slice()[12..n]);
            Ok(CryptoReader::ZipCrypto(tail))
        },
        (None, Some(_)) => Err(ZipError::InvalidPassword),
        (None, None) => Ok(CryptoReader::Plaintext(reader)),
    }
}

/// Whether this library carries a decompressor for the method.
pub open spec fn method_supported(m: crate::types::CompressionMethod) -> bool {
    ||| m is Stored
    ||| m is Deflated
    ||| m is Deflate64
    ||| m is Bzip2
    ||| m is Zstd
}

/// What decompressing `b` with method `m` yields.
pub open spec fn decompressed_of(m: crate::types::CompressionMethod, b: Seq<u8>) -> Seq<u8> {
    match m {
        crate::types::CompressionMethod::Stored => b,
        crate::types::CompressionMethod::Deflated => crate::trusted::inflate_of(b),
        crate::types::CompressionMethod::Deflate64 => crate::trusted::inflate64_of(b),
        crate::types::CompressionMethod::Bzip2 => crate::trusted::bunzip2_of(b),
        crate::types::CompressionMethod::Zstd => crate::trusted::unzstd_of(b),
        _ => Seq::empty(),
    }
}

/// Whether decompressing `b` with method `m` succeeds: a stored payload
/// always does, a compressed one exactly when its codec accepts the
/// stream, and an unsupported method never.
pub open spec fn decompress_ok(m: crate::types::CompressionMethod, b: Seq<u8>) -> bool {
    match m {
        crate::types::CompressionMethod::Stored => true,
        crate::types::CompressionMethod::Deflated => crate::trusted::inflate_ok(b),
        crate::types::CompressionMethod::Deflate64 => crate::trusted::inflate64_ok(b),
        crate::types::CompressionMethod::Bzip2 => crate::trusted::bunzip2_ok(b),
        crate::types::CompressionMethod::Zstd => crate::trusted::unzstd_ok(b),
        _ => false,
    }
}

/// Decompress a whole stored payload with the entry's method. A stored
/// payload always succeeds; a compressed one succeeds exactly when its
/// codec accepts the stream; anything else is unsupported.
pub fn decompress_entry(method: crate::types::CompressionMethod, raw: &[u8]) -> (r: ZipResult<
    Vec<u8>,
>)
    ensures
        (r is Ok <==> decompress_ok(method, raw@)),
        !method_supported(method) ==> (r matches Err(e) && e is UnsupportedArchive),
        method is Stored ==> (r matches Ok(v) && v@ == raw@),
        r matches Ok(v) ==> method_supported(method) && v@ == decompressed_of(method, raw@),
        (r matches Err(e) ==> (method_supported(method) ==> e is Io)),
{
    match method {
        crate::types::CompressionMethod::Stored => {
            Ok(vstd::slice::slice_to_vec(raw))
        },
        crate::types::CompressionMethod::Deflated => {
            match crate::trusted::inflate(raw) {
                Ok(v) => Ok(v),
                Err(m) => Err(ZipError::Io(m)),
            }
        },
        crate::types::CompressionMethod::Deflate64 => {
            match crate::trusted::inflate64(raw) {
                Ok(v) => Ok(v),
                Err(m) => Err(ZipError::Io(m)),
            }
        },
        crate::types::CompressionMethod::Bzip2 => {
            match crate::trusted::bunzip2(raw) {
                Ok(v) => Ok(v),
                Err(m) => Err(ZipError::Io(m)),
            }
        },
        crate::types::CompressionMethod::Zstd => {
            match crate::trusted::unzstd(raw) {
                Ok(v) => Ok(v),
                Err(m) => Err(ZipError::Io(m)),
            }
        },
        _ => unsupported_zip_error("Compression method not supported"),
    }
}

/// Check a payload against its recorded CRC-32. The check is skipped for
/// AE-2 entries, whose recorded CRC is a placeholder zero.
pub fn verify_crc32(bytes: &[u8], expected: u32, ae2_encrypted: bool) -> (r: bool)
    ensures
        r == (ae2_encrypted || crate::trusted::crc32_of(bytes@) == expected),
{
    if ae2_encrypted {
        true
    } else {
        crate::trusted::crc32(bytes) == expected
    }
}

/// The data-start offset recorded by the local header at `hs`: past the
/// 30 fixed bytes and the name and extra field it declares.
pub open spec fn local_data_start(s: Seq<u8>, hs: u64) -> int {
    hs + 30 + crate::bytes::u16_le_at(s, hs + 26) + crate::bytes::u16_le_at(s, hs + 28)
}

/// At most `count` bytes of `s` starting at `start`: the window an entry
/// reader is allowed to see.
pub open spec fn bounded_slice(s: Seq<u8>, start: u64, count: u64) -> Seq<u8> {
    if start >= s.len() {
        Seq::empty()
    } else if start + count <= s.len() {
        s.subrange(start as int, start + count)
    } else {
        s.subrange(start as int, s.len() as int)
    }
}

/// Whether an entry's stored payload can be located in the bytes: the
/// local header magic sits at its recorded start, and the payload offset
/// is either already cached or computable from the local header without
/// overflow.
pub open spec fn content_locatable(s: Seq<u8>, v: crate::types::EntryView) -> bool {
    &&& v.header_start + 4 <= s.len()
    &&& crate::bytes::u32_le_at(s, v.header_start as int)
        == crate::blocks::LOCAL_FILE_HEADER_SIGNATURE
    &&& match v.data_start {
        Some(_) => true,
        None => v.header_start + 30 <= s.len() && local_data_start(s, v.header_start)
            <= u64::MAX,
    }
}

/// Where an entry's payload begins once located: the cached offset, or
/// the one the local header dictates.
pub open spec fn entry_data_start(s: Seq<u8>, v: crate::types::EntryView) -> u64 {
    match v.data_start {
        Some(ds) => ds,
        None => local_data_start(s, v.header_start) as u64,
    }
}

/// The stored payload window of an entry.
pub open spec fn entry_raw_content(s: Seq<u8>, v: crate::types::EntryView) -> Seq<u8> {
    bounded_slice(s, entry_data_start(s, v), v.compressed_size)
}

/// Resolve the stored payload of an entry: check the local header magic at
/// its recorded start, locate the payload (remembering the offset in the
/// descriptor the first time), and copy out at most `compressed_size`
/// bytes.
pub fn find_content(data: &[u8], d: &mut ZipFileData) -> (r: ZipResult<Vec<u8>>)
    ensures
        (r is Ok <==> content_locatable(data@, old(d)@)),
        (r matches Err(e) ==> (e is Io || e is InvalidArchive)),
        (old(d).header_start + 4 <= data@.len() && crate::bytes::u32_le_at(
            data@,
            old(d).header_start as int,
        ) != crate::blocks::LOCAL_FILE_HEADER_SIGNATURE ==> (r matches Err(e)
            && e is InvalidArchive)),
        final(d)@ == (crate::types::EntryView { data_start: final(d)@.data_start, ..old(d)@ }),
        (old(d)@.data_start matches Some(_) ==> final(d)@.data_start == old(d)@.data_start),
        (r is Ok ==> {
            &&& old(d).header_start + 4 <= data@.len()
            &&& crate::bytes::u32_le_at(data@, old(d).header_start as int)
                == crate::blocks::LOCAL_FILE_HEADER_SIGNATURE
            &&& match old(d)@.data_start {
                Some(ds0) => final(d)@.data_start == Some(ds0),
                None => final(d)@.data_start matches Some(ds) && ds == local_data_start(
                    data@,
                    old(d).header_start,
                ),
            }
        }),
        (r matches Ok(v) ==> (final(d)@.data_start matches Some(ds) && v@ == bounded_slice(
            data@,
            ds,
            old(d).compressed_size,
        ))),
{
    let n = data.len();
    let hs = d.header_start;
    if !(hs < n as u64 && 4 <= n as u64 - hs) {
        return Err(ZipError::Io(String::from_str("failed to fill whole buffer")));
    }
    let signature = crate::bytes::u32_at(data, hs as usize);
    if signature != crate::blocks::LOCAL_FILE_HEADER_SIGNATURE {
        return Err(ZipError::InvalidArchive("Invalid local file header"));
    }
    let ds: u64 = match d.data_start {
        Some(s) => s,
        None => {
            if !(30 <= n as u64 - hs) {
                return Err(ZipError::Io(String::from_str("failed to fill whole buffer")));
            }
            let name_len = crate::bytes::u16_at(data, hs as usize + 26) as u64;
            let extra_len = crate::bytes::u16_at(data, hs as usize + 28) as u64;
            let ds = match hs.checked_add(30) {
                Some(a) => match a.checked_add(name_len) {
                    Some(b) => match b.checked_add(extra_len) {
                        Some(c) => c,
                        None => {
                            return Err(ZipError::InvalidArchive("Invalid local file header"));
                        },
                    },
                    None => {
                        return Err(ZipError::InvalidArchive("Invalid local file header"));
                    },
                },
                None => {
                    return Err(ZipError::InvalidArchive("Invalid local file header"));
                },
            };
            d.data_start = Some(ds);
            ds
        },
    };
    let start: usize = if ds >= n as u64 {
        return Ok(Vec::new());
    } else {
        ds as usize
    };
    let avail = (n - start) as u64;
    let take: u64 = if d.compressed_size <= avail {
        d.compressed_size
    } else {
        avail
    };
    let end = start + take as usize;
    Ok(vstd::slice::slice_to_vec(&data[start..end]))
}

/// The position of the first descriptor with this name, if any.
pub fn lookup_name(files: &Vec<ZipFileData>, name: &str) -> (r: Option<usize>)
    ensures
        (find_name(files@, name@) < 0 ==> r is None),
        (find_name(files@, name@) >= 0 ==> r == Some(find_name(files@, name@) as usize)),
{
    let n = files.len();
    let mut i: usize = 0;
    while i < n
        invariant
            n == files@.len(),
            i <= n,
            forall|jj: int| 0 <= jj < i ==> files@[jj].file_name@ != name@,
        decreases n - i,
    {
        if crate::trusted::str_eq(files[i].file_name.as_str(), name) {
            proof {
                assert(find_name(files@, name@) == i as int) by {
                    lemma_find_name(files@, name@);
                    let k = find_name(files@, name@);
                    if k < 0 {
                        assert(files@[i as int].file_name@ != name@);
                    } else if k < i {
                        assert(files@[k].file_name@ != name@);
                    } else if k > i {
                        assert(files@[i as int].file_name@ != name@);
                    }
                }
            }
            return Some(i);
        }
        i = i + 1;
    }
    proof {
        assert(find_name(files@, name@) < 0) by {
            lemma_find_name(files@, name@);
            let k = find_name(files@, name@);
            if k >= 0 {
                assert(files@[k].file_name@ != name@);
            }
        }
    }
    None
}

/// One entry opened for reading: its descriptor and the bytes handed to it
/// by the crypto layer. In raw mode the bytes are returned as they are;
/// otherwise they are decompressed and checked against the recorded CRC.
pub struct ZipFile {
    data: ZipFileData,
    content: Vec<u8>,
    raw_mode: bool,
    ae2_encrypted: bool,
}

impl ZipFile {
    /// The entry's descriptor.
    pub closed spec fn descriptor(&self) -> crate::types::EntryView {
        self.data@
    }

    /// The bytes this reader was handed.
    pub closed spec fn spec_content(&self) -> Seq<u8> {
        self.content@
    }

    /// Whether reading yields the stored bytes untouched.
    pub closed spec fn is_raw(&self) -> bool {
        self.raw_mode
    }

    /// Whether the CRC check is disabled for an AE-2 stream.
    pub closed spec fn spec_ae2(&self) -> bool {
        self.ae2_encrypted
    }

    /// Assemble a reader from its parts.
    pub(crate) fn assemble(data: ZipFileData, content: Vec<u8>, raw_mode: bool, ae2: bool) -> (r:
        ZipFile)
        ensures
            r.descriptor() == data@,
            r.spec_content() == content@,
            r.is_raw() == raw_mode,
            r.spec_ae2() == ae2,
    {
        ZipFile { data, content, raw_mode, ae2_encrypted: ae2 }
    }

    /// Read the whole entry: raw bytes in raw mode, otherwise the payload
    /// decompressed and held against the recorded CRC-32 (except for AE-2
    /// entries, whose recorded CRC is a placeholder).
    pub fn read_to_end(&self) -> (r: ZipResult<Vec<u8>>)
        ensures
            (self.is_raw() ==> (r matches Ok(v) && v@ == self.spec_content())),
            (!self.is_raw() ==> (r matches Ok(v) ==> {
                &&& method_supported(self.descriptor().compression_method)
                &&& v@ == decompressed_of(self.descriptor().compression_method,
                self.spec_content())
                &&& self.spec_ae2() || crate::trusted::crc32_of(v@) == self.descriptor().crc32
            })),
            (!self.is_raw() && decompress_ok(
                self.descriptor().compression_method,
                self.spec_content(),
            ) && (self.spec_ae2() || crate::trusted::crc32_of(
                decompressed_of(self.descriptor().compression_method, self.spec_content()),
            ) == self.descriptor().crc32) ==> r is Ok),
            (!self.is_raw() && !method_supported(self.descriptor().compression_method) ==> (r
                matches Err(e) && e is UnsupportedArchive)),
    {
        if self.raw_mode {
            return Ok(crate::types::clone_bytes(&self.content));
        }
        let out = match decompress_entry(self.data.compression_method, self.content.as_slice()) {
            Ok(v) => v,
            Err(e) => {
                return Err(e);
            },
        };
        if !verify_crc32(out.as_slice(), self.data.crc32, self.ae2_encrypted) {
            return Err(ZipError::Io(String::from_str("Invalid checksum")));
        }
        Ok(out)
    }

    /// The version of the tool that wrote the entry, as (major, minor).
    pub fn version_made_by(&self) -> (r: (u8, u8))
        ensures
            r.0 == self.descriptor().version_made_by / 10,
            r.1 == self.descriptor().version_made_by % 10,
    {
        (self.data.version_made_by / 10, self.data.version_made_by % 10)
    }

    /// The decoded entry name. It may be absolute or climb out of its
    /// directory; `enclosed_name` gives the safe form.
    pub fn name(&self) -> (r: &str)
        ensures
            r@ == self.descriptor().file_name,
    {
        self.data.file_name.as_str()
    }

    /// The raw bytes the name was decoded from.
    pub fn name_raw(&self) -> (r: &[u8])
        ensures
            r@ == self.descriptor().file_name_raw,
    {
        self.data.file_name_raw.as_slice()
    }

    /// The lossy safe form of the name (kept for callers of the old name).
    pub fn sanitized_name(&self) -> (r: String)
        ensures
            r@ == crate::paths::spec_mangled_name(self.descriptor().file_name),
    {
        self.mangled_name()
    }

    /// The lossy safe form of the name: NUL-truncated, with absolute and
    /// climbing components dropped.
    pub fn mangled_name(&self) -> (r: String)
        ensures
            r@ == crate::paths::spec_mangled_name(self.descriptor().file_name),
    {
        crate::paths::mangled_name_of(self.data.file_name.as_str())
    }

    /// The name as a safe relative path, or `None` when it cannot be one.
    pub fn enclosed_name(&self) -> (r: Option<String>)
        ensures
            (r is Some <==> crate::paths::spec_enclosed_name(self.descriptor().file_name)
                is Some),
            (r matches Some(p) ==> Some(p@) == crate::paths::spec_enclosed_name(
                self.descriptor().file_name,
            )),
    {
        crate::paths::enclosed_name_of(self.data.file_name.as_str())
    }

    /// The entry's comment.
    pub fn comment(&self) -> (r: &str)
        ensures
            r@ == self.descriptor().file_comment,
    {
        self.data.file_comment.as_str()
    }

    /// The method the payload is stored with.
    pub fn compression(&self) -> (r: crate::types::CompressionMethod)
        ensures
            r == self.descriptor().compression_method,
    {
        self.data.compression_method
    }

    /// The stored payload size.
    pub fn compressed_size(&self) -> (r: u64)
        ensures
            r == self.descriptor().compressed_size,
    {
        self.data.compressed_size
    }

    /// The uncompressed payload size.
    pub fn size(&self) -> (r: u64)
        ensures
            r == self.descriptor().uncompressed_size,
    {
        self.data.uncompressed_size
    }

    /// The last modification time.
    pub fn last_modified(&self) -> (r: crate::types::DateTime)
        ensures
            r == self.descriptor().last_modified_time,
    {
        self.data.last_modified_time
    }

    /// Whether the entry is a directory: its name ends in a separator.
    pub fn is_dir(&self) -> (r: bool)
        ensures
            r == crate::paths::spec_is_dir(self.descriptor().file_name),
    {
        crate::paths::is_dir(self.data.file_name.as_str())
    }

    /// Whether the entry is a regular file.
    pub fn is_file(&self) -> (r: bool)
        ensures
            r == !crate::paths::spec_is_dir(self.descriptor().file_name),
    {
        !self.is_dir()
    }

    /// The POSIX permission bits, if the recording system defined any.
    pub fn unix_mode(&self) -> (r: Option<u32>)
        ensures
            r == crate::types::unix_mode_of(self.descriptor()),
    {
        self.data.unix_mode()
    }

    /// The recorded CRC-32 of the uncompressed payload.
    pub fn crc32(&self) -> (r: u32)
        ensures
            r == self.descriptor().crc32,
    {
        self.data.crc32
    }

    /// The raw extra-field bytes.
    pub fn extra_data(&self) -> (r: &[u8])
        ensures
            r@ == self.descriptor().extra_field,
    {
        self.data.extra_field.as_slice()
    }

    /// Where the stored payload begins, or zero when not yet located.
    pub fn data_start(&self) -> (r: u64)
        ensures
            r == match self.descriptor().data_start {
                Some(ds) => ds,
                None => 0u64,
            },
    {
        match self.data.data_start {
            Some(ds) => ds,
            None => 0,
        }
    }

    /// Where the entry's local header begins.
    pub fn header_start(&self) -> (r: u64)
        ensures
            r == self.descriptor().header_start,
    {
        self.data.header_start
    }

    /// Where the entry's central directory header begins.
    pub fn central_header_start(&self) -> (r: u64)
        ensures
            r == self.descriptor().central_header_start,
    {
        self.data.central_header_start
    }

    /// The recognized extra fields.
    pub fn extra_data_fields(&self) -> (r: &Vec<crate::types::ExtraField>)
        ensures
            r@ == self.descriptor().extra_fields,
    {
        &self.data.extra_fields
    }
}

/// An archive held in memory: the bytes, the parsed directory, and the
/// archive comment.
#[derive(Debug, Clone)]
pub struct ZipArchive {
    reader: Vec<u8>,
    shared: Shared,
    comment: Vec<u8>,
}

impl ZipArchive {
    /// The underlying bytes.
    pub closed spec fn source(&self) -> Seq<u8> {
        self.reader@
    }

    /// The descriptor table, in directory order.
    pub closed spec fn entries(&self) -> Seq<ZipFileData> {
        self.shared.files@
    }

    /// The shared metadata value.
    pub closed spec fn shared_of(&self) -> Shared {
        self.shared
    }

    /// How many junk bytes precede the archive proper.
    pub closed spec fn spec_offset(&self) -> u64 {
        self.shared.offset
    }

    /// Where the central directory begins.
    pub closed spec fn spec_dir_start(&self) -> u64 {
        self.shared.dir_start
    }

    /// The archive comment bytes.
    pub closed spec fn spec_comment(&self) -> Seq<u8> {
        self.comment@
    }

    /// No two entries share a name.
    pub open spec fn wf(&self) -> bool {
        names_unique(self.entries())
    }

    /// Read an archive: locate the footer, reconcile it with any ZIP64
    /// records, and parse the central directory of the winning reading.
    /// Success is owed whenever a rightmost-parsing footer exists whose own
    /// ZIP32 view points at a clean single-disk directory run.
    pub fn new(reader: Vec<u8>) -> (r: ZipResult<ZipArchive>)
        ensures
            (r matches Ok(a) ==> {
                &&& a.source() == reader@
                &&& a.wf()
                &&& exists|footer: Zip32CentralDirectoryEnd, p: u64|
                    {
                        &&& #[trigger] footer.decodes_record_at(reader@, p as int)
                        &&& crate::blocks::cde_record_ok(reader@, p as int)
                        &&& (forall|j: int| p < j ==> !crate::blocks::cde_record_ok(reader@, j))
                        &&& shared_ok(reader@, footer, p, a.shared_of())
                        &&& a.spec_comment() == footer.zip_file_comment@
                    }
            }),
            ((forall|j: int| !crate::blocks::cde_record_ok(reader@, j)) ==> r is Err),
            ((exists|footer: Zip32CentralDirectoryEnd, p: u64| zip32_view_clean(
                reader@,
                footer,
                p,
            )) ==> r is Ok),
            ((exists|footer: Zip32CentralDirectoryEnd, p: u64| zip64_view_clean_at(
                reader@,
                footer,
                p,
            )) ==> r is Ok),
            (r matches Err(e) ==> (e is Io || e is InvalidArchive || e is UnsupportedArchive)),
            (r matches Ok(a) ==> forall|f0: Zip32CentralDirectoryEnd, p0: u64, p: int, cde: Zip64CentralDirectoryEnd|
                ({
                    &&& f0.decodes_record_at(reader@, p0 as int)
                    &&& crate::blocks::cde_record_ok(reader@, p0 as int)
                    &&& (forall|j: int| p0 < j ==> !crate::blocks::cde_record_ok(reader@, j))
                    &&& #[trigger] z64_candidate_gate(reader@, f0, p0, p, cde)
                }) ==> a.spec_dir_start() >= cde.central_directory_offset + (p - z64_nominal(
                    reader@,
                    f0.zip_file_comment@.len() as int,
                ))),
    {
        let (footer, cde_start_pos) = match Zip32CentralDirectoryEnd::find_and_parse(
            reader.as_slice(),
        ) {
            Ok(p) => p,
            Err(e) => {
                proof {
                    if exists|f0: Zip32CentralDirectoryEnd, p0: u64| zip32_view_clean(
                        reader@,
                        f0,
                        p0,
                    ) {
                        let (f0, p0) = choose|f0: Zip32CentralDirectoryEnd, p0: u64|
                            zip32_view_clean(reader@, f0, p0);
                        assert(!crate::blocks::cde_record_ok(reader@, p0 as int));
                    }
                    if exists|f0: Zip32CentralDirectoryEnd, p0: u64| zip64_view_clean_at(
                        reader@,
                        f0,
                        p0,
                    ) {
                        let (f0, p0) = choose|f0: Zip32CentralDirectoryEnd, p0: u64|
                            zip64_view_clean_at(reader@, f0, p0);
                        assert(!crate::blocks::cde_record_ok(reader@, p0 as int));
                    }
                }
                return Err(e);
            },
        };
        let shared = match get_metadata(reader.as_slice(), &footer, cde_start_pos) {
            Ok(s) => s,
            Err(e) => {
                proof {
                    if exists|f0: Zip32CentralDirectoryEnd, p0: u64| zip32_view_clean(
                        reader@,
                        f0,
                        p0,
                    ) {
                        let (f0, p0) = choose|f0: Zip32CentralDirectoryEnd, p0: u64|
                            zip32_view_clean(reader@, f0, p0);
                        if p0 < cde_start_pos {
                            assert(!crate::blocks::cde_record_ok(reader@, p0 as int));
                        }
                        if p0 > cde_start_pos {
                            assert(!crate::blocks::cde_record_ok(
                                reader@,
                                cde_start_pos as int,
                            ));
                        }
                        assert(p0 == cde_start_pos);
                        assert(footer.central_directory_size == f0.central_directory_size);
                        assert(footer.central_directory_offset == f0.central_directory_offset);
                        assert(footer.number_of_files_on_this_disk
                            == f0.number_of_files_on_this_disk);
                        assert(footer.disk_number == f0.disk_number);
                        assert(footer.disk_with_central_directory
                            == f0.disk_with_central_directory);
                        assert(false);
                    }
                    if exists|f0: Zip32CentralDirectoryEnd, p0: u64| zip64_view_clean_at(
                        reader@,
                        f0,
                        p0,
                    ) {
                        let (f0, p0) = choose|f0: Zip32CentralDirectoryEnd, p0: u64|
                            zip64_view_clean_at(reader@, f0, p0);
                        if p0 < cde_start_pos {
                            assert(!crate::blocks::cde_record_ok(reader@, p0 as int));
                        }
                        if p0 > cde_start_pos {
                            assert(!crate::blocks::cde_record_ok(
                                reader@,
                                cde_start_pos as int,
                            ));
                        }
                        assert(p0 == cde_start_pos);
                        assert(footer.zip_file_comment@ == f0.zip_file_comment@);
                        assert(footer.central_directory_size == f0.central_directory_size);
                        assert(footer.central_directory_offset == f0.central_directory_offset);
                        assert(footer.number_of_files_on_this_disk
                            == f0.number_of_files_on_this_disk);
                        assert(footer.disk_number == f0.disk_number);
                        assert(footer.disk_with_central_directory
                            == f0.disk_with_central_directory);
                        reveal(zip64_footer_clean);
                        assert(zip64_footer_clean(reader@, footer, cde_start_pos));
                        assert(false);
                    }
                }
                return Err(e);
            },
        };
        proof {
            reveal(shared_ok);
            assert forall|f0: Zip32CentralDirectoryEnd, p0: u64, p: int, cde: Zip64CentralDirectoryEnd|
                ({
                    &&& f0.decodes_record_at(reader@, p0 as int)
                    &&& crate::blocks::cde_record_ok(reader@, p0 as int)
                    &&& (forall|j: int| p0 < j ==> !crate::blocks::cde_record_ok(reader@, j))
                    &&& #[trigger] z64_candidate_gate(reader@, f0, p0, p, cde)
                }) implies shared.dir_start >= cde.central_directory_offset + (p - z64_nominal(
                reader@,
                f0.zip_file_comment@.len() as int,
            )) by {
                if p0 < cde_start_pos {
                    assert(!crate::blocks::cde_record_ok(reader@, p0 as int));
                }
                if p0 > cde_start_pos {
                    assert(!crate::blocks::cde_record_ok(reader@, cde_start_pos as int));
                }
                assert(p0 == cde_start_pos);
                assert(footer.zip_file_comment@ == f0.zip_file_comment@);
                assert(footer.central_directory_size == f0.central_directory_size);
                assert(footer.central_directory_offset == f0.central_directory_offset);
                assert(footer.number_of_files_on_this_disk == f0.number_of_files_on_this_disk);
                assert(footer.disk_number == f0.disk_number);
                assert(footer.disk_with_central_directory == f0.disk_with_central_directory);
                assert(z64_candidate_gate(reader@, footer, cde_start_pos, p, cde)) by {
                    reveal(z64_candidate_gate);
                }
            }
        }
        Ok(ZipArchive { reader, shared, comment: footer.zip_file_comment })
    }

    /// The number of entries.
    pub fn len(&self) -> (r: usize)
        ensures
            r == self.entries().len(),
    {
        self.shared.files.len()
    }

    /// Whether the archive holds no entries.
    pub fn is_empty(&self) -> (r: bool)
        ensures
            r == (self.entries().len() == 0),
    {
        self.len() == 0
    }

    /// How many junk bytes precede the archive proper.
    pub fn offset(&self) -> (r: u64)
        ensures
            r == self.spec_offset(),
    {
        self.shared.offset
    }

    /// The archive comment bytes.
    pub fn comment(&self) -> (r: &[u8])
        ensures
            r@ == self.spec_comment(),
    {
        self.comment.as_slice()
    }

    /// Every entry name, in directory order.
    pub fn file_names(&self) -> (r: Vec<String>)
        ensures
            r@.len() == self.entries().len(),
            forall|k: int| 0 <= k < r@.len() ==> #[trigger] r@[k]@ == self.entries()[k]@.file_name,
    {
        let mut out: Vec<String> = Vec::new();
        let n = self.shared.files.len();
        let mut i: usize = 0;
        while i < n
            invariant
                n == self.entries().len(),
                i <= n,
                out@.len() == i,
                forall|k: int|
                    0 <= k < i ==> #[trigger] out@[k]@ == self.entries()[k]@.file_name,
            decreases n - i,
        {
            out.push(self.shared.files[i].file_name.clone());
            i = i + 1;
        }
        out
    }

    /// The position of the entry with this name, if any: the first match
    /// in directory order.
    pub fn index_for_name(&self, name: &str) -> (r: Option<usize>)
        ensures
            (find_name(self.entries(), name@) < 0 ==> r is None),
            (find_name(self.entries(), name@) >= 0 ==> r == Some(
                find_name(self.entries(), name@) as usize,
            )),
    {
        lookup_name(&self.shared.files, name)
    }

    /// The position of the entry whose name is the normalized form of this
    /// forward-slash path.
    pub fn index_for_path(&self, path: &str) -> (r: Option<usize>)
        ensures
            (find_name(self.entries(), crate::paths::spec_path_to_string(path@)) < 0 ==> r
                is None),
            (find_name(self.entries(), crate::paths::spec_path_to_string(path@)) >= 0 ==> r
                == Some(find_name(self.entries(), crate::paths::spec_path_to_string(path@))
                as usize)),
    {
        let key = crate::paths::path_to_string(path);
        self.index_for_name(key.as_str())
    }

    /// The name of the entry at this position, if it exists.
    pub fn name_for_index(&self, index: usize) -> (r: Option<&str>)
        ensures
            (r is Some <==> index < self.entries().len()),
            (r matches Some(nm) ==> nm@ == self.entries()[index as int]@.file_name),
    {
        if index < self.shared.files.len() {
            Some(self.shared.files[index].file_name.as_str())
        } else {
            None
        }
    }

    /// Unwrap and return the underlying bytes.
    pub fn into_inner(self) -> (r: Vec<u8>)
        ensures
            r@ == self.source(),
    {
        self.reader
    }

    /// The extraction plan of this archive: every entry's safe relative
    /// path, and the non-directory entries to materialize with their
    /// positions. Fails exactly when some entry has no safe relative path.
    pub fn plan_extraction(&self) -> (r: ZipResult<(Vec<String>, Vec<(usize, String)>)>)
        ensures
            (r is Ok <==> forall|k: int|
                0 <= k < self.entries().len() ==> (#[trigger] crate::paths::spec_enclosed_name(
                    self.entries()[k]@.file_name,
                )) is Some),
            (r matches Ok((paths, stops)) ==> paths@.len() == self.entries().len() && forall|
                k: int,
            |
                0 <= k < paths@.len() ==> Some(#[trigger] paths@[k]@)
                    == crate::paths::spec_enclosed_name(self.entries()[k]@.file_name)),
    {
        crate::pipeline::plan_extraction(&self.shared.files)
    }

    /// Open the entry at `file_number`, with an optional password. The
    /// descriptor's data-start cache may be filled in; nothing else of the
    /// archive changes.
    fn by_index_with_optional_password(&mut self, file_number: usize, password: Option<&[u8]>)
        -> (r: ZipResult<ZipFile>)
        ensures
            (final(self).source() == old(self).source()),
            (final(self).spec_comment() == old(self).spec_comment()),
            (final(self).spec_offset() == old(self).spec_offset()),
            (final(self).spec_dir_start() == old(self).spec_dir_start()),
            (final(self).entries().len() == old(self).entries().len()),
            (forall|k: int|
                0 <= k < final(self).entries().len() ==> #[trigger] final(self).entries()[k]@
                    == (crate::types::EntryView {
                    data_start: final(self).entries()[k]@.data_start,
                    ..old(self).entries()[k]@
                })),
            (old(self).wf() ==> final(self).wf()),
            (file_number >= old(self).entries().len() ==> (r matches Err(e)
                && e is FileNotFound)),
            (file_number < old(self).entries().len() && old(self).entries()[file_number as int]@.encrypted && password is None ==> (r matches Err(e)
                && e is UnsupportedArchive)),
            ({
                &&& file_number < old(self).entries().len()
                &&& !old(self).entries()[file_number as int]@.encrypted
                &&& content_locatable(
                    old(self).source(),
                    old(self).entries()[file_number as int]@,
                )
                &&& !(old(
                    self,
                ).entries()[file_number as int]@.compression_method is Unsupported)
                &&& old(self).entries()[file_number as int]@.aes_mode is None
            }) ==> r is Ok,
            (({
                &&& file_number < old(self).entries().len()
                &&& old(self).entries()[file_number as int]@.encrypted
                &&& content_locatable(
                    old(self).source(),
                    old(self).entries()[file_number as int]@,
                )
                &&& !(old(
                    self,
                ).entries()[file_number as int]@.compression_method is Unsupported)
                &&& old(self).entries()[file_number as int]@.aes_mode is None
            }) ==> (password matches Some(pw) ==> {
                let v = old(self).entries()[file_number as int]@;
                let raw = entry_raw_content(old(self).source(), v);
                if raw.len() < 12 {
                    r matches Err(e) && e is Io
                } else if !zipcrypto_reader_ok(
                    pw@,
                    raw,
                    v.crc32,
                    v.last_modified_time.timepart,
                    v.using_data_descriptor,
                ) {
                    r matches Err(e) && e is InvalidPassword
                } else {
                    r is Ok
                }
            })),
            (r matches Ok(f) ==> {
                let v = old(self).entries()[file_number as int]@;
                let raw = entry_raw_content(old(self).source(), v);
                &&& file_number < old(self).entries().len()
                &&& !f.is_raw()
                &&& !f.spec_ae2()
                &&& content_locatable(old(self).source(), v)
                &&& f.descriptor() == (crate::types::EntryView {
                    data_start: f.descriptor().data_start,
                    ..v
                })
                &&& f.descriptor().data_start == final(self).entries()[file_number as int]@.data_start
                &&& f.descriptor().data_start == Some(entry_data_start(old(self).source(), v))
                &&& (if v.encrypted {
                    password matches Some(pw) && f.spec_content() == zipcrypto_plaintext(pw@, raw)
                } else {
                    f.spec_content() == raw
                })
            }),
    {
        if file_number >= self.shared.files.len() {
            return Err(ZipError::FileNotFound);
        }
        let encrypted = self.shared.files[file_number].encrypted;
        let password = match (password, encrypted) {
            (None, true) => {
                return Err(ZipError::UnsupportedArchive(crate::errors::PASSWORD_REQUIRED));
            },
            (Some(_), false) => None,
            (p, _) => p,
        };
        let mut entry = self.shared.files[file_number].clone_entry();
        let content = match find_content(self.reader.as_slice(), &mut entry) {
            Ok(c) => c,
            Err(e) => {
                return Err(e);
            },
        };
        let updated = entry.clone_entry();
        let ghost prev_files = self.shared.files@;
        self.shared.files.set(file_number, updated);
        proof {
            assert forall|k: int|
                0 <= k < self.shared.files@.len() implies #[trigger] self.shared.files@[k]@
                == (crate::types::EntryView {
                data_start: self.shared.files@[k]@.data_start,
                ..prev_files[k]@
            }) by {
                if k != file_number {
                    assert(self.shared.files@[k] == prev_files[k]);
                }
            }
            if names_unique(prev_files) {
                assert forall|i: int, j: int|
                    0 <= i < j < self.shared.files@.len() implies self.shared.files@[
                    i
                ]@.file_name != self.shared.files@[j]@.file_name by {
                    assert(self.shared.files@[i]@.file_name == prev_files[i]@.file_name);
                    assert(self.shared.files@[j]@.file_name == prev_files[j]@.file_name);
                    assert(prev_files[i].file_name@ != prev_files[j].file_name@);
                }
            }
        }
        let aes_info = entry.aes_mode;
        let crypto = match make_crypto_reader(
            entry.compression_method,
            entry.crc32,
            entry.last_modified_time,
            entry.using_data_descriptor,
            content,
            password,
            aes_info,
        ) {
            Ok(c) => c,
            Err(e) => {
                return Err(e);
            },
        };
        let ae2 = crypto.is_ae2_encrypted();
        let inner = crypto.into_inner();
        Ok(ZipFile::assemble(entry, inner, false, ae2))
    }

    /// Open the entry at `file_number`. An encrypted entry is refused
    /// here: it needs a password, which this call does not take.
    pub fn by_index(&mut self, file_number: usize) -> (r: ZipResult<ZipFile>)
        ensures
            (final(self).source() == old(self).source()),
            (final(self).spec_comment() == old(self).spec_comment()),
            (final(self).spec_offset() == old(self).spec_offset()),
            (final(self).entries().len() == old(self).entries().len()),
            (old(self).wf() ==> final(self).wf()),
            (file_number >= old(self).entries().len() ==> (r matches Err(e)
                && e is FileNotFound)),
            (file_number < old(self).entries().len() && old(
                self,
            ).entries()[file_number as int]@.encrypted ==> (r matches Err(e)
                && e is UnsupportedArchive)),
            ({
                &&& file_number < old(self).entries().len()
                &&& !old(self).entries()[file_number as int]@.encrypted
                &&& content_locatable(
                    old(self).source(),
                    old(self).entries()[file_number as int]@,
                )
                &&& !(old(
                    self,
                ).entries()[file_number as int]@.compression_method is Unsupported)
                &&& old(self).entries()[file_number as int]@.aes_mode is None
            }) ==> r is Ok,
            (r matches Ok(f) ==> {
                &&& file_number < old(self).entries().len()
                &&& !f.is_raw()
                &&& !f.spec_ae2()
                &&& f.descriptor() == (crate::types::EntryView {
                    data_start: f.descriptor().data_start,
                    ..old(self).entries()[file_number as int]@
                })
                &&& (f.descriptor().data_start matches Some(ds) && f.spec_content()
                    == bounded_slice(
                    old(self).source(),
                    ds,
                    old(self).entries()[file_number as int]@.compressed_size,
                ))
            }),
    {
        self.by_index_with_optional_password(file_number, None)
    }

    /// Open the entry at `file_number`, decrypting with this password.
    /// A password on an unencrypted entry is silently dropped; a wrong
    /// password on a ZipCrypto entry is rejected (subject to the scheme's
    /// 1-in-256 false accept); an AES entry is refused, since this build
    /// carries no AES codec.
    pub fn by_index_decrypt(&mut self, file_number: usize, password: &[u8]) -> (r: ZipResult<
        ZipFile,
    >)
        ensures
            (final(self).source() == old(self).source()),
            (final(self).spec_comment() == old(self).spec_comment()),
            (final(self).entries().len() == old(self).entries().len()),
            (old(self).wf() ==> final(self).wf()),
            (file_number >= old(self).entries().len() ==> (r matches Err(e)
                && e is FileNotFound)),
            ({
                &&& file_number < old(self).entries().len()
                &&& !old(self).entries()[file_number as int]@.encrypted
                &&& content_locatable(
                    old(self).source(),
                    old(self).entries()[file_number as int]@,
                )
                &&& !(old(
                    self,
                ).entries()[file_number as int]@.compression_method is Unsupported)
                &&& old(self).entries()[file_number as int]@.aes_mode is None
            }) ==> r is Ok,
            (({
                &&& file_number < old(self).entries().len()
                &&& old(self).entries()[file_number as int]@.encrypted
                &&& content_locatable(
                    old(self).source(),
                    old(self).entries()[file_number as int]@,
                )
                &&& !(old(
                    self,
                ).entries()[file_number as int]@.compression_method is Unsupported)
                &&& old(self).entries()[file_number as int]@.aes_mode is None
            }) ==> {
                let v = old(self).entries()[file_number as int]@;
                let raw = entry_raw_content(old(self).source(), v);
                if raw.len() < 12 {
                    r matches Err(e) && e is Io
                } else if !zipcrypto_reader_ok(
                    password@,
                    raw,
                    v.crc32,
                    v.last_modified_time.timepart,
                    v.using_data_descriptor,
                ) {
                    r matches Err(e) && e is InvalidPassword
                } else {
                    r is Ok
                }
            }),
            (r matches Ok(f) ==> {
                let v = old(self).entries()[file_number as int]@;
                let raw = entry_raw_content(old(self).source(), v);
                &&& file_number < old(self).entries().len()
                &&& !f.is_raw()
                &&& !f.spec_ae2()
                &&& f.descriptor() == (crate::types::EntryView {
                    data_start: f.descriptor().data_start,
                    ..v
                })
                &&& (if v.encrypted {
                    f.spec_content() == zipcrypto_plaintext(password@, raw)
                } else {
                    f.spec_content() == raw
                })
            }),
    {
        self.by_index_with_optional_password(file_number, Some(password))
    }

    /// Open the entry at `file_number` without decrypting, decompressing
    /// or checking it: reading yields the stored bytes as they are.
    pub fn by_index_raw(&mut self, file_number: usize) -> (r: ZipResult<ZipFile>)
        ensures
            (final(self).source() == old(self).source()),
            (final(self).spec_comment() == old(self).spec_comment()),
            (final(self).spec_offset() == old(self).spec_offset()),
            (final(self).entries().len() == old(self).entries().len()),
            (old(self).wf() ==> final(self).wf()),
            (file_number >= old(self).entries().len() ==> (r matches Err(e)
                && e is FileNotFound)),
            (file_number < old(self).entries().len() && content_locatable(
                old(self).source(),
                old(self).entries()[file_number as int]@,
            ) ==> r is Ok),
            (r matches Ok(f) ==> {
                &&& file_number < old(self).entries().len()
                &&& f.is_raw()
                &&& f.descriptor() == (crate::types::EntryView {
                    data_start: f.descriptor().data_start,
                    ..old(self).entries()[file_number as int]@
                })
                &&& (f.descriptor().data_start matches Some(ds) && f.spec_content()
                    == bounded_slice(
                    old(self).source(),
                    ds,
                    old(self).entries()[file_number as int]@.compressed_size,
                ))
            }),
    {
        if file_number >= self.shared.files.len() {
            return Err(ZipError::FileNotFound);
        }
        let mut entry = self.shared.files[file_number].clone_entry();
        let content = match find_content(self.reader.as_slice(), &mut entry) {
            Ok(c) => c,
            Err(e) => {
                return Err(e);
            },
        };
        let updated = entry.clone_entry();
        let ghost prev_files = self.shared.files@;
        self.shared.files.set(file_number, updated);
        proof {
            if names_unique(prev_files) {
                assert forall|i: int, j: int|
                    0 <= i < j < self.shared.files@.len() implies self.shared.files@[
                    i
                ]@.file_name != self.shared.files@[j]@.file_name by {
                    assert(self.shared.files@[i]@.file_name == prev_files[i]@.file_name);
                    assert(self.shared.files@[j]@.file_name == prev_files[j]@.file_name);
                    assert(prev_files[i].file_name@ != prev_files[j].file_name@);
                }
            }
        }
        Ok(ZipFile::assemble(entry, content, true, false))
    }

    /// Open the first entry with this name. An encrypted entry is refused
    /// here: it needs a password, which this call does not take.
    pub fn by_name(&mut self, name: &str) -> (r: ZipResult<ZipFile>)
        ensures
            (final(self).source() == old(self).source()),
            (final(self).entries().len() == old(self).entries().len()),
            (old(self).wf() ==> final(self).wf()),
            (find_name(old(self).entries(), name@) < 0 ==> (r matches Err(e)
                && e is FileNotFound)),
            ({
                let k = find_name(old(self).entries(), name@);
                &&& k >= 0
                &&& !old(self).entries()[k]@.encrypted
                &&& content_locatable(old(self).source(), old(self).entries()[k]@)
                &&& !(old(self).entries()[k]@.compression_method is Unsupported)
                &&& old(self).entries()[k]@.aes_mode is None
            }) ==> r is Ok,
            ({
                let k = find_name(old(self).entries(), name@);
                k >= 0 && old(self).entries()[k]@.encrypted
            }) ==> (r matches Err(e) && e is UnsupportedArchive),
            (r matches Ok(f) ==> {
                &&& find_name(old(self).entries(), name@) >= 0
                &&& f.descriptor().file_name == name@
            }),
    {
        self.by_name_with_optional_password(name, None)
    }

    /// Open the first entry with this name, decrypting with this password.
    /// A password on an unencrypted entry is silently dropped; a wrong
    /// password on a ZipCrypto entry is rejected (subject to the scheme's
    /// 1-in-256 false accept); an AES entry is refused, since this build
    /// carries no AES codec.
    pub fn by_name_decrypt(&mut self, name: &str, password: &[u8]) -> (r: ZipResult<ZipFile>)
        ensures
            (final(self).source() == old(self).source()),
            (final(self).entries().len() == old(self).entries().len()),
            (old(self).wf() ==> final(self).wf()),
            (find_name(old(self).entries(), name@) < 0 ==> (r matches Err(e)
                && e is FileNotFound)),
            ({
                let k = find_name(old(self).entries(), name@);
                &&& k >= 0
                &&& !old(self).entries()[k]@.encrypted
                &&& content_locatable(old(self).source(), old(self).entries()[k]@)
                &&& !(old(self).entries()[k]@.compression_method is Unsupported)
                &&& old(self).entries()[k]@.aes_mode is None
            }) ==> r is Ok,
            (({
                let k = find_name(old(self).entries(), name@);
                &&& k >= 0
                &&& old(self).entries()[k]@.encrypted
                &&& content_locatable(old(self).source(), old(self).entries()[k]@)
                &&& !(old(self).entries()[k]@.compression_method is Unsupported)
                &&& old(self).entries()[k]@.aes_mode is None
            }) ==> {
                let v = old(self).entries()[find_name(old(self).entries(), name@)]@;
                let raw = entry_raw_content(old(self).source(), v);
                if raw.len() < 12 {
                    r matches Err(e) && e is Io
                } else if !zipcrypto_reader_ok(
                    password@,
                    raw,
                    v.crc32,
                    v.last_modified_time.timepart,
                    v.using_data_descriptor,
                ) {
                    r matches Err(e) && e is InvalidPassword
                } else {
                    r is Ok
                }
            }),
            (r matches Ok(f) ==> {
                &&& find_name(old(self).entries(), name@) >= 0
                &&& f.descriptor().file_name == name@
            }),
    {
        self.by_name_with_optional_password(name, Some(password))
    }

    /// Open the first entry with this name, with an optional password.
    fn by_name_with_optional_password(&mut self, name: &str, password: Option<&[u8]>) -> (r:
        ZipResult<ZipFile>)
        ensures
            (final(self).source() == old(self).source()),
            (final(self).entries().len() == old(self).entries().len()),
            (old(self).wf() ==> final(self).wf()),
            (find_name(old(self).entries(), name@) < 0 ==> (r matches Err(e)
                && e is FileNotFound)),
            ({
                let k = find_name(old(self).entries(), name@);
                k >= 0 && old(self).entries()[k]@.encrypted && password is None
            }) ==> (r matches Err(e) && e is UnsupportedArchive),
            ({
                let k = find_name(old(self).entries(), name@);
                &&& k >= 0
                &&& !old(self).entries()[k]@.encrypted
                &&& content_locatable(old(self).source(), old(self).entries()[k]@)
                &&& !(old(self).entries()[k]@.compression_method is Unsupported)
                &&& old(self).entries()[k]@.aes_mode is None
            }) ==> r is Ok,
            (({
                let k = find_name(old(self).entries(), name@);
                &&& k >= 0
                &&& old(self).entries()[k]@.encrypted
                &&& content_locatable(old(self).source(), old(self).entries()[k]@)
                &&& !(old(self).entries()[k]@.compression_method is Unsupported)
                &&& old(self).entries()[k]@.aes_mode is None
            }) ==> (password matches Some(pw) ==> {
                let v = old(self).entries()[find_name(old(self).entries(), name@)]@;
                let raw = entry_raw_content(old(self).source(), v);
                if raw.len() < 12 {
                    r matches Err(e) && e is Io
                } else if !zipcrypto_reader_ok(
                    pw@,
                    raw,
                    v.crc32,
                    v.last_modified_time.timepart,
                    v.using_data_descriptor,
                ) {
                    r matches Err(e) && e is InvalidPassword
                } else {
                    r is Ok
                }
            })),
            (r matches Ok(f) ==> {
                &&& find_name(old(self).entries(), name@) >= 0
                &&& f.descriptor().file_name == name@
            }),
    {
        let found = lookup_name(&self.shared.files, name);
        let index = match found {
            Some(i) => i,
            None => {
                proof {
                    lemma_find_name(self.entries(), name@);
                }
                return Err(ZipError::FileNotFound);
            },
        };
        let table_len = self.shared.files.len();
        proof {
            lemma_find_name(self.entries(), name@);
            let k = find_name(self.entries(), name@);
            assert(k >= 0);
            assert(found == Some(k as usize));
            assert(k < table_len as int);
            assert(k == index as int);
            assert(self.entries()[k]@.file_name == self.entries()[k].file_name@);
        }
        let r = self.by_index_with_optional_password(index, password);
        r
    }

    /// The total uncompressed size of all entries, or `None` when any
    /// entry's size lives in a data descriptor and is unknown here.
    pub fn decompressed_size(&self) -> (r: Option<u128>)
        ensures
            (r is Some <==> total_decompressed(self.entries()) is Some),
            (r matches Some(t) ==> Some(t as int) == total_decompressed(self.entries())),
    {
        let mut total: u128 = 0;
        let n = self.shared.files.len();
        let mut i: usize = 0;
        while i < n
            invariant
                n == self.entries().len(),
                i <= n,
                total_decompressed(self.entries().take(i as int)) == Some(total as int),
                total <= i * 0xFFFFFFFFFFFFFFFF,
            decreases n - i,
        {
            proof {
                assert(self.entries().take(i + 1).drop_last() =~= self.entries().take(i as int));
                assert(self.entries().take(i + 1).last() == self.entries()[i as int]);
            }
            if self.shared.files[i].using_data_descriptor {
                proof {
                    lemma_total_none_extends(self.entries(), i + 1);
                }
                return None;
            }
            let x = self.shared.files[i].uncompressed_size;
            proof {
                assert(total + x <= (i + 1) * 0xFFFFFFFFFFFFFFFF) by (nonlinear_arith)
                    requires
                        total <= i * 0xFFFFFFFFFFFFFFFF,
                        x <= 0xFFFFFFFFFFFFFFFF,
                        i >= 0,
                ;
                assert((i + 1) * 0xFFFFFFFFFFFFFFFF < u128::MAX) by (nonlinear_arith)
                    requires
                        0 <= i < 0xFFFFFFFFFFFFFFFF,
                ;
            }
            total = total + x as u128;
            i = i + 1;
        }
        proof {
            assert(self.entries().take(n as int) =~= self.entries());
        }
        Some(total)
    }

    /// Copy everything before the central directory into `w`, returning
    /// the descriptors re-based onto `w`'s current end: local header and
    /// data offsets are shifted by it and the central-header cache is
    /// cleared, so the entries describe their new home.
    pub fn merge_contents(&self, w: &mut Vec<u8>) -> (r: ZipResult<Vec<ZipFileData>>)
        ensures
            (r is Ok && self.entries().len() > 0 ==> final(w)@ == old(w)@ + bounded_slice(
                self.source(),
                0,
                self.spec_dir_start(),
            )),
            (r is Err ==> final(w)@ == old(w)@),
            (self.entries().len() == 0 ==> (r matches Ok(v) && v@.len() == 0 && final(w)@ == old(
                w,
            )@)),
            (r is Ok <==> forall|k: int|
                0 <= k < self.entries().len() ==> ((#[trigger] self.entries()[k]@).header_start
                    + old(w)@.len() <= u64::MAX && (self.entries()[k]@.data_start matches Some(
                    ds,
                ) ==> ds + old(w)@.len() <= u64::MAX))),
            (r matches Err(e) ==> e is InvalidArchive),
            (r matches Ok(v) ==> v@.len() == self.entries().len()),
            (r matches Ok(v) ==> forall|k: int|
                0 <= k < v@.len() ==> #[trigger] v@[k]@ == (crate::types::EntryView {
                    header_start: (self.entries()[k]@.header_start + old(w)@.len()) as u64,
                    central_header_start: 0,
                    data_start: match self.entries()[k]@.data_start {
                        Some(ds) => Some((ds + old(w)@.len()) as u64),
                        None => None,
                    },
                    ..self.entries()[k]@
                })),
    {
        if self.shared.files.len() == 0 {
            return Ok(Vec::new());
        }
        let new_start = w.len() as u64;
        let mut new_files: Vec<ZipFileData> = Vec::new();
        let n = self.shared.files.len();
        let mut i: usize = 0;
        while i < n
            invariant
                n == self.entries().len(),
                i <= n,
                new_start == old(w)@.len(),
                w@ == old(w)@,
                new_files@.len() == i,
                forall|k: int|
                    0 <= k < i ==> ((#[trigger] self.entries()[k]@).header_start + new_start
                        <= u64::MAX && (self.entries()[k]@.data_start matches Some(ds) ==> ds
                        + new_start <= u64::MAX)),
                forall|k: int|
                    0 <= k < i ==> #[trigger] new_files@[k]@ == (crate::types::EntryView {
                        header_start: (self.entries()[k]@.header_start + new_start) as u64,
                        central_header_start: 0,
                        data_start: match self.entries()[k]@.data_start {
                            Some(ds) => Some((ds + new_start) as u64),
                            None => None,
                        },
                        ..self.entries()[k]@
                    }),
            decreases n - i,
        {
            let mut f = self.shared.files[i].clone_entry();
            f.header_start = match f.header_start.checked_add(new_start) {
                Some(h) => h,
                None => {
                    proof {
                        assert(self.entries()[i as int]@.header_start + new_start > u64::MAX);
                    }
                    return Err(
                        ZipError::InvalidArchive(
                            "new header start from merge would have been too large",
                        ),
                    );
                },
            };
            f.central_header_start = 0;
            match f.data_start {
                Some(ds) => {
                    match ds.checked_add(new_start) {
                        Some(nds) => {
                            f.data_start = Some(nds);
                        },
                        None => {
                            proof {
                                assert(self.entries()[i as int]@.data_start matches Some(ds0)
                                    && ds0 + new_start > u64::MAX);
                            }
                            return Err(
                                ZipError::InvalidArchive(
                                    "new data start from merge would have been too large",
                                ),
                            );
                        },
                    }
                },
                None => {},
            }
            new_files.push(f);
            i = i + 1;
        }
        let len = self.reader.len();
        let end: usize = if self.shared.dir_start <= len as u64 {
            self.shared.dir_start as usize
        } else {
            len
        };
        w.extend_from_slice(&self.reader.as_slice()[0..end]);
        proof {
            assert(w@ =~= old(w)@ + bounded_slice(self.source(), 0, self.spec_dir_start()));
        }
        Ok(new_files)
    }
}

/// Rebuilding after a merge: the content region that `merge_contents`
/// copies, followed by the source's own directory and footer bytes, is the
/// source archive itself — so reopening what a faithful writer appends the
/// directory to reads back the same entries.
pub proof fn lemma_merge_rebuild(s: Seq<u8>, dir_start: u64)
    requires
        dir_start <= s.len(),
    ensures
        bounded_slice(s, 0, dir_start) + s.subrange(dir_start as int, s.len() as int) == s,
{
    assert(bounded_slice(s, 0, dir_start) + s.subrange(dir_start as int, s.len() as int) =~= s);
}

/// An archive whose directory run repeats no name holds exactly as many
/// entries as its footer view declared: only a repeated name can collapse
/// entries of the table.
pub proof fn lemma_len_matches_declared_count(
    s: Seq<u8>,
    sh: Shared,
    count: usize,
    raw: Seq<ZipFileData>,
)
    requires
        chain_entries(s, sh.dir_start as int, count as int, sh.offset, raw),
        sh.files@ == dedup_keyed(raw),
        names_unique(raw),
    ensures
        sh.files@.len() == count,
{
    lemma_dedup_distinct(raw);
}

/// Name resolution: every name the directory holds is found, and the
/// position it resolves to carries exactly that name.
pub proof fn lemma_name_resolution(files: Seq<ZipFileData>, name: Seq<char>)
    requires
        exists|k: int| 0 <= k < files.len() && (#[trigger] files[k]).file_name@ == name,
    ensures
        find_name(files, name) >= 0,
        files[find_name(files, name)].file_name@ == name,
{
    lemma_find_name(files, name);
    if find_name(files, name) < 0 {
        let k = choose|k: int| 0 <= k < files.len() && (#[trigger] files[k]).file_name@ == name;
        assert(files[k].file_name@ != name);
    }
}

/// The total uncompressed size of a descriptor run, or `None` when an
/// entry defers its size to a data descriptor.
pub open spec fn total_decompressed(files: Seq<ZipFileData>) -> Option<int>
    decreases files.len(),
{
    if files.len() == 0 {
        Some(0)
    } else {
        match total_decompressed(files.drop_last()) {
            None => None,
            Some(t) => {
                if files.last().using_data_descriptor {
                    None
                } else {
                    Some(t + files.last().uncompressed_size)
                }
            },
        }
    }
}

/// Once a prefix's total is unknown, the whole total is unknown.
proof fn lemma_total_none_extends(files: Seq<ZipFileData>, k: int)
    requires
        0 <= k <= files.len(),
        total_decompressed(files.take(k)) is None,
    ensures
        total_decompressed(files) is None,
    decreases files.len() - k,
{
    if k == files.len() {
        assert(files.take(k) =~= files);
    } else {
        assert(files.take(k + 1).drop_last() =~= files.take(k));
        assert(total_decompressed(files.take(k + 1)) is None);
        lemma_total_none_extends(files, k + 1);
    }
}

/// The position of the `i`-th header of a run.
pub open spec fn chain_pos(s: Seq<u8>, start: int, i: int) -> int
    decreases i,
{
    if i <= 0 {
        start
    } else {
        cd_next(s, chain_pos(s, start, i - 1))
    }
}

/// Stepping the start of a run forward steps every position with it.
proof fn lemma_chain_pos_shift(s: Seq<u8>, start: int, i: int)
    requires
        i >= 1,
    ensures
        chain_pos(s, cd_next(s, start), i - 1) == chain_pos(s, start, i),
    decreases i,
{
    if i == 1 {
        assert(chain_pos(s, cd_next(s, start), 0) == cd_next(s, start));
        assert(chain_pos(s, start, 1) == cd_next(s, chain_pos(s, start, 0)));
    } else {
        lemma_chain_pos_shift(s, start, i - 1);
        assert(chain_pos(s, cd_next(s, start), i - 1) == cd_next(
            s,
            chain_pos(s, cd_next(s, start), i - 2),
        ));
        assert(chain_pos(s, start, i) == cd_next(s, chain_pos(s, start, i - 1)));
    }
}

/// Extending a decoded run by one more header keeps it a decoded run.
proof fn lemma_chain_snoc(
    s: Seq<u8>,
    start: int,
    i: int,
    off: u64,
    raw: Seq<ZipFileData>,
    pos: int,
    entry: ZipFileData,
)
    requires
        0 <= i,
        chain_entries(s, start, i, off, raw),
        chain_pos(s, start, i) == pos,
        cdh_ok(s, pos, off),
        cdh_inner_entry(s, pos + 4, off, pos as u64, entry),
    ensures
        chain_entries(s, start, i + 1, off, raw.push(entry)),
    decreases i,
{
    let p = raw.push(entry);
    if i == 0 {
        assert(chain_pos(s, start, 0) == start);
        assert(p.len() == 1);
        assert(p[0] == entry);
        assert(p.drop_first() =~= Seq::<ZipFileData>::empty());
        assert(chain_entries(s, cd_next(s, start), 0, off, p.drop_first()));
        assert(chain_entries(s, start, 1, off, p));
    } else {
        assert(p[0] == raw[0]);
        assert(p.drop_first() =~= raw.drop_first().push(entry));
        lemma_chain_pos_shift(s, start, i);
        lemma_chain_snoc(s, cd_next(s, start), i - 1, off, raw.drop_first(), pos, entry);
        assert(chain_entries(s, cd_next(s, start), i, off, p.drop_first()));
        assert(chain_entries(s, start, i + 1, off, p));
    }
}

} // verus!

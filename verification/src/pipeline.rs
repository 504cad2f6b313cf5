//! The decisions of the staged parallel extractor: which entries are
//! materialized, under which relative paths, how the read work is split
//! into contiguous chunks, and when an intermediate payload spills to a
//! temporary file. The stages themselves run outside this library; they
//! feed these functions plain values and act on the answers.

use vstd::prelude::*;

use crate::errors::{ZipError, ZipResult};
use crate::paths::spec_enclosed_name;
use crate::types::ZipFileData;

verus! {

/// Payloads smaller than this stay in memory between the read and
/// decompress stages.
pub const SPOOL_THRESHOLD: u64 = 2000;

/// Decompressed payloads smaller than this stay in memory between the
/// decompress and write stages.
pub const UNCOMPRESSED_SPOOL_THRESHOLD: u64 = 100000;

/// Whether a payload of this size is kept in memory rather than spilled
/// to a backing file.
pub fn spool_in_memory(uncompressed_size: u64, threshold: u64) -> (r: bool)
    ensures
        r == (uncompressed_size < threshold),
{
    uncompressed_size < threshold
}

/// How many entries each reader worker takes: an even share, with the
/// whole batch as one chunk when there are more workers than entries.
pub fn chunk_len(n_items: usize, n_workers: usize) -> (r: usize)
    ensures
        (n_workers == 0 || n_items / n_workers == 0 ==> r == n_items),
        (n_workers > 0 && n_items / n_workers > 0 ==> r == n_items / n_workers),
{
    if n_workers == 0 {
        return n_items;
    }
    let c = n_items / n_workers;
    if c == 0 {
        n_items
    } else {
        c
    }
}

/// Whether a resolved path names a directory: it keeps a trailing slash.
pub open spec fn path_is_dir(p: Seq<char>) -> bool {
    p.len() > 0 && p.last() == '/'
}

/// The plan of an extraction: every entry's safe relative path in
/// directory order, and the non-directory entries to materialize, each
/// with its position in the table. Planning fails exactly when some entry
/// has no safe relative path.
pub fn plan_extraction(files: &Vec<ZipFileData>) -> (r: ZipResult<
    (Vec<String>, Vec<(usize, String)>),
>)
    ensures
        (r is Ok <==> forall|k: int|
            0 <= k < files@.len() ==> (#[trigger] spec_enclosed_name(files@[k]@.file_name))
                is Some),
        (r matches Err(e) ==> e is InvalidArchive),
        (r matches Ok((paths, stops)) ==> {
            &&& paths@.len() == files@.len()
            &&& forall|k: int|
                0 <= k < paths@.len() ==> Some(#[trigger] paths@[k]@) == spec_enclosed_name(
                    files@[k]@.file_name,
                )
            &&& forall|j: int|
                0 <= j < stops@.len() ==> {
                    &&& (#[trigger] stops@[j]).0 < files@.len()
                    &&& Some(stops@[j].1@) == spec_enclosed_name(
                        files@[stops@[j].0 as int]@.file_name,
                    )
                    &&& !path_is_dir(stops@[j].1@)
                }
            &&& forall|j1: int, j2: int|
                0 <= j1 < j2 < stops@.len() ==> (#[trigger] stops@[j1]).0 < (#[trigger] stops@[
                    j2
                ]).0
            &&& forall|k: int|
                0 <= k < files@.len() && !path_is_dir(
                    spec_enclosed_name(files@[k]@.file_name).unwrap(),
                ) ==> exists|j: int| 0 <= j < stops@.len() && (#[trigger] stops@[j]).0 == k
        }),
{
    let mut paths: Vec<String> = Vec::new();
    let mut stops: Vec<(usize, String)> = Vec::new();
    let n = files.len();
    let mut i: usize = 0;
    while i < n
        invariant
            n == files@.len(),
            i <= n,
            paths@.len() == i,
            forall|k: int|
                0 <= k < i ==> Some(#[trigger] paths@[k]@) == spec_enclosed_name(
                    files@[k]@.file_name,
                ),
            forall|k: int|
                0 <= k < i ==> (#[trigger] spec_enclosed_name(files@[k]@.file_name)) is Some,
            forall|j: int|
                0 <= j < stops@.len() ==> {
                    &&& (#[trigger] stops@[j]).0 < i
                    &&& Some(stops@[j].1@) == spec_enclosed_name(
                        files@[stops@[j].0 as int]@.file_name,
                    )
                    &&& !path_is_dir(stops@[j].1@)
                },
            forall|j1: int, j2: int|
                0 <= j1 < j2 < stops@.len() ==> (#[trigger] stops@[j1]).0 < (#[trigger] stops@[
                    j2
                ]).0,
            forall|k: int|
                0 <= k < i && !path_is_dir(spec_enclosed_name(files@[k]@.file_name).unwrap())
                    ==> exists|j: int| 0 <= j < stops@.len() && (#[trigger] stops@[j]).0 == k,
        decreases n - i,
    {
        let ghost stops0 = stops@;
        let name = files[i].file_name.as_str();
        let path = match crate::paths::enclosed_name_of(name) {
            Some(p) => p,
            None => {
                return Err(ZipError::InvalidArchive("Invalid file path"));
            },
        };
        let chars = crate::trusted::chars_of(path.as_str());
        let is_dir_path = chars.len() > 0 && chars[chars.len() - 1] == '/';
        proof {
            assert(is_dir_path == path_is_dir(path@));
        }
        if !is_dir_path {
            let copied = clone_string_here(&path);
            stops.push((i, copied));
            proof {
                assert forall|j: int| 0 <= j < stops@.len() implies {
                    &&& (#[trigger] stops@[j]).0 < i + 1
                    &&& Some(stops@[j].1@) == spec_enclosed_name(
                        files@[stops@[j].0 as int]@.file_name,
                    )
                    &&& !path_is_dir(stops@[j].1@)
                } by {
                    if j < stops0.len() {
                        assert(stops@[j] == stops0[j]);
                    }
                }
            }
        }
        proof {
            assert forall|k: int|
                0 <= k < i + 1 && !path_is_dir(spec_enclosed_name(files@[k]@.file_name).unwrap())
                implies exists|j: int| 0 <= j < stops@.len() && (#[trigger] stops@[j]).0 == k by {
                if k == i {
                    assert(path@ == spec_enclosed_name(files@[i as int]@.file_name).unwrap());
                    assert(!is_dir_path);
                    assert(stops@[stops@.len() - 1].0 == k);
                } else {
                    let j = choose|j: int| 0 <= j < stops0.len() && (#[trigger] stops0[j]).0 == k;
                    assert(stops@[j] == stops0[j]);
                    assert(stops@[j].0 == k);
                }
            }
        }
        paths.push(path);
        i = i + 1;
    }
    proof {
        if forall|k: int|
            0 <= k < files@.len() ==> (#[trigger] spec_enclosed_name(files@[k]@.file_name))
                is Some {
        }
    }
    Ok((paths, stops))
}

/// Copy one string.
fn clone_string_here(s: &String) -> (r: String)
    ensures
        r@ == s@,
{
    let chars = crate::trusted::chars_of(s.as_str());
    crate::trusted::string_from_chars(chars)
}

} // verus!

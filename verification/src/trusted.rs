//! The library's view of the outside helpers it leans on: substring search,
//! CRC-32, text decoding and the decompression codecs.
//!
//! Each function here is a thin wrapper whose body makes one outside call;
//! its contract states what that call returns and is taken on trust.

use vstd::prelude::*;

use crate::bytes::u32_le_at;

verus! {

/// Find the last position carrying the four little-endian bytes of `sig`.
///
/// Relies on memchr::memmem::rfind: the index of the last occurrence of the
/// needle in the haystack, or `None` when it does not occur.
#[verifier::external_body]
pub fn rfind_signature(haystack: &[u8], sig: u32) -> (r: Option<usize>)
    ensures
        r matches Some(i) ==> {
            &&& i + 4 <= haystack@.len()
            &&& u32_le_at(haystack@, i as int) == sig
            &&& forall|j: int|
                i < j && j + 4 <= haystack@.len() ==> u32_le_at(haystack@, j) != sig
        },
        r is None ==> forall|j: int|
            0 <= j && j + 4 <= haystack@.len() ==> u32_le_at(haystack@, j) != sig,
{
    let needle = sig.to_le_bytes();
    memchr::memmem::rfind(haystack, &needle)
}

/// Build the string consisting of exactly these characters.
///
/// Relies on String's FromIterator impl: collecting an iterator of chars
/// yields the string of those characters in order.
#[verifier::external_body]
pub fn string_from_chars(chars: Vec<char>) -> (r: String)
    ensures
        r@ == chars@,
{
    chars.into_iter().collect()
}

/// Whether two strings consist of the same characters.
///
/// Relies on str's PartialEq impl: two string slices are equal exactly when
/// they hold the same text.
#[verifier::external_body]
pub fn str_eq(a: &str, b: &str) -> (r: bool)
    ensures
        r == (a@ == b@),
{
    a == b
}

/// The characters of a string, in order.
///
/// Relies on str::chars: the iterator yields the characters of the string
/// from first to last.
#[verifier::external_body]
pub fn chars_of(s: &str) -> (r: Vec<char>)
    ensures
        r@ == s@,
{
    s.chars().collect()
}

/// The CRC-32 (ISO-HDLC polynomial) of a byte string.
pub uninterp spec fn crc32_of(b: Seq<u8>) -> u32;

/// Compute the CRC-32 of a byte string.
///
/// Relies on crc32fast::hash: the standard CRC-32 checksum, a function of
/// the input bytes alone.
#[verifier::external_body]
pub fn crc32(bytes: &[u8]) -> (r: u32)
    ensures
        r == crc32_of(bytes@),
{
    crc32fast::hash(bytes)
}

/// The lossy UTF-8 reading of a byte string.
pub uninterp spec fn utf8_lossy_of(b: Seq<u8>) -> Seq<char>;

/// Decode a byte string as UTF-8, replacing ill-formed sequences.
///
/// Relies on String::from_utf8_lossy: the decoding, with each ill-formed
/// sequence replaced by the replacement character, a function of the input
/// bytes alone.
#[verifier::external_body]
pub fn decode_utf8_lossy(bytes: &[u8]) -> (r: String)
    ensures
        r@ == utf8_lossy_of(bytes@),
        bytes@.len() == 0 ==> r@.len() == 0,
{
    String::from_utf8_lossy(bytes).into_owned()
}

/// The raw-deflate decoding of a byte string.
pub uninterp spec fn inflate_of(b: Seq<u8>) -> Seq<u8>;

/// Whether the codec accepts a byte string as a whole valid stream.
pub uninterp spec fn inflate_ok(b: Seq<u8>) -> bool;

/// Decompress a whole raw-deflate stream.
///
/// Relies on flate2's DeflateDecoder: reading it to the end yields the
/// decoding of the input, a function of the input bytes alone; a malformed
/// stream fails.
#[verifier::external_body]
pub fn inflate(bytes: &[u8]) -> (r: Result<Vec<u8>, String>)
    ensures
        r is Ok <==> inflate_ok(bytes@),
        r matches Ok(v) ==> v@ == inflate_of(bytes@),
{
    let mut decoder = flate2::read::DeflateDecoder::new(bytes);
    let mut out = Vec::new();
    match std::io::Read::read_to_end(&mut decoder, &mut out) {
        Ok(_) => Ok(out),
        Err(e) => Err(format!("{}", e)),
    }
}

/// The deflate64 decoding of a byte string.
pub uninterp spec fn inflate64_of(b: Seq<u8>) -> Seq<u8>;

/// Whether the codec accepts a byte string as a whole valid stream.
pub uninterp spec fn inflate64_ok(b: Seq<u8>) -> bool;

/// Decompress a whole deflate64 stream.
///
/// Relies on deflate64's Deflate64Decoder: reading it to the end yields the
/// decoding of the input, a function of the input bytes alone; a malformed
/// stream fails.
#[verifier::external_body]
pub fn inflate64(bytes: &[u8]) -> (r: Result<Vec<u8>, String>)
    ensures
        r is Ok <==> inflate64_ok(bytes@),
        r matches Ok(v) ==> v@ == inflate64_of(bytes@),
{
    let mut decoder = deflate64::Deflate64Decoder::new(bytes);
    let mut out = Vec::new();
    match std::io::Read::read_to_end(&mut decoder, &mut out) {
        Ok(_) => Ok(out),
        Err(e) => Err(format!("{}", e)),
    }
}

/// The bzip2 decoding of a byte string.
pub uninterp spec fn bunzip2_of(b: Seq<u8>) -> Seq<u8>;

/// Whether the codec accepts a byte string as a whole valid stream.
pub uninterp spec fn bunzip2_ok(b: Seq<u8>) -> bool;

/// Decompress a whole bzip2 stream.
///
/// Relies on bzip2's BzDecoder: reading it to the end yields the decoding
/// of the input, a function of the input bytes alone; a malformed stream
/// fails.
#[verifier::external_body]
pub fn bunzip2(bytes: &[u8]) -> (r: Result<Vec<u8>, String>)
    ensures
        r is Ok <==> bunzip2_ok(bytes@),
        r matches Ok(v) ==> v@ == bunzip2_of(bytes@),
{
    let mut decoder = bzip2::read::BzDecoder::new(bytes);
    let mut out = Vec::new();
    match std::io::Read::read_to_end(&mut decoder, &mut out) {
        Ok(_) => Ok(out),
        Err(e) => Err(format!("{}", e)),
    }
}

/// The zstd decoding of a byte string.
pub uninterp spec fn unzstd_of(b: Seq<u8>) -> Seq<u8>;

/// Whether the codec accepts a byte string as a whole valid stream.
pub uninterp spec fn unzstd_ok(b: Seq<u8>) -> bool;

/// Decompress a whole zstd stream.
///
/// Relies on zstd's stream Decoder: reading it to the end yields the
/// decoding of the input, a function of the input bytes alone; a malformed
/// stream fails.
#[verifier::external_body]
pub fn unzstd(bytes: &[u8]) -> (r: Result<Vec<u8>, String>)
    ensures
        r is Ok <==> unzstd_ok(bytes@),
        r matches Ok(v) ==> v@ == unzstd_of(bytes@),
{
    let mut out = Vec::new();
    match zstd::stream::read::Decoder::new(bytes) {
        Ok(mut decoder) => match std::io::Read::read_to_end(&mut decoder, &mut out) {
            Ok(_) => Ok(out),
            Err(e) => Err(format!("{}", e)),
        },
        Err(e) => Err(format!("{}", e)),
    }
}

} // verus!

//! Extracting the recognised fields from a response header.
//!
//! The input is the header as the framer delimits it: every byte of the
//! response up to, and not including, the blank line `\r\n\r\n`. Three things
//! are read from it, each by a literal search:
//!
//! * the status code, the token between the first and the second blank of the
//!   header;
//! * the content length, the value that follows the first `Content-Length: `;
//! * the cache flag, which is set exactly when the value that follows the
//!   first `Flexo-Payload-Origin: ` is `Cache`.
//!
//! The value of a field runs from the end of its keyword to the next carriage
//! return, or to the end of the header where no carriage return follows.

use vstd::prelude::*;
use crate::decimal::{parse_decimal, parse_decimal_spec};
use crate::search::{find_from, first_match, first_match_from, occurs_at};

verus! {

/// What a response header says about the response.
#[derive(Debug, Hash, Clone, Copy, PartialEq, Eq)]
pub struct HeaderResult {
    pub status_code: u32,
    pub content_length: usize,
    pub cached: bool,
}

/// Why a header could not be read.
#[derive(Debug, Hash, Clone, Copy, PartialEq, Eq)]
pub enum HeaderError {
    /// The header has no `Content-Length: ` field.
    MissingContentLength,
    /// The content length is not a decimal number that fits `usize`.
    InvalidContentLength,
    /// The header holds fewer than two blanks, so no status code is delimited.
    MissingStatus,
    /// The status code is not a decimal number that fits `u32`.
    InvalidStatus,
}

/// The carriage return, as a one-byte pattern.
pub open spec fn carriage_return() -> Seq<u8> {
    seq![13u8]
}

/// The blank, as a one-byte pattern.
pub open spec fn blank() -> Seq<u8> {
    seq![32u8]
}

/// The bytes of `Content-Length: `.
pub open spec fn content_length_keyword() -> Seq<u8> {
    seq![67u8, 111, 110, 116, 101, 110, 116, 45, 76, 101, 110, 103, 116, 104, 58, 32]
}

/// The bytes of `Flexo-Payload-Origin: `.
pub open spec fn payload_origin_keyword() -> Seq<u8> {
    seq![
        70u8, 108, 101, 120, 111, 45, 80, 97, 121, 108, 111, 97, 100, 45, 79, 114, 105, 103, 105,
        110, 58, 32,
    ]
}

/// The bytes of `Cache`, the origin value of a response served from the cache.
pub open spec fn cache_origin() -> Seq<u8> {
    seq![67u8, 97, 99, 104, 101]
}

/// Where the value that starts at `start` ends: at the next carriage return,
/// or at the end of the header.
pub open spec fn value_end(header: Seq<u8>, start: int) -> int {
    match first_match_from(header, carriage_return(), start) {
        Some(j) => j,
        None => header.len() as int,
    }
}

/// The value that follows the first occurrence of `keyword` in `header`.
pub open spec fn header_value(header: Seq<u8>, keyword: Seq<u8>) -> Option<Seq<u8>> {
    match first_match(header, keyword) {
        Some(i) => Some(
            header.subrange(i + keyword.len(), value_end(header, i + keyword.len())),
        ),
        None => None,
    }
}

/// The bytes between the first and the second blank of `header`.
pub open spec fn status_token(header: Seq<u8>) -> Option<Seq<u8>> {
    match first_match(header, blank()) {
        Some(i) => match first_match_from(header, blank(), i + 1) {
            Some(j) => Some(header.subrange(i + 1, j)),
            None => None,
        },
        None => None,
    }
}

/// The status code that `header` states.
pub open spec fn status_code_spec(header: Seq<u8>) -> Result<u32, HeaderError> {
    match status_token(header) {
        None => Err(HeaderError::MissingStatus),
        Some(token) => match parse_decimal_spec(token, u32::MAX as nat) {
            Some(n) => Ok(n as u32),
            None => Err(HeaderError::InvalidStatus),
        },
    }
}

/// The content length that `header` states.
pub open spec fn content_length_spec(header: Seq<u8>) -> Result<usize, HeaderError> {
    match header_value(header, content_length_keyword()) {
        None => Err(HeaderError::MissingContentLength),
        Some(value) => match parse_decimal_spec(value, usize::MAX as nat) {
            Some(n) => Ok(n as usize),
            None => Err(HeaderError::InvalidContentLength),
        },
    }
}

/// Whether `header` says that the payload came from the cache. A header
/// without the origin field says that it did not.
pub open spec fn cached_spec(header: Seq<u8>) -> bool {
    header_value(header, payload_origin_keyword()) == Some(cache_origin())
}

/// All that is read from `header`. A missing or malformed content length is
/// reported before a missing or malformed status code.
pub open spec fn parse_header_spec(header: Seq<u8>) -> Result<HeaderResult, HeaderError> {
    match content_length_spec(header) {
        Err(e) => Err(e),
        Ok(content_length) => match status_code_spec(header) {
            Err(e) => Err(e),
            Ok(status_code) => Ok(
                HeaderResult { status_code, content_length, cached: cached_spec(header) },
            ),
        },
    }
}

fn carriage_return_bytes() -> (k: &'static [u8])
    ensures
        k@ == carriage_return(),
{
    let text: &'static str = "\r";
    proof {
        reveal_strlit("\r");
        vstd::utf8::is_ascii_chars_encode_utf8(text@);
    }
    let k = text.as_bytes();
    assert(k@ =~= carriage_return());
    k
}

fn blank_bytes() -> (k: &'static [u8])
    ensures
        k@ == blank(),
{
    let text: &'static str = " ";
    proof {
        reveal_strlit(" ");
        vstd::utf8::is_ascii_chars_encode_utf8(text@);
    }
    let k = text.as_bytes();
    assert(k@ =~= blank());
    k
}

fn content_length_keyword_bytes() -> (k: &'static [u8])
    ensures
        k@ == content_length_keyword(),
{
    let text: &'static str = "Content-Length: ";
    proof {
        reveal_strlit("Content-Length: ");
        vstd::utf8::is_ascii_chars_encode_utf8(text@);
    }
    let k = text.as_bytes();
    assert(k@ =~= content_length_keyword());
    k
}

fn payload_origin_keyword_bytes() -> (k: &'static [u8])
    ensures
        k@ == payload_origin_keyword(),
{
    let text: &'static str = "Flexo-Payload-Origin: ";
    proof {
        reveal_strlit("Flexo-Payload-Origin: ");
        vstd::utf8::is_ascii_chars_encode_utf8(text@);
    }
    let k = text.as_bytes();
    assert(k@ =~= payload_origin_keyword());
    k
}

fn cache_origin_bytes() -> (k: &'static [u8])
    ensures
        k@ == cache_origin(),
{
    let text: &'static str = "Cache";
    proof {
        reveal_strlit("Cache");
        vstd::utf8::is_ascii_chars_encode_utf8(text@);
    }
    let k = text.as_bytes();
    assert(k@ =~= cache_origin());
    k
}

/// The value that follows the first occurrence of `keyword` in `header`:
/// the bytes from the end of the keyword to the next carriage return, or to
/// the end of the header. `None` exactly when the keyword does not occur.
pub fn get_header_value<'a>(header: &'a [u8], keyword: &[u8]) -> (r: Option<&'a [u8]>)
    ensures
        match r {
            Some(value) => header_value(header@, keyword@) == Some(value@),
            None => header_value(header@, keyword@) is None,
        },
{
    match find_from(header, keyword, 0) {
        None => None,
        Some(i) => {
            let start: usize = i + keyword.len();
            let end: usize = match find_from(header, carriage_return_bytes(), start) {
                Some(j) => j,
                None => header.len(),
            };
            Some(&header[start..end])
        },
    }
}

/// The status code: the token between the first and the second blank of
/// `header`, read as a decimal number.
///
/// `MissingStatus` exactly when the header holds fewer than two blanks;
/// `InvalidStatus` exactly when the token is not a decimal number that fits
/// `u32`.
pub fn status_code(header: &[u8]) -> (r: Result<u32, HeaderError>)
    ensures
        r == status_code_spec(header@),
{
    let sp = blank_bytes();
    let first: usize = match find_from(header, sp, 0) {
        Some(i) => i,
        None => {
            return Err(HeaderError::MissingStatus);
        },
    };
    let second: usize = match find_from(header, sp, first + 1) {
        Some(j) => j,
        None => {
            return Err(HeaderError::MissingStatus);
        },
    };
    match parse_decimal(&header[first + 1..second], 0xffff_ffff) {
        Some(n) => Ok(n as u32),
        None => Err(HeaderError::InvalidStatus),
    }
}

/// The content length: the value of the first `Content-Length: ` field, read
/// as a decimal number.
///
/// `MissingContentLength` exactly when the header has no such field;
/// `InvalidContentLength` exactly when the value is not a decimal number that
/// fits `usize`.
pub fn content_length(header: &[u8]) -> (r: Result<usize, HeaderError>)
    ensures
        r == content_length_spec(header@),
{
    match get_header_value(header, content_length_keyword_bytes()) {
        None => Err(HeaderError::MissingContentLength),
        Some(value) => match parse_decimal(value, usize::MAX as u64) {
            Some(n) => Ok(n as usize),
            None => Err(HeaderError::InvalidContentLength),
        },
    }
}

/// Whether the value of the first `Flexo-Payload-Origin: ` field is `Cache`.
/// A header without that field is not cached.
pub fn cached(header: &[u8]) -> (r: bool)
    ensures
        r == cached_spec(header@),
{
    match get_header_value(header, payload_origin_keyword_bytes()) {
        None => false,
        Some(value) => {
            let cache = cache_origin_bytes();
            let same = value.len() == cache.len() && occurs_at(value, cache, 0);
            proof {
                if same {
                    assert(value@.subrange(0, value@.len() as int) =~= value@);
                }
            }
            same
        },
    }
}

/// Reads status code, content length and cache flag from `header`.
///
/// Fails exactly when the content length or the status code cannot be read,
/// with the content length's error where both fail.
pub fn parse_header(header: &[u8]) -> (r: Result<HeaderResult, HeaderError>)
    ensures
        r == parse_header_spec(header@),
{
    let content_length = match content_length(header) {
        Ok(n) => n,
        Err(e) => {
            return Err(e);
        },
    };
    let status_code = match status_code(header) {
        Ok(n) => n,
        Err(e) => {
            return Err(e);
        },
    };
    Ok(HeaderResult { status_code, content_length, cached: cached(header) })
}

} // verus!

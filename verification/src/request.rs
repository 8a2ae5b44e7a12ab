//! Emitting a request: the header to send and the pieces it is sent in.
//!
//! A request is written to the connection as its header only. The header is
//! either generated from the path and the host, in one fixed form, or given
//! by the caller byte for byte, which lets a test send what no well-behaved
//! client would. A `ChunkPattern` says in what pieces the header goes out and
//! how long the sender rests between two pieces.

use vstd::prelude::*;
use vstd::utf8::encode_utf8;
use std::time::Duration;
use crate::framer::{separator, HEADER_SEPARATOR_STR};

verus! {

/// The endpoint that a session connects to.
#[derive(Debug, Hash, Clone, PartialEq, Eq)]
pub struct ConnAddr {
    pub host: String,
    pub port: u16,
}

/// Where the header of a request comes from.
pub enum ClientHeader {
    /// `GET <path> HTTP/1.1\r\nHost: <host>\r\n\r\n`, from the request's path
    /// and the session's host.
    AutoGenerated,
    /// These bytes exactly, the blank line at the end included if there is
    /// to be one.
    Custom(String),
}

/// One GET request of a session.
pub struct GetRequest {
    pub path: String,
    pub client_header: ClientHeader,
}

/// How a header is split into writes: pieces of `chunk_size` bytes, the last
/// one possibly shorter, with a rest of `wait_interval` between two writes.
/// The chunk size of a pattern is at least 1.
#[derive(Clone, Copy, PartialEq, Eq, PartialOrd, Ord, Hash)]
pub struct ChunkPattern {
    pub chunk_size: usize,
    pub wait_interval: Duration,
}

/// The length of a duration in nanoseconds, as `Duration::as_nanos` gives it.
pub uninterp spec fn duration_nanos(d: Duration) -> nat;

/// Believed of `std::time::Duration::from_millis`, not proved: the duration
/// that it makes is that many milliseconds long.
pub assume_specification[ Duration::from_millis ](millis: u64) -> (d: Duration)
    ensures
        duration_nanos(d) == millis * 1_000_000,
;

/// Believed of `std::time::Duration::is_zero`, not proved: it says whether
/// the duration is no time at all.
pub assume_specification[ Duration::is_zero ](d: &Duration) -> (zero: bool)
    ensures
        zero == (duration_nanos(*d) == 0),
;

/// The bytes of `GET `.
pub open spec fn request_line_start() -> Seq<u8> {
    seq![71u8, 69, 84, 32]
}

/// The bytes of ` HTTP/1.1\r\nHost: `.
pub open spec fn request_line_end() -> Seq<u8> {
    seq![32u8, 72, 84, 84, 80, 47, 49, 46, 49, 13, 10, 72, 111, 115, 116, 58, 32]
}

/// The generated header: `GET <path> HTTP/1.1\r\nHost: <host>\r\n\r\n`, with
/// path and host in UTF-8.
pub open spec fn generated_header(path: Seq<char>, host: Seq<char>) -> Seq<u8> {
    request_line_start() + encode_utf8(path) + request_line_end() + encode_utf8(host)
        + separator()
}

/// The header that goes out for `request` on a connection to `host`.
pub open spec fn request_header_spec(request: GetRequest, host: Seq<char>) -> Seq<u8> {
    match request.client_header {
        ClientHeader::AutoGenerated => generated_header(request.path@, host),
        ClientHeader::Custom(text) => encode_utf8(text@),
    }
}

/// The size of the pieces in which a header of `header_len` bytes goes out:
/// what the pattern says, and the whole header at once without a pattern.
pub open spec fn effective_chunk_size(pattern: Option<ChunkPattern>, header_len: nat) -> nat {
    match pattern {
        Some(p) => p.chunk_size as nat,
        None => header_len,
    }
}

/// The rest before a write that is not the first of its header: the
/// pattern's interval, unless that is zero or there is no pattern.
pub open spec fn pause_between(pattern: Option<ChunkPattern>) -> Option<Duration> {
    match pattern {
        Some(p) => if duration_nanos(p.wait_interval) == 0 {
            None
        } else {
            Some(p.wait_interval)
        },
        None => None,
    }
}

/// Where the piece that starts at `start` ends, in a header of `len` bytes.
pub open spec fn chunk_end(len: nat, start: nat, chunk_size: nat) -> nat {
    if len - start < chunk_size {
        len
    } else {
        start + chunk_size
    }
}

fn append(out: &mut Vec<u8>, bytes: &[u8])
    ensures
        final(out)@ == old(out)@ + bytes@,
{
    let mut i: usize = 0;
    while i < bytes.len()
        invariant
            i <= bytes.len(),
            out@ == old(out)@ + bytes@.take(i as int),
        decreases bytes.len() - i,
    {
        out.push(bytes[i]);
        i += 1;
        assert(bytes@.take(i as int) =~= bytes@.take(i - 1).push(bytes@[i - 1]));
    }
    assert(bytes@.take(i as int) =~= bytes@);
}

/// The header that goes out for `request` on a connection to `host`.
pub fn request_header(request: &GetRequest, host: &str) -> (header: Vec<u8>)
    ensures
        header@ == request_header_spec(*request, host@),
{
    let mut header: Vec<u8> = Vec::new();
    match &request.client_header {
        ClientHeader::AutoGenerated => {
            let start: &'static str = "GET ";
            let end: &'static str = " HTTP/1.1\r\nHost: ";
            let blank_line: &'static str = HEADER_SEPARATOR_STR;
            proof {
                reveal_strlit("GET ");
                reveal_strlit(" HTTP/1.1\r\nHost: ");
                reveal_strlit("\r\n\r\n");
                vstd::utf8::is_ascii_chars_encode_utf8(start@);
                vstd::utf8::is_ascii_chars_encode_utf8(end@);
                vstd::utf8::is_ascii_chars_encode_utf8(blank_line@);
                assert(encode_utf8(start@) =~= request_line_start());
                assert(encode_utf8(end@) =~= request_line_end());
                assert(encode_utf8(blank_line@) =~= separator());
            }
            append(&mut header, start.as_bytes());
            append(&mut header, request.path.as_str().as_bytes());
            append(&mut header, end.as_bytes());
            append(&mut header, host.as_bytes());
            append(&mut header, blank_line.as_bytes());
        },
        ClientHeader::Custom(text) => {
            append(&mut header, text.as_str().as_bytes());
        },
    }
    header
}

/// The piece of `header` that starts at `start`: `chunk_size` bytes, or what
/// is left of the header where that is less.
pub fn next_chunk<'a>(header: &'a [u8], start: usize, chunk_size: usize) -> (chunk: &'a [u8])
    requires
        start <= header.len(),
    ensures
        chunk@ == header@.subrange(
            start as int,
            chunk_end(header@.len(), start as nat, chunk_size as nat) as int,
        ),
{
    let end: usize = if header.len() - start < chunk_size {
        header.len()
    } else {
        start + chunk_size
    };
    &header[start..end]
}

} // verus!

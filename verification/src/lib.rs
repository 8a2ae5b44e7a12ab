//! A minimal HTTP/1.1 client for probing a server at the level of the wire.
//!
//! The client sends GET requests over one connection, in pieces of a chosen
//! size, delimits each response header without reading past it, reads status
//! code, content length and cache flag from the header, and hashes the body
//! as it streams by. The library holds the logic only: it neither opens nor
//! reads a socket. A `Session` says what is to be done on the connection and
//! is told what came of it.

pub mod body;
pub mod decimal;
pub mod digest;
pub mod framer;
pub mod header;
pub mod request;
pub mod response;
pub mod search;
pub mod session;
pub mod transcript;

pub use body::{BodyResult, BodyStep, BodyStreamer};
pub use framer::{Framing, HeaderFramer, HEADER_SEPARATOR_STR};
pub use header::{
    cached, content_length, get_header_value, parse_header, status_code, HeaderError,
    HeaderResult,
};
pub use request::{ChunkPattern, ClientHeader, ConnAddr, GetRequest};
pub use session::{
    http_get, http_get_with_header_chunked, Action, Event, GetRequestTest, HttpGetResult, Phase,
    Session, SessionError,
};

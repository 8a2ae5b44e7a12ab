//! Delimiting a response header on a byte stream.
//!
//! The header ends with the first blank line, the four bytes `\r\n\r\n`. The
//! framer is handed the stream one byte at a time and says after each byte
//! whether the header is complete, so that the reader of the stream never
//! takes a byte of the body while it looks for the end of the header. A
//! header, blank line included, may not be longer than `MAX_HEADER_SIZE`.

use vstd::prelude::*;
use crate::search::{first_match, lemma_first_match_unique, lemma_matches_at_extend, matches_at, occurs_at};

verus! {

/// The largest number of bytes that a header may take, its blank line included.
pub const MAX_HEADER_SIZE: usize = 4096;

/// The blank line that ends a header, as text.
pub const HEADER_SEPARATOR_STR: &'static str = "\r\n\r\n";

/// The blank line that ends a header: `\r\n\r\n`.
pub open spec fn separator() -> Seq<u8> {
    seq![13u8, 10, 13, 10]
}

/// `read` ends with the blank line.
pub open spec fn ends_with_separator(read: Seq<u8>) -> bool {
    matches_at(read, separator(), read.len() - 4)
}

/// How far the framing of a header has come.
#[derive(Debug, Clone, Copy, PartialEq, Eq)]
pub enum Framing {
    /// The blank line has not been read yet, and there is room for more.
    Incomplete,
    /// The bytes read end with the blank line.
    Complete,
    /// `MAX_HEADER_SIZE` bytes were read without a blank line.
    TooLarge,
}

/// How far framing has come once the bytes `read` have been taken.
pub open spec fn framing(read: Seq<u8>) -> Framing {
    if ends_with_separator(read) {
        Framing::Complete
    } else if read.len() >= MAX_HEADER_SIZE {
        Framing::TooLarge
    } else {
        Framing::Incomplete
    }
}

/// The blank line occurs in `read` at the very end or not at all, and `read`
/// is no longer than a header may be. This holds of what a framer has read,
/// because it stops at the first blank line.
pub open spec fn stops_at_separator(read: Seq<u8>) -> bool {
    &&& read.len() <= MAX_HEADER_SIZE
    &&& forall|i: int| #[trigger] matches_at(read, separator(), i) ==> i + 4 == read.len()
}

/// The header in what a framer has read: all but the blank line at the end.
pub open spec fn header_of(read: Seq<u8>) -> Seq<u8> {
    read.take(read.len() - 4)
}

/// Where a framer stopped, the stream holds its first blank line.
pub proof fn lemma_stops_at_first_separator(read: Seq<u8>)
    requires
        stops_at_separator(read),
        ends_with_separator(read),
    ensures
        first_match(read, separator()) == Some(read.len() - 4),
{
    lemma_first_match_unique(read, separator(), 0, read.len() - 4);
}

/// One more byte after an incomplete header leaves the blank line at the end
/// or nowhere.
pub proof fn lemma_stops_at_separator_push(read: Seq<u8>, byte: u8)
    requires
        stops_at_separator(read),
        framing(read) is Incomplete,
    ensures
        stops_at_separator(read.push(byte)),
{
    let next = read.push(byte);
    assert forall|i: int| #[trigger] matches_at(next, separator(), i) implies i + 4 == next.len() by {
        if i + 4 <= read.len() {
            assert(next =~= read + seq![byte]);
            lemma_matches_at_extend(read, seq![byte], separator(), i);
        }
    }
}

fn separator_bytes() -> (k: &'static [u8])
    ensures
        k@ == separator(),
{
    let text: &'static str = HEADER_SEPARATOR_STR;
    proof {
        reveal_strlit("\r\n\r\n");
        vstd::utf8::is_ascii_chars_encode_utf8(text@);
    }
    let k = text.as_bytes();
    assert(k@ =~= separator());
    k
}

/// The bytes of a response header read so far, up to its blank line.
pub struct HeaderFramer {
    buf: Vec<u8>,
}

impl View for HeaderFramer {
    type V = Seq<u8>;

    /// The bytes read so far.
    closed spec fn view(&self) -> Seq<u8> {
        self.buf@
    }
}

impl HeaderFramer {
    /// The framer stopped at the first blank line, if it has read one.
    pub open spec fn wf(&self) -> bool {
        stops_at_separator(self@)
    }

    /// A framer that has read nothing.
    pub fn new() -> (framer: HeaderFramer)
        ensures
            framer@ == Seq::<u8>::empty(),
            framer.wf(),
    {
        HeaderFramer { buf: Vec::new() }
    }

    /// How far framing has come.
    pub fn status(&self) -> (status: Framing)
        ensures
            status == framing(self@),
    {
        let len: usize = self.buf.len();
        if len >= 4 && occurs_at(self.buf.as_slice(), separator_bytes(), len - 4) {
            Framing::Complete
        } else if len >= MAX_HEADER_SIZE {
            Framing::TooLarge
        } else {
            Framing::Incomplete
        }
    }

    /// Takes the next byte of the stream and says how far framing has come.
    ///
    /// The byte is taken only while the header is incomplete: a framer that is
    /// complete or too large stays as it is.
    pub fn push(&mut self, byte: u8) -> (status: Framing)
        requires
            old(self).wf(),
        ensures
            final(self).wf(),
            final(self)@ == if framing(old(self)@) is Incomplete {
                old(self)@.push(byte)
            } else {
                old(self)@
            },
            status == framing(final(self)@),
    {
        if let Framing::Incomplete = self.status() {
            proof {
                lemma_stops_at_separator_push(self@, byte);
            }
            self.buf.push(byte);
        }
        self.status()
    }

    /// Everything read so far.
    pub fn bytes(&self) -> (bytes: &[u8])
        ensures
            bytes@ == self@,
    {
        self.buf.as_slice()
    }

    /// The header, without its blank line, once it is complete.
    pub fn header(&self) -> (header: Option<&[u8]>)
        ensures
            match header {
                Some(bytes) => framing(self@) is Complete && bytes@ == header_of(self@),
                None => !(framing(self@) is Complete),
            },
    {
        match self.status() {
            Framing::Complete => {
                let len: usize = self.buf.len();
                let bytes = &self.buf.as_slice()[0..len - 4];
                Some(bytes)
            },
            _ => None,
        }
    }
}

} // verus!

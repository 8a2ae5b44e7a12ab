//! Streaming a response body into a digest.
//!
//! A body of `expected` bytes is read in increments of at most `BUF_SIZE`
//! bytes. Each increment goes into a running SHA-256 and is then dropped, so
//! the body is never held in memory as a whole. The streamer asks for no byte
//! beyond the body, and a body is done only when every one of its bytes has
//! arrived: a read that brings nothing before that is the peer closing early.

use vstd::prelude::*;
use crate::digest::{absorbed, hasher_finalize, hasher_new, hasher_update, sha256, Sha256Hasher};

verus! {

/// The largest number of bytes that one read of a body asks for.
pub const BUF_SIZE: usize = 4096;

/// What was read of a body: its SHA-256 digest and its length.
#[derive(Debug, Hash, Clone, PartialEq, Eq)]
pub struct BodyResult {
    pub sha: Vec<u8>,
    pub size: usize,
}

/// A `BodyResult` as a mathematical value.
pub struct BodyResultView {
    pub sha: Seq<u8>,
    pub size: nat,
}

impl View for BodyResult {
    type V = BodyResultView;

    open spec fn view(&self) -> BodyResultView {
        BodyResultView { sha: self.sha@, size: self.size as nat }
    }
}

/// The result of reading the body `body` in full.
pub open spec fn body_result_of(body: Seq<u8>) -> BodyResultView {
    BodyResultView { sha: sha256(body), size: body.len() }
}

/// How many bytes the next read of a body asks for when `remaining` bytes are
/// still to come.
pub open spec fn read_size(remaining: nat) -> nat {
    if remaining < BUF_SIZE {
        remaining
    } else {
        BUF_SIZE as nat
    }
}

/// How far a body has come: its length and the bytes that have arrived.
pub struct BodyProgress {
    pub expected: nat,
    pub data: Seq<u8>,
}

impl BodyProgress {
    /// The number of bytes that are still to come.
    pub open spec fn remaining(self) -> nat {
        (self.expected - self.data.len()) as nat
    }

    /// What becomes of the progress when a read brings `data`, and what the
    /// streamer says of it.
    pub open spec fn feed(self, data: Seq<u8>) -> (BodyProgress, BodyStep) {
        if data.len() > read_size(self.remaining()) {
            (self, BodyStep::Overrun)
        } else if self.remaining() == 0 {
            (self, BodyStep::Complete)
        } else if data.len() == 0 {
            (self, BodyStep::Closed)
        } else {
            let next = BodyProgress { expected: self.expected, data: self.data + data };
            (
                next,
                if next.remaining() == 0 {
                    BodyStep::Complete
                } else {
                    BodyStep::Incomplete
                },
            )
        }
    }
}

/// What the streamer says of a read.
#[derive(Debug, Clone, Copy, PartialEq, Eq)]
pub enum BodyStep {
    /// The bytes were taken and more are to come.
    Incomplete,
    /// Every byte of the body has arrived.
    Complete,
    /// The read brought nothing although bytes are still to come: the peer
    /// closed early. Nothing was taken.
    Closed,
    /// The read brought more bytes than were asked for. Nothing was taken.
    Overrun,
}

/// A body on its way into a digest.
pub struct BodyStreamer {
    hasher: Sha256Hasher,
    expected: usize,
    received: usize,
}

impl View for BodyStreamer {
    type V = BodyProgress;

    closed spec fn view(&self) -> BodyProgress {
        BodyProgress { expected: self.expected as nat, data: absorbed(self.hasher) }
    }
}

impl BodyStreamer {
    /// The streamer's count of bytes is the number of bytes it has hashed.
    pub closed spec fn counted(&self) -> bool {
        self.received == absorbed(self.hasher).len()
    }

    /// No more bytes have arrived than the body has.
    pub open spec fn wf(&self) -> bool {
        &&& self.counted()
        &&& self@.data.len() <= self@.expected
        &&& self@.expected <= usize::MAX
    }

    /// A streamer for a body of `expected` bytes, of which none has arrived.
    pub fn new(expected: usize) -> (streamer: BodyStreamer)
        ensures
            streamer.wf(),
            streamer@ == (BodyProgress { expected: expected as nat, data: Seq::empty() }),
    {
        BodyStreamer { hasher: hasher_new(), expected, received: 0 }
    }

    /// The number of bytes that are still to come.
    pub fn remaining(&self) -> (n: usize)
        requires
            self.wf(),
        ensures
            n == self@.remaining(),
    {
        self.expected - self.received
    }

    /// The number of bytes that the next read is to ask for: what is still to
    /// come, but no more than `BUF_SIZE`.
    pub fn next_read(&self) -> (n: usize)
        requires
            self.wf(),
        ensures
            n == read_size(self@.remaining()),
    {
        let remaining = self.remaining();
        if remaining < BUF_SIZE {
            remaining
        } else {
            BUF_SIZE
        }
    }

    /// Takes what a read brought.
    ///
    /// The bytes go into the digest when they are no more than were asked
    /// for and at least one, while the body is incomplete. Otherwise nothing
    /// is taken and the step says why.
    pub fn feed(&mut self, data: &[u8]) -> (step: BodyStep)
        requires
            old(self).wf(),
        ensures
            final(self).wf(),
            (final(self)@, step) == old(self)@.feed(data@),
    {
        if data.len() > self.next_read() {
            return BodyStep::Overrun;
        }
        if self.received == self.expected {
            return BodyStep::Complete;
        }
        if data.len() == 0 {
            return BodyStep::Closed;
        }
        hasher_update(&mut self.hasher, data);
        self.received = self.received + data.len();
        if self.received == self.expected {
            BodyStep::Complete
        } else {
            BodyStep::Incomplete
        }
    }

    /// The digest and the length of the body, once all of it has arrived.
    pub fn finish(self) -> (result: Option<BodyResult>)
        requires
            self.wf(),
        ensures
            match result {
                Some(body) => self@.remaining() == 0 && body@ == body_result_of(self@.data),
                None => self@.remaining() > 0,
            },
    {
        if self.received == self.expected {
            Some(BodyResult { sha: hasher_finalize(self.hasher), size: self.received })
        } else {
            None
        }
    }
}

} // verus!

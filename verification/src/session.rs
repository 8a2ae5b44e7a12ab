//! Driving one connection through a sequence of GET requests.
//!
//! A session owns no socket. It is a state machine: the driver performs what
//! the session asks for (`Action`) on the one connection of the session and
//! reports what came of it (`Event`); the session decides what happens next.
//! For each request, in order, the session sends the header in pieces, reads
//! the response header byte by byte up to its blank line, reads the fields,
//! and streams the body, if there is one, into a digest. When the last
//! request is done it hands the results over, all at once and only once.
//!
//! Whatever goes wrong ends the session for good with `Action::Abort`: an
//! I/O failure, a peer that closes early, a header that is too long or
//! cannot be read, a driver that reports what was not asked for.

use vstd::prelude::*;
use std::time::Duration;
use crate::body::{
    body_result_of, read_size, BodyProgress, BodyResult, BodyResultView, BodyStep, BodyStreamer,
};
use crate::framer::{framing, header_of, stops_at_separator, Framing, HeaderFramer};
use crate::header::{parse_header, parse_header_spec, HeaderError, HeaderResult};
use crate::request::{
    chunk_end, duration_nanos, effective_chunk_size, next_chunk, pause_between, request_header,
    request_header_spec, ChunkPattern, ConnAddr, GetRequest,
};

verus! {

/// How long the exchange of a test case may take where the test case sets
/// no timeout, in milliseconds.
pub const DEFAULT_TIMEOUT_MILLIS: u64 = 5000;

/// One test case: the endpoint, the requests to make on one connection to
/// it, in order, and how long the whole exchange may take.
pub struct GetRequestTest {
    pub conn_addr: ConnAddr,
    pub get_requests: Vec<GetRequest>,
    pub timeout: Option<Duration>,
}

/// The outcome of one request: what the response header said, and the digest
/// of the body where the response has one.
#[derive(Debug, Hash, Clone, PartialEq, Eq)]
pub struct HttpGetResult {
    pub header_result: HeaderResult,
    pub payload_result: Option<BodyResult>,
}

/// An `HttpGetResult` as a mathematical value.
pub struct HttpGetResultView {
    pub header_result: HeaderResult,
    pub payload_result: Option<BodyResultView>,
}

impl View for HttpGetResult {
    type V = HttpGetResultView;

    open spec fn view(&self) -> HttpGetResultView {
        HttpGetResultView {
            header_result: self.header_result,
            payload_result: match self.payload_result {
                Some(body) => Some(body@),
                None => None,
            },
        }
    }
}

/// The results in `results`, as mathematical values.
pub open spec fn results_view(results: Seq<HttpGetResult>) -> Seq<HttpGetResultView> {
    results.map_values(|r: HttpGetResult| r@)
}

/// Why a session was given up.
#[derive(Debug, Clone, Copy, PartialEq, Eq)]
pub enum SessionError {
    /// The driver reported that connecting, writing or reading failed.
    Connection,
    /// A read brought nothing before the blank line of a header was seen.
    PeerClosed,
    /// A header went on for `MAX_HEADER_SIZE` bytes without a blank line.
    HeaderTooLarge,
    /// A header was delimited but could not be read.
    Header(HeaderError),
    /// A read brought nothing before the body was complete.
    ShortBody,
    /// The driver reported something that does not answer the session's last
    /// action, or a read that brought more bytes than were asked for.
    Protocol,
}

/// What the driver reports to the session.
pub enum Event {
    /// The driver is ready to begin.
    Start,
    /// The connection is open.
    Connected,
    /// The piece was written.
    Sent,
    /// A read returned these bytes; none at all where the peer has closed.
    Received(Vec<u8>),
    /// Connecting, writing or reading failed.
    Failed,
}

/// An `Event` as a mathematical value.
pub enum EventView {
    Start,
    Connected,
    Sent,
    Received(Seq<u8>),
    Failed,
}

impl View for Event {
    type V = EventView;

    open spec fn view(&self) -> EventView {
        match *self {
            Event::Start => EventView::Start,
            Event::Connected => EventView::Connected,
            Event::Sent => EventView::Sent,
            Event::Received(data) => EventView::Received(data@),
            Event::Failed => EventView::Failed,
        }
    }
}

/// What the session asks the driver to do next.
pub enum Action {
    /// Open the connection to this endpoint and report `Connected`.
    Connect { host: String, port: u16 },
    /// Rest for `pause`, if there is one, then write `chunk` and report `Sent`.
    Send { chunk: Vec<u8>, pause: Option<Duration> },
    /// Read once, at most `max_len` bytes, and report `Received`.
    Receive { max_len: usize },
    /// Every request is done: these are the results, one for each request,
    /// in the order of the requests.
    Finish { results: Vec<HttpGetResult> },
    /// The session is given up.
    Abort { error: SessionError },
}

/// An `Action` as a mathematical value.
pub enum ActionView {
    Connect { host: Seq<char>, port: u16 },
    Send { chunk: Seq<u8>, pause: Option<Duration> },
    Receive { max_len: nat },
    Finish { results: Seq<HttpGetResultView> },
    Abort { error: SessionError },
}

impl View for Action {
    type V = ActionView;

    open spec fn view(&self) -> ActionView {
        match *self {
            Action::Connect { host, port } => ActionView::Connect { host: host@, port },
            Action::Send { chunk, pause } => ActionView::Send { chunk: chunk@, pause },
            Action::Receive { max_len } => ActionView::Receive { max_len: max_len as nat },
            Action::Finish { results } => ActionView::Finish { results: results_view(results@) },
            Action::Abort { error } => ActionView::Abort { error },
        }
    }
}

/// Where a session stands.
#[derive(Debug, Clone, Copy, PartialEq, Eq)]
pub enum Phase {
    /// Nothing has happened yet.
    Idle,
    /// The driver was asked to connect.
    Connecting,
    /// A piece of the current request's header is being written.
    Sending,
    /// The header of the current response is being read.
    ReadingHeader,
    /// The body of the current response is being read.
    ReadingBody,
    /// The results have been handed over.
    Finished,
    /// The session was given up.
    Aborted,
}

/// A session as a mathematical value.
pub struct SessionView {
    /// The host to connect to.
    pub host: Seq<char>,
    /// The port to connect to.
    pub port: u16,
    /// The header of each request, in the order of the requests.
    pub headers: Seq<Seq<u8>>,
    /// How headers are split into writes; whole where there is no pattern.
    pub pattern: Option<ChunkPattern>,
    /// Where the session stands.
    pub phase: Phase,
    /// The number of requests that are done.
    pub done: nat,
    /// How many bytes of the current header have gone out.
    pub sent: nat,
    /// What has been read of the current response header, the blank line
    /// included once it has been read.
    pub read: Seq<u8>,
    /// What the current response header said, while its body is being read.
    pub head: Option<HeaderResult>,
    /// What has been read of the current body.
    pub body: Seq<u8>,
    /// The results of the requests that are done, until they are handed over.
    pub results: Seq<HttpGetResultView>,
}

impl SessionView {
    /// A session that has not begun.
    pub open spec fn initial(
        host: Seq<char>,
        port: u16,
        headers: Seq<Seq<u8>>,
        pattern: Option<ChunkPattern>,
    ) -> SessionView {
        SessionView {
            host,
            port,
            headers,
            pattern,
            phase: Phase::Idle,
            done: 0,
            sent: 0,
            read: Seq::empty(),
            head: None,
            body: Seq::empty(),
            results: Seq::empty(),
        }
    }

    /// The session is between `Start` and its end.
    pub open spec fn in_request(self) -> bool {
        self.phase is Sending || self.phase is ReadingHeader || self.phase is ReadingBody
    }

    /// What holds of every session.
    pub open spec fn wf(self) -> bool {
        &&& self.pattern matches Some(p) ==> p.chunk_size > 0
        &&& self.done <= self.headers.len()
        &&& self.phase is Finished ==> self.done == self.headers.len() && self.results.len() == 0
        &&& !(self.phase is Finished || self.phase is Aborted) ==> self.results.len()
            == self.done
        &&& self.in_request() ==> self.done < self.headers.len()
        &&& self.phase is Sending ==> self.sent <= self.headers[self.done as int].len()
        &&& self.phase is ReadingHeader ==> {
            &&& stops_at_separator(self.read)
            &&& framing(self.read) is Incomplete
        }
        &&& self.phase is ReadingBody ==> {
            &&& stops_at_separator(self.read)
            &&& framing(self.read) is Complete
            &&& self.head matches Some(h)
            &&& parse_header_spec(header_of(self.read)) == Ok::<HeaderResult, HeaderError>(h)
            &&& self.body.len() < h.content_length
        }
    }

    /// The header of the request that is under way.
    pub open spec fn current_header(self) -> Seq<u8> {
        self.headers[self.done as int]
    }

    /// The session is given up.
    pub open spec fn abort(self, error: SessionError) -> (SessionView, ActionView) {
        (SessionView { phase: Phase::Aborted, ..self }, ActionView::Abort { error })
    }

    /// The next piece of the current header goes out: the first one at once,
    /// every later one after the pattern's pause.
    pub open spec fn send_next(self) -> (SessionView, ActionView) {
        let header = self.current_header();
        let end = chunk_end(
            header.len(),
            self.sent,
            effective_chunk_size(self.pattern, header.len()),
        );
        (
            SessionView { phase: Phase::Sending, sent: end, ..self },
            ActionView::Send {
                chunk: header.subrange(self.sent as int, end as int),
                pause: if self.sent == 0 {
                    None
                } else {
                    pause_between(self.pattern)
                },
            },
        )
    }

    /// The header is out: the response is read from its first byte, one byte
    /// at a time.
    pub open spec fn await_response(self) -> (SessionView, ActionView) {
        (
            SessionView {
                phase: Phase::ReadingHeader,
                read: Seq::empty(),
                head: None,
                body: Seq::empty(),
                ..self
            },
            ActionView::Receive { max_len: 1 },
        )
    }

    /// The next request begins; where none is left, the results are handed
    /// over.
    pub open spec fn begin(self) -> (SessionView, ActionView) {
        let fresh = SessionView {
            sent: 0,
            read: Seq::empty(),
            head: None,
            body: Seq::empty(),
            ..self
        };
        if self.done >= self.headers.len() {
            (
                SessionView { phase: Phase::Finished, results: Seq::empty(), ..fresh },
                ActionView::Finish { results: self.results },
            )
        } else if fresh.current_header().len() == 0 {
            fresh.await_response()
        } else {
            fresh.send_next()
        }
    }

    /// The current request is done with `result`.
    pub open spec fn complete(self, result: HttpGetResultView) -> (SessionView, ActionView) {
        SessionView { done: self.done + 1, results: self.results.push(result), ..self }.begin()
    }

    /// A byte of the response header has arrived.
    pub open spec fn on_header_byte(self, byte: u8) -> (SessionView, ActionView) {
        let read = self.read.push(byte);
        let next = SessionView { read, ..self };
        match framing(read) {
            Framing::Incomplete => (next, ActionView::Receive { max_len: 1 }),
            Framing::TooLarge => next.abort(SessionError::HeaderTooLarge),
            Framing::Complete => match parse_header_spec(header_of(read)) {
                Err(e) => next.abort(SessionError::Header(e)),
                Ok(head) => if head.content_length == 0 {
                    next.complete(HttpGetResultView { header_result: head, payload_result: None })
                } else {
                    (
                        SessionView {
                            phase: Phase::ReadingBody,
                            head: Some(head),
                            body: Seq::empty(),
                            ..next
                        },
                        ActionView::Receive { max_len: read_size(head.content_length as nat) },
                    )
                },
            },
        }
    }

    /// A read has returned while the header is being read. It was to bring
    /// one byte.
    pub open spec fn on_header_data(self, data: Seq<u8>) -> (SessionView, ActionView) {
        if data.len() == 0 {
            self.abort(SessionError::PeerClosed)
        } else if data.len() > 1 {
            self.abort(SessionError::Protocol)
        } else {
            self.on_header_byte(data[0])
        }
    }

    /// How far the current body has come.
    pub open spec fn body_progress(self) -> BodyProgress {
        BodyProgress { expected: self.head.unwrap().content_length as nat, data: self.body }
    }

    /// A read has returned while the body is being read.
    pub open spec fn on_body_data(self, data: Seq<u8>) -> (SessionView, ActionView) {
        let (progress, step) = self.body_progress().feed(data);
        let next = SessionView { body: progress.data, ..self };
        match step {
            BodyStep::Overrun => self.abort(SessionError::Protocol),
            BodyStep::Closed => self.abort(SessionError::ShortBody),
            BodyStep::Incomplete => (
                next,
                ActionView::Receive { max_len: read_size(progress.remaining()) },
            ),
            BodyStep::Complete => next.complete(
                HttpGetResultView {
                    header_result: self.head.unwrap(),
                    payload_result: Some(body_result_of(progress.data)),
                },
            ),
        }
    }

    /// What becomes of the session when the driver reports `event`, and what
    /// the session asks for next.
    pub open spec fn step(self, event: EventView) -> (SessionView, ActionView) {
        match self.phase {
            Phase::Idle => match event {
                EventView::Start => (
                    SessionView { phase: Phase::Connecting, ..self },
                    ActionView::Connect { host: self.host, port: self.port },
                ),
                _ => self.abort(SessionError::Protocol),
            },
            Phase::Connecting => match event {
                EventView::Connected => self.begin(),
                EventView::Failed => self.abort(SessionError::Connection),
                _ => self.abort(SessionError::Protocol),
            },
            Phase::Sending => match event {
                EventView::Sent => if self.sent < self.current_header().len() {
                    self.send_next()
                } else {
                    self.await_response()
                },
                EventView::Failed => self.abort(SessionError::Connection),
                _ => self.abort(SessionError::Protocol),
            },
            Phase::ReadingHeader => match event {
                EventView::Received(data) => self.on_header_data(data),
                EventView::Failed => self.abort(SessionError::Connection),
                _ => self.abort(SessionError::Protocol),
            },
            Phase::ReadingBody => match event {
                EventView::Received(data) => self.on_body_data(data),
                EventView::Failed => self.abort(SessionError::Connection),
                _ => self.abort(SessionError::Protocol),
            },
            Phase::Finished => self.abort(SessionError::Protocol),
            Phase::Aborted => self.abort(SessionError::Protocol),
        }
    }
}

/// The header of each request of `requests`, on a connection to `host`.
pub open spec fn request_headers(requests: Seq<GetRequest>, host: Seq<char>) -> Seq<Seq<u8>> {
    requests.map_values(|r: GetRequest| request_header_spec(r, host))
}

/// How long the exchange of a test case may take, in nanoseconds: the
/// timeout of the test case, or `DEFAULT_TIMEOUT_MILLIS` where it sets none.
pub open spec fn effective_timeout_nanos(timeout: Option<Duration>) -> nat {
    match timeout {
        Some(t) => duration_nanos(t),
        None => (DEFAULT_TIMEOUT_MILLIS * 1_000_000) as nat,
    }
}

impl GetRequestTest {
    /// How long the caller waits for the results of this test case before it
    /// goes on without them: the timeout of the test case, or
    /// `DEFAULT_TIMEOUT_MILLIS` where it sets none.
    pub fn effective_timeout(&self) -> (timeout: Duration)
        ensures
            duration_nanos(timeout) == effective_timeout_nanos(self.timeout),
            self.timeout matches Some(t) ==> timeout == t,
    {
        match self.timeout {
            Some(t) => t,
            None => Duration::from_millis(DEFAULT_TIMEOUT_MILLIS),
        }
    }
}

/// The session of `request_test` before it has begun.
pub open spec fn initial_session(
    request_test: GetRequestTest,
    maybe_pattern: Option<ChunkPattern>,
) -> SessionView {
    SessionView::initial(
        request_test.conn_addr.host@,
        request_test.conn_addr.port,
        request_headers(request_test.get_requests@, request_test.conn_addr.host@),
        maybe_pattern,
    )
}

/// One connection's worth of requests, on its way.
pub struct Session {
    conn_addr: ConnAddr,
    requests: Vec<GetRequest>,
    pattern: Option<ChunkPattern>,
    phase: Phase,
    done: usize,
    header: Vec<u8>,
    sent: usize,
    framer: HeaderFramer,
    head: Option<HeaderResult>,
    body: Option<BodyStreamer>,
    results: Vec<HttpGetResult>,
}

impl View for Session {
    type V = SessionView;

    closed spec fn view(&self) -> SessionView {
        SessionView {
            host: self.conn_addr.host@,
            port: self.conn_addr.port,
            headers: request_headers(self.requests@, self.conn_addr.host@),
            pattern: self.pattern,
            phase: self.phase,
            done: self.done as nat,
            sent: self.sent as nat,
            read: self.framer@,
            head: self.head,
            body: match self.body {
                Some(streamer) => streamer@.data,
                None => Seq::empty(),
            },
            results: results_view(self.results@),
        }
    }
}

impl Session {
    /// What the fields of a session owe each other in every phase.
    pub closed spec fn parts(&self) -> bool {
        &&& self.framer.wf()
        &&& self.done <= self.requests@.len()
        &&& self.pattern matches Some(p) ==> p.chunk_size > 0
        &&& self.body matches Some(streamer) ==> {
            &&& streamer.wf()
            &&& self.head matches Some(h)
            &&& streamer@.expected == h.content_length
        }
    }

    /// What the fields of a session owe each other beyond what its view shows.
    pub closed spec fn inv(&self) -> bool {
        &&& self.parts()
        &&& self.phase is Sending ==> {
            &&& self.done < self.requests@.len()
            &&& self.header@ == self@.current_header()
            &&& self.sent <= self.header@.len()
        }
        &&& self.phase is ReadingBody ==> self.body is Some
    }

    /// The session is in a state that `http_get` and `step` can have led to.
    pub open spec fn wf(&self) -> bool {
        self.inv() && self@.wf()
    }

    /// Where the session stands.
    pub fn phase(&self) -> (phase: Phase)
        ensures
            phase == self@.phase,
    {
        self.phase
    }

    /// Gives the session up.
    fn abort(&mut self, error: SessionError) -> (action: Action)
        requires
            old(self).parts(),
        ensures
            final(self).wf(),
            (final(self)@, action@) == old(self)@.abort(error),
    {
        self.phase = Phase::Aborted;
        Action::Abort { error }
    }

    /// Hands out the next piece of the header that is under way.
    fn send_next(&mut self) -> (action: Action)
        requires
            old(self).parts(),
            old(self).done < old(self).requests@.len(),
            old(self).header@ == old(self)@.current_header(),
            old(self).sent <= old(self).header@.len(),
            old(self)@.results.len() == old(self)@.done,
        ensures
            final(self).wf(),
            (final(self)@, action@) == old(self)@.send_next(),
    {
        let chunk_size: usize = match self.pattern {
            Some(p) => p.chunk_size,
            None => self.header.len(),
        };
        let pause: Option<Duration> = match self.pattern {
            Some(p) => if self.sent == 0 || p.wait_interval.is_zero() {
                None
            } else {
                Some(p.wait_interval)
            },
            None => None,
        };
        let piece = next_chunk(self.header.as_slice(), self.sent, chunk_size);
        let chunk: Vec<u8> = vstd::slice::slice_to_vec(piece);
        assert(piece@.len() <= self.header.len() - self.sent);
        self.sent = self.sent + chunk.len();
        self.phase = Phase::Sending;
        Action::Send { chunk, pause }
    }

    /// Turns to the response once the header is out.
    fn await_response(&mut self) -> (action: Action)
        requires
            old(self).parts(),
            old(self).done < old(self).requests@.len(),
            old(self)@.results.len() == old(self)@.done,
        ensures
            final(self).wf(),
            (final(self)@, action@) == old(self)@.await_response(),
    {
        self.phase = Phase::ReadingHeader;
        self.framer = HeaderFramer::new();
        self.head = None;
        self.body = None;
        Action::Receive { max_len: 1 }
    }

    /// Begins the next request, or hands the results over where none is
    /// left.
    fn begin(&mut self) -> (action: Action)
        requires
            old(self).parts(),
            old(self)@.results.len() == old(self)@.done,
        ensures
            final(self).wf(),
            (final(self)@, action@) == old(self)@.begin(),
    {
        self.sent = 0;
        self.framer = HeaderFramer::new();
        self.head = None;
        self.body = None;
        if self.done >= self.requests.len() {
            let mut results: Vec<HttpGetResult> = Vec::new();
            std::mem::swap(&mut results, &mut self.results);
            self.phase = Phase::Finished;
            assert(results_view(self.results@) =~= Seq::empty());
            Action::Finish { results }
        } else {
            self.header = request_header(&self.requests[self.done], self.conn_addr.host.as_str());
            assert(self.header@ == self@.current_header());
            if self.header.len() == 0 {
                self.await_response()
            } else {
                self.send_next()
            }
        }
    }

    /// Files the result of the request that is under way and goes on.
    fn complete(&mut self, result: HttpGetResult) -> (action: Action)
        requires
            old(self).parts(),
            old(self).done < old(self).requests@.len(),
            old(self)@.results.len() == old(self)@.done,
        ensures
            final(self).wf(),
            (final(self)@, action@) == old(self)@.complete(result@),
    {
        self.results.push(result);
        assert(self.requests@.len() == self.requests.len());
        self.done = self.done + 1;
        assert(results_view(self.results@) =~= old(self)@.results.push(result@));
        self.begin()
    }

    /// Takes what a read brought while the response header is being read:
    /// frames the header and, once its blank line is in, reads its fields.
    fn read_header(&mut self, data: &[u8]) -> (action: Action)
        requires
            old(self).wf(),
            old(self).phase is ReadingHeader,
        ensures
            final(self).wf(),
            (final(self)@, action@) == old(self)@.on_header_data(data@),
    {
        if data.len() == 0 {
            return self.abort(SessionError::PeerClosed);
        }
        if data.len() > 1 {
            return self.abort(SessionError::Protocol);
        }
        match self.framer.push(data[0]) {
            Framing::Incomplete => Action::Receive { max_len: 1 },
            Framing::TooLarge => self.abort(SessionError::HeaderTooLarge),
            Framing::Complete => {
                let read = self.framer.bytes();
                let parsed = parse_header(&read[0..read.len() - 4]);
                match parsed {
                    Err(e) => self.abort(SessionError::Header(e)),
                    Ok(head) => {
                        if head.content_length == 0 {
                            self.complete(
                                HttpGetResult { header_result: head, payload_result: None },
                            )
                        } else {
                            let streamer = BodyStreamer::new(head.content_length);
                            let max_len: usize = streamer.next_read();
                            self.head = Some(head);
                            self.body = Some(streamer);
                            self.phase = Phase::ReadingBody;
                            Action::Receive { max_len }
                        }
                    },
                }
            },
        }
    }

    /// Takes what a read brought while the body is being read: hashes it
    /// and, once the body is complete, makes the result of the request.
    fn body_result(&mut self, data: &[u8]) -> (action: Action)
        requires
            old(self).wf(),
            old(self).phase is ReadingBody,
        ensures
            final(self).wf(),
            (final(self)@, action@) == old(self)@.on_body_data(data@),
    {
        let head: HeaderResult = self.head.unwrap();
        let mut streamer: BodyStreamer = self.body.take().unwrap();
        match streamer.feed(data) {
            BodyStep::Overrun => {
                self.body = Some(streamer);
                self.abort(SessionError::Protocol)
            },
            BodyStep::Closed => {
                self.body = Some(streamer);
                self.abort(SessionError::ShortBody)
            },
            BodyStep::Incomplete => {
                let max_len: usize = streamer.next_read();
                self.body = Some(streamer);
                Action::Receive { max_len }
            },
            BodyStep::Complete => {
                let body: BodyResult = streamer.finish().unwrap();
                self.complete(HttpGetResult { header_result: head, payload_result: Some(body) })
            },
        }
    }

    /// Takes what the driver reports and says what it is to do next.
    ///
    /// The session moves as `SessionView::step` says, on every event in every
    /// state; what does not answer the session's last action gives it up.
    pub fn step(&mut self, event: Event) -> (action: Action)
        requires
            old(self).wf(),
        ensures
            final(self).wf(),
            (final(self)@, action@) == old(self)@.step(event@),
    {
        match self.phase {
            Phase::Idle => match event {
                Event::Start => {
                    self.phase = Phase::Connecting;
                    Action::Connect {
                        host: self.conn_addr.host.clone(),
                        port: self.conn_addr.port,
                    }
                },
                _ => self.abort(SessionError::Protocol),
            },
            Phase::Connecting => match event {
                Event::Connected => self.begin(),
                Event::Failed => self.abort(SessionError::Connection),
                _ => self.abort(SessionError::Protocol),
            },
            Phase::Sending => match event {
                Event::Sent => if self.sent < self.header.len() {
                    self.send_next()
                } else {
                    self.await_response()
                },
                Event::Failed => self.abort(SessionError::Connection),
                _ => self.abort(SessionError::Protocol),
            },
            Phase::ReadingHeader => match event {
                Event::Received(data) => self.read_header(data.as_slice()),
                Event::Failed => self.abort(SessionError::Connection),
                _ => self.abort(SessionError::Protocol),
            },
            Phase::ReadingBody => match event {
                Event::Received(data) => self.body_result(data.as_slice()),
                Event::Failed => self.abort(SessionError::Connection),
                _ => self.abort(SessionError::Protocol),
            },
            Phase::Finished => self.abort(SessionError::Protocol),
            Phase::Aborted => self.abort(SessionError::Protocol),
        }
    }
}

/// A session for `request_test` in which each header goes out as
/// `maybe_pattern` says, or in one piece where it says nothing.
///
/// The session has not begun: it waits for `Event::Start`.
pub fn http_get_with_header_chunked(
    request_test: GetRequestTest,
    maybe_pattern: Option<ChunkPattern>,
) -> (session: Session)
    requires
        maybe_pattern matches Some(p) ==> p.chunk_size > 0,
    ensures
        session.wf(),
        session@ == initial_session(request_test, maybe_pattern),
{
    let session = Session {
        conn_addr: request_test.conn_addr,
        requests: request_test.get_requests,
        pattern: maybe_pattern,
        phase: Phase::Idle,
        done: 0,
        header: Vec::new(),
        sent: 0,
        framer: HeaderFramer::new(),
        head: None,
        body: None,
        results: Vec::new(),
    };
    assert(results_view(session.results@) =~= Seq::empty());
    session
}

/// A session for `request` in which each header goes out in one piece.
///
/// The session has not begun: it waits for `Event::Start`.
pub fn http_get(request: GetRequestTest) -> (session: Session)
    ensures
        session.wf(),
        session@ == initial_session(request, None),
{
    http_get_with_header_chunked(request, None)
}

} // verus!

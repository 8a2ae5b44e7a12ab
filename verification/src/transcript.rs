//! What a session's results say about the bytes that arrived.
//!
//! The results of a session are a function of the bytes that the connection
//! delivered, and of nothing else: the stream splits into one response after
//! the other, each made of the shortest header that ends in a blank line and
//! of as many body bytes as that header announces, and the result with a
//! given number is read off the response with that number. How the request
//! headers were cut into pieces, how long the sender rested, and in what
//! portions the reads returned the stream do not enter into it.
//!
//! `decode_responses` writes that function down. The theorems of this module
//! show that `SessionView::step` computes it.

use vstd::prelude::*;
use crate::body::body_result_of;
use crate::framer::{
    framing, header_of, lemma_stops_at_separator_push, separator, MAX_HEADER_SIZE,
};
use crate::header::parse_header_spec;
use crate::request::effective_chunk_size;
use crate::search::{
    first_match, lemma_first_match_from, lemma_first_match_unique, lemma_matches_at_extend,
    matches_at,
};
use crate::session::{ActionView, EventView, HttpGetResultView, Phase, SessionView};

verus! {

/// The response at the start of `stream`: its result, and the number of bytes
/// that it takes. `None` where the stream does not start with a whole
/// response that can be read.
pub open spec fn decode_response(stream: Seq<u8>) -> Option<(HttpGetResultView, int)> {
    match first_match(stream, separator()) {
        None => None,
        Some(i) => if i + 4 > MAX_HEADER_SIZE {
            None
        } else {
            match parse_header_spec(stream.subrange(0, i)) {
                Err(_) => None,
                Ok(head) => {
                    let end = i + 4 + head.content_length;
                    if head.content_length == 0 {
                        Some(
                            (
                                HttpGetResultView { header_result: head, payload_result: None },
                                i + 4,
                            ),
                        )
                    } else if end <= stream.len() {
                        Some(
                            (
                                HttpGetResultView {
                                    header_result: head,
                                    payload_result: Some(
                                        body_result_of(stream.subrange(i + 4, end)),
                                    ),
                                },
                                end,
                            ),
                        )
                    } else {
                        None
                    }
                },
            }
        },
    }
}

/// The first `n` responses of `stream`: their results in order, and the
/// number of bytes that they take together.
pub open spec fn decode_responses(stream: Seq<u8>, n: nat) -> Option<
    (Seq<HttpGetResultView>, int),
>
    decreases n,
{
    if n == 0 {
        Some((Seq::empty(), 0))
    } else {
        match decode_responses(stream, (n - 1) as nat) {
            None => None,
            Some((results, taken)) => if taken < 0 || taken > stream.len() {
                None
            } else {
                match decode_response(stream.skip(taken)) {
                    None => None,
                    Some((result, more)) => Some((results.push(result), taken + more)),
                }
            },
        }
    }
}

/// The bytes that `event` brings from the connection.
pub open spec fn received(event: EventView) -> Seq<u8> {
    match event {
        EventView::Received(data) => data,
        _ => Seq::empty(),
    }
}

/// The bytes that `action` puts on the connection.
pub open spec fn emitted(action: ActionView) -> Seq<u8> {
    match action {
        ActionView::Send { chunk, pause } => chunk,
        _ => Seq::empty(),
    }
}

/// `headers` one after the other.
pub open spec fn concat(headers: Seq<Seq<u8>>) -> Seq<u8>
    decreases headers.len(),
{
    if headers.len() == 0 {
        Seq::empty()
    } else {
        concat(headers.drop_last()) + headers.last()
    }
}

/// What the session has read of the response that is under way.
pub open spec fn pending(v: SessionView) -> Seq<u8> {
    match v.phase {
        Phase::ReadingHeader => v.read,
        Phase::ReadingBody => v.read + v.body,
        _ => Seq::empty(),
    }
}

/// What the session has sent of the request that is under way.
pub open spec fn outgoing(v: SessionView) -> Seq<u8> {
    match v.phase {
        Phase::Sending => v.current_header().take(v.sent as int),
        Phase::ReadingHeader => v.current_header(),
        Phase::ReadingBody => v.current_header(),
        _ => Seq::empty(),
    }
}

/// The session `v` is where the stream `inbound` has led it: its results are
/// those of the responses that `inbound` holds in full, and what follows
/// them in `inbound` is what the session has read of the next one. Of a
/// session that was given up nothing is said.
pub open spec fn agrees(v: SessionView, inbound: Seq<u8>) -> bool {
    v.phase is Aborted || match decode_responses(inbound, v.done) {
        None => false,
        Some((results, taken)) => {
            &&& 0 <= taken <= inbound.len()
            &&& v.phase is Finished || results == v.results
            &&& inbound.skip(taken) == pending(v)
        },
    }
}

/// The session `v` has sent `outbound`: the headers of the requests that are
/// done, whole and in order, and of the one under way what has gone out so
/// far. Of a session that was given up nothing is said.
pub open spec fn has_sent(v: SessionView, outbound: Seq<u8>) -> bool {
    v.phase is Aborted || outbound == concat(v.headers.take(v.done as int)) + outgoing(v)
}

/// A result is of a response with a body exactly when the header announced
/// one, and then the body has the announced length.
pub open spec fn body_matches_header(result: HttpGetResultView) -> bool {
    match result.payload_result {
        None => result.header_result.content_length == 0,
        Some(body) => result.header_result.content_length > 0 && body.size
            == result.header_result.content_length,
    }
}

/// A response that is there in full stays what it is when more bytes follow.
pub proof fn lemma_decode_response_extend(stream: Seq<u8>, more: Seq<u8>)
    requires
        decode_response(stream) is Some,
    ensures
        decode_response(stream + more) == decode_response(stream),
{
    let i = first_match(stream, separator()).unwrap();
    lemma_first_match_from(stream, separator(), 0);
    let longer = stream + more;
    assert forall|j: int| 0 <= j < i implies !matches_at(longer, separator(), j) by {
        lemma_matches_at_extend(stream, more, separator(), j);
    }
    lemma_matches_at_extend(stream, more, separator(), i);
    lemma_first_match_unique(longer, separator(), 0, i);
    assert(longer.subrange(0, i) =~= stream.subrange(0, i));
    let head = parse_header_spec(stream.subrange(0, i))->Ok_0;
    if head.content_length > 0 {
        let end = i + 4 + head.content_length;
        assert(longer.subrange(i + 4, end) =~= stream.subrange(i + 4, end));
    }
}

/// The bytes that a response takes lie in the stream, and there is at least
/// the blank line among them.
pub proof fn lemma_decode_response_taken(stream: Seq<u8>)
    requires
        decode_response(stream) is Some,
    ensures
        4 <= decode_response(stream).unwrap().1 <= stream.len(),
        body_matches_header(decode_response(stream).unwrap().0),
{
    lemma_first_match_from(stream, separator(), 0);
}

/// Responses that are there in full stay what they are when more bytes
/// follow.
pub proof fn lemma_decode_responses_extend(stream: Seq<u8>, more: Seq<u8>, n: nat)
    requires
        decode_responses(stream, n) is Some,
    ensures
        decode_responses(stream + more, n) == decode_responses(stream, n),
        0 <= decode_responses(stream, n).unwrap().1 <= stream.len(),
        decode_responses(stream, n).unwrap().0.len() == n,
    decreases n,
{
    if n > 0 {
        lemma_decode_responses_extend(stream, more, (n - 1) as nat);
        let (results, taken) = decode_responses(stream, (n - 1) as nat).unwrap();
        assert((stream + more).skip(taken) =~= stream.skip(taken) + more);
        lemma_decode_response_extend(stream.skip(taken), more);
        lemma_decode_response_taken(stream.skip(taken));
    }
}

/// Every result that a stream decodes to has a body exactly when its header
/// announced one, of the announced length.
pub proof fn lemma_decode_responses_bodies(stream: Seq<u8>, n: nat, i: int)
    requires
        decode_responses(stream, n) is Some,
        0 <= i < n,
    ensures
        decode_responses(stream, n).unwrap().0.len() == n,
        body_matches_header(decode_responses(stream, n).unwrap().0[i]),
    decreases n,
{
    lemma_decode_responses_extend(stream, Seq::empty(), n);
    let (results, taken) = decode_responses(stream, (n - 1) as nat).unwrap();
    lemma_decode_responses_extend(stream, Seq::empty(), (n - 1) as nat);
    if i < n - 1 {
        lemma_decode_responses_bodies(stream, (n - 1) as nat, i);
    } else {
        lemma_decode_response_taken(stream.skip(taken));
    }
}

/// The result of a response does not depend on what follows the response:
/// the results of the first `n` responses of a stream begin with the results
/// of its first `k`, in the same order.
pub proof fn lemma_decode_responses_prefix(stream: Seq<u8>, n: nat, k: nat)
    requires
        decode_responses(stream, n) is Some,
        k <= n,
    ensures
        decode_responses(stream, k) is Some,
        decode_responses(stream, k).unwrap().0 == decode_responses(stream, n).unwrap().0.take(
            k as int,
        ),
    decreases n,
{
    lemma_decode_responses_extend(stream, Seq::empty(), n);
    if k == n {
        assert(decode_responses(stream, n).unwrap().0.take(k as int) =~= decode_responses(
            stream,
            n,
        ).unwrap().0);
    } else {
        lemma_decode_responses_prefix(stream, (n - 1) as nat, k);
        lemma_decode_responses_extend(stream, Seq::empty(), (n - 1) as nat);
        let shorter = decode_responses(stream, (n - 1) as nat).unwrap().0;
        let longer = decode_responses(stream, n).unwrap().0;
        assert(longer.take(k as int) =~= shorter.take(k as int));
    }
}

/// What holds after a step that led `next` to ask for `action`, where the
/// stream that has arrived by then is `inbound`: the session is still sound
/// and where the stream has led it, and results that are handed over are
/// those of all the responses, which make up the whole stream.
pub open spec fn step_keeps(
    total: nat,
    next: SessionView,
    action: ActionView,
    inbound: Seq<u8>,
) -> bool {
    &&& next.wf()
    &&& agrees(next, inbound)
    &&& action matches ActionView::Finish { results } ==> decode_responses(inbound, total)
        == Some((results, inbound.len() as int))
}

/// Beginning the next request, or handing the results over, keeps what a
/// step keeps, where every byte that has arrived belongs to a response that
/// is done.
proof fn lemma_begin(v: SessionView, inbound: Seq<u8>)
    requires
        v.pattern matches Some(p) ==> p.chunk_size > 0,
        v.done <= v.headers.len(),
        decode_responses(inbound, v.done) == Some((v.results, inbound.len() as int)),
    ensures
        step_keeps(v.headers.len(), v.begin().0, v.begin().1, inbound),
{
    lemma_decode_responses_extend(inbound, Seq::empty(), v.done);
    let (next, action) = v.begin();
    assert(inbound.skip(inbound.len() as int) =~= Seq::<u8>::empty());
    if v.done < v.headers.len() {
        assert(!matches_at(Seq::<u8>::empty(), separator(), -4));
        assert forall|i: int| #[trigger]
            matches_at(Seq::<u8>::empty(), separator(), i) implies i + 4 == 0 by {}
    }
}

/// Filing the result of a response keeps what a step keeps, where the
/// response ends with the last byte that has arrived.
proof fn lemma_complete(v: SessionView, inbound: Seq<u8>, result: HttpGetResultView)
    requires
        v.pattern matches Some(p) ==> p.chunk_size > 0,
        v.done < v.headers.len(),
        decode_responses(inbound, v.done + 1) == Some(
            (v.results.push(result), inbound.len() as int),
        ),
    ensures
        step_keeps(v.headers.len(), v.complete(result).0, v.complete(result).1, inbound),
{
    lemma_begin(
        SessionView { done: v.done + 1, results: v.results.push(result), ..v },
        inbound,
    );
}

/// A byte of a response header keeps what a step keeps.
proof fn lemma_header_byte(v: SessionView, inbound: Seq<u8>, byte: u8)
    requires
        v.wf(),
        v.phase is ReadingHeader,
        agrees(v, inbound),
    ensures
        step_keeps(
            v.headers.len(),
            v.on_header_byte(byte).0,
            v.on_header_byte(byte).1,
            inbound + seq![byte],
        ),
{
    let (results, taken) = decode_responses(inbound, v.done).unwrap();
    let later = inbound + seq![byte];
    let read = v.read.push(byte);
    lemma_decode_responses_extend(inbound, seq![byte], v.done);
    lemma_stops_at_separator_push(v.read, byte);
    assert(later.skip(taken) =~= read);
    if framing(read) is Complete {
        crate::framer::lemma_stops_at_first_separator(read);
        assert(read.subrange(0, read.len() - 4) =~= header_of(read));
        match parse_header_spec(header_of(read)) {
            Err(_) => {},
            Ok(head) => {
                if head.content_length == 0 {
                    let result = HttpGetResultView { header_result: head, payload_result: None };
                    assert(decode_response(read) == Some((result, read.len() as int)));
                    lemma_complete(SessionView { read, ..v }, later, result);
                } else {
                    assert(read + Seq::<u8>::empty() =~= read);
                }
            },
        }
    }
}

/// Bytes of a body that leave it incomplete keep the session sound and in
/// agreement with the stream.
proof fn lemma_body_grows(v: SessionView, inbound: Seq<u8>, data: Seq<u8>)
    requires
        v.wf(),
        v.phase is ReadingBody,
        agrees(v, inbound),
        v.body.len() + data.len() < v.head.unwrap().content_length,
    ensures
        agrees(SessionView { body: v.body + data, ..v }, inbound + data),
        (SessionView { body: v.body + data, ..v }).wf(),
{
    let taken = decode_responses(inbound, v.done).unwrap().1;
    lemma_decode_responses_extend(inbound, data, v.done);
    assert((inbound + data).skip(taken) =~= inbound.skip(taken) + data);
    assert(v.read + v.body + data =~= v.read + (v.body + data));
}

/// With the last bytes of a body the stream holds one more response in
/// full, which decodes to the result that the session files.
proof fn lemma_body_ends(v: SessionView, inbound: Seq<u8>, data: Seq<u8>)
    requires
        v.wf(),
        v.phase is ReadingBody,
        agrees(v, inbound),
        v.body.len() + data.len() == v.head.unwrap().content_length,
    ensures
        decode_responses(inbound + data, v.done + 1) == Some(
            (
                v.results.push(
                    HttpGetResultView {
                        header_result: v.head.unwrap(),
                        payload_result: Some(body_result_of(v.body + data)),
                    },
                ),
                (inbound + data).len() as int,
            ),
        ),
{
    let taken = decode_responses(inbound, v.done).unwrap().1;
    let later = inbound + data;
    let head = v.head.unwrap();
    let body = v.body + data;
    let whole = v.read + body;
    let at = v.read.len() - 4;
    lemma_decode_responses_extend(inbound, data, v.done);
    assert(later.skip(taken) =~= inbound.skip(taken) + data);
    assert(v.read + v.body + data =~= whole);
    assert forall|j: int| 0 <= j < at implies !matches_at(whole, separator(), j) by {
        lemma_matches_at_extend(v.read, body, separator(), j);
    }
    lemma_matches_at_extend(v.read, body, separator(), at);
    lemma_first_match_unique(whole, separator(), 0, at);
    assert(whole.subrange(0, at) =~= header_of(v.read));
    assert(whole.subrange(at + 4, at + 4 + head.content_length) =~= body);
    assert(decode_response(whole) == Some(
        (
            HttpGetResultView {
                header_result: head,
                payload_result: Some(body_result_of(body)),
            },
            whole.len() as int,
        ),
    ));
}

/// What a read brings for a body keeps what a step keeps.
proof fn lemma_body_data(v: SessionView, inbound: Seq<u8>, data: Seq<u8>)
    requires
        v.wf(),
        v.phase is ReadingBody,
        agrees(v, inbound),
    ensures
        step_keeps(
            v.headers.len(),
            v.on_body_data(data).0,
            v.on_body_data(data).1,
            inbound + data,
        ),
{
    let (progress, step) = v.body_progress().feed(data);
    match step {
        crate::body::BodyStep::Incomplete => {
            lemma_body_grows(v, inbound, data);
        },
        crate::body::BodyStep::Complete => {
            lemma_body_ends(v, inbound, data);
            lemma_complete(
                SessionView { body: progress.data, ..v },
                inbound + data,
                HttpGetResultView {
                    header_result: v.head.unwrap(),
                    payload_result: Some(body_result_of(progress.data)),
                },
            );
        },
        _ => {},
    }
}

/// One step keeps a session sound and in agreement with the stream.
///
/// Let a sound session be where the stream `inbound` has led it. Whatever
/// the driver reports next, the session is sound afterwards and is where
/// `inbound`, with the bytes that the event brought, has led it. Where the
/// step hands the results over, there is one for each request, and they are
/// what the whole stream decodes to: the result with a given number comes
/// from the response with that number, and no byte is left over.
pub proof fn lemma_step_agrees(v: SessionView, inbound: Seq<u8>, event: EventView)
    requires
        v.wf(),
        agrees(v, inbound),
    ensures
        step_keeps(v.headers.len(), v.step(event).0, v.step(event).1, inbound + received(event)),
{
    let later = inbound + received(event);
    match v.phase {
        Phase::Idle => {
            if event is Start {
                assert(later =~= inbound);
            }
        },
        Phase::Connecting => {
            if event is Connected {
                assert(later =~= inbound);
                let (results, taken) = decode_responses(inbound, v.done).unwrap();
                assert(inbound.skip(taken) =~= Seq::<u8>::empty());
                lemma_begin(v, inbound);
            }
        },
        Phase::Sending => {
            if event is Sent {
                assert(later =~= inbound);
                assert(!matches_at(Seq::<u8>::empty(), separator(), -4));
                assert forall|i: int| #[trigger]
                    matches_at(Seq::<u8>::empty(), separator(), i) implies i + 4 == 0 by {}
            }
        },
        Phase::ReadingHeader => {
            if let EventView::Received(data) = event {
                if data.len() == 1 {
                    assert(data =~= seq![data[0]]);
                    lemma_header_byte(v, inbound, data[0]);
                }
            }
        },
        Phase::ReadingBody => {
            if let EventView::Received(data) = event {
                lemma_body_data(v, inbound, data);
            }
        },
        Phase::Finished => {},
        Phase::Aborted => {},
    }
}

/// One step sends the next piece of the header that is under way.
///
/// Let a sound session have sent `outbound`. After the step it has sent
/// `outbound` and what the action puts on the connection. A piece that goes
/// out is never empty and never longer than the chunk size in force.
pub proof fn lemma_step_has_sent(v: SessionView, outbound: Seq<u8>, event: EventView)
    requires
        v.wf(),
        has_sent(v, outbound),
    ensures
        has_sent(v.step(event).0, outbound + emitted(v.step(event).1)),
        v.step(event).1 matches ActionView::Send { chunk, pause } ==> 0 < chunk.len()
            <= effective_chunk_size(
            v.step(event).0.pattern,
            v.step(event).0.current_header().len(),
        ),
{
    let (next, action) = v.step(event);
    let later = outbound + emitted(action);
    if next.phase is Aborted {
        return ;
    }
    match v.phase {
        Phase::Idle => {
            assert(later =~= outbound);
        },
        Phase::Connecting => {
            lemma_begin_has_sent(v, outbound);
        },
        Phase::Sending => {
            let header = v.current_header();
            if v.sent < header.len() {
                assert(header.take(v.sent as int) + emitted(action) =~= header.take(
                    next.sent as int,
                ));
                assert(later =~= concat(v.headers.take(v.done as int)) + header.take(
                    next.sent as int,
                ));
            } else {
                assert(header.take(v.sent as int) =~= header);
                assert(later =~= outbound);
            }
        },
        Phase::ReadingHeader => {
            if let EventView::Received(data) = event {
                if data.len() == 1 {
                    let read = v.read.push(data[0]);
                    if framing(read) is Complete {
                        match parse_header_spec(header_of(read)) {
                            Err(_) => {},
                            Ok(head) => {
                                if head.content_length == 0 {
                                    lemma_complete_has_sent(
                                        SessionView { read, ..v },
                                        outbound,
                                        HttpGetResultView {
                                            header_result: head,
                                            payload_result: None,
                                        },
                                    );
                                } else {
                                    assert(later =~= outbound);
                                }
                            },
                        }
                    } else {
                        assert(later =~= outbound);
                    }
                }
            }
        },
        Phase::ReadingBody => {
            if let EventView::Received(data) = event {
                let (progress, step) = v.body_progress().feed(data);
                match step {
                    crate::body::BodyStep::Incomplete => {
                        assert(later =~= outbound);
                    },
                    crate::body::BodyStep::Complete => {
                        lemma_complete_has_sent(
                            SessionView { body: progress.data, ..v },
                            outbound,
                            HttpGetResultView {
                                header_result: v.head.unwrap(),
                                payload_result: Some(body_result_of(progress.data)),
                            },
                        );
                    },
                    _ => {},
                }
            }
        },
        Phase::Finished => {},
        Phase::Aborted => {},
    }
}

/// Beginning the next request sends the first piece of its header and
/// nothing else.
proof fn lemma_begin_has_sent(v: SessionView, outbound: Seq<u8>)
    requires
        v.pattern matches Some(p) ==> p.chunk_size > 0,
        v.done <= v.headers.len(),
        outbound == concat(v.headers.take(v.done as int)),
    ensures
        has_sent(v.begin().0, outbound + emitted(v.begin().1)),
        v.begin().1 matches ActionView::Send { chunk, pause } ==> 0 < chunk.len()
            <= effective_chunk_size(v.pattern, v.begin().0.current_header().len()),
{
    let (next, action) = v.begin();
    let done = concat(v.headers.take(v.done as int));
    if v.done >= v.headers.len() {
        assert(outbound + emitted(action) =~= done + outgoing(next));
    } else {
        let header = v.headers[v.done as int];
        if header.len() == 0 {
            assert(outbound + emitted(action) =~= done + outgoing(next));
        } else {
            assert(emitted(action) =~= header.take(next.sent as int));
        }
    }
}

/// Filing a result sends nothing but the first piece of the next header.
proof fn lemma_complete_has_sent(v: SessionView, outbound: Seq<u8>, result: HttpGetResultView)
    requires
        v.pattern matches Some(p) ==> p.chunk_size > 0,
        v.done < v.headers.len(),
        outbound == concat(v.headers.take(v.done as int)) + v.current_header(),
    ensures
        has_sent(v.complete(result).0, outbound + emitted(v.complete(result).1)),
        v.complete(result).1 matches ActionView::Send { chunk, pause } ==> 0 < chunk.len()
            <= effective_chunk_size(v.pattern, v.complete(result).0.current_header().len()),
{
    let shorter = v.headers.take(v.done as int);
    let longer = v.headers.take(v.done as int + 1);
    assert(longer.drop_last() =~= shorter);
    assert(longer.last() == v.headers[v.done as int]);
    lemma_begin_has_sent(
        SessionView { done: v.done + 1, results: v.results.push(result), ..v },
        outbound,
    );
}

/// The session has not begun.
pub open spec fn fresh(v: SessionView) -> bool {
    &&& v.phase is Idle
    &&& v.done == 0
    &&& v.results.len() == 0
    &&& v.pattern matches Some(p) ==> p.chunk_size > 0
}

/// The session after the driver has reported `events`, one after the other.
pub open spec fn run(v: SessionView, events: Seq<EventView>) -> SessionView
    decreases events.len(),
{
    if events.len() == 0 {
        v
    } else {
        run(v, events.drop_last()).step(events.last()).0
    }
}

/// What the session asked for when the driver reported the last of `events`.
pub open spec fn last_action(v: SessionView, events: Seq<EventView>) -> ActionView {
    run(v, events.drop_last()).step(events.last()).1
}

/// All the bytes that `events` brought from the connection, in order.
pub open spec fn inbound_of(events: Seq<EventView>) -> Seq<u8>
    decreases events.len(),
{
    if events.len() == 0 {
        Seq::empty()
    } else {
        inbound_of(events.drop_last()) + received(events.last())
    }
}

/// All the bytes that the session put on the connection while the driver
/// reported `events`, in order.
pub open spec fn outbound_of(v: SessionView, events: Seq<EventView>) -> Seq<u8>
    decreases events.len(),
{
    if events.len() == 0 {
        Seq::empty()
    } else {
        outbound_of(v, events.drop_last()) + emitted(last_action(v, events))
    }
}

/// Whatever the driver reports, in whatever order, a session that started
/// fresh stays sound, is where the bytes that arrived have led it, and has
/// sent nothing but its request headers, in order.
pub proof fn lemma_run(v: SessionView, events: Seq<EventView>)
    requires
        fresh(v),
    ensures
        run(v, events).wf(),
        run(v, events).headers == v.headers,
        agrees(run(v, events), inbound_of(events)),
        has_sent(run(v, events), outbound_of(v, events)),
        events.len() > 0 ==> step_keeps(
            v.headers.len(),
            run(v, events),
            last_action(v, events),
            inbound_of(events),
        ),
    decreases events.len(),
{
    if events.len() == 0 {
        assert(Seq::<u8>::empty().skip(0) =~= Seq::<u8>::empty());
        assert(v.results =~= Seq::empty());
        assert(v.headers.take(0) =~= Seq::<Seq<u8>>::empty());
        assert(Seq::<u8>::empty() =~= concat(v.headers.take(0)) + outgoing(v));
    } else {
        let before = run(v, events.drop_last());
        lemma_run(v, events.drop_last());
        lemma_step_agrees(before, inbound_of(events.drop_last()), events.last());
        lemma_step_has_sent(before, outbound_of(v, events.drop_last()), events.last());
        lemma_step_headers(before, events.last());
    }
}

/// A step changes neither the requests nor how they are sent.
pub proof fn lemma_step_headers(v: SessionView, event: EventView)
    ensures
        v.step(event).0.headers == v.headers,
        v.step(event).0.pattern == v.pattern,
        v.step(event).0.host == v.host,
        v.step(event).0.port == v.port,
{
}

/// The results that a session hands over are what the stream that arrived
/// decodes to.
///
/// Let a session start fresh and let the driver report `events`. If the
/// session then hands its results over, then
///
/// * there is one result for each request, and the result with a given
///   number is that of the response with that number in the stream;
/// * the responses make up the stream: the session has read no byte beyond
///   the last of them;
/// * a result has a body exactly when the response header announced a
///   content length above zero, and the body's size is that content length;
///   its digest is the SHA-256 of the bytes of the body, as
///   `decode_response` says;
/// * what the session sent is the request headers, one after the other.
pub proof fn theorem_results(
    v: SessionView,
    events: Seq<EventView>,
    results: Seq<HttpGetResultView>,
)
    requires
        fresh(v),
        events.len() > 0,
        last_action(v, events) == (ActionView::Finish { results }),
    ensures
        results.len() == v.headers.len(),
        decode_responses(inbound_of(events), v.headers.len()) == Some(
            (results, inbound_of(events).len() as int),
        ),
        forall|i: int| 0 <= i < results.len() ==> body_matches_header(#[trigger] results[i]),
        outbound_of(v, events) == concat(v.headers),
{
    lemma_run(v, events);
    let inbound = inbound_of(events);
    let n = v.headers.len();
    lemma_decode_responses_extend(inbound, Seq::empty(), n);
    assert forall|i: int| 0 <= i < results.len() implies body_matches_header(
        #[trigger] results[i],
    ) by {
        lemma_decode_responses_bodies(inbound, n, i);
    }
    lemma_finish_only_when_finished(run(v, events.drop_last()), events.last());
    assert(v.headers.take(n as int) =~= v.headers);
    assert(outbound_of(v, events) =~= concat(v.headers));
}

/// A session hands its results over only as it finishes.
pub proof fn lemma_finish_only_when_finished(v: SessionView, event: EventView)
    ensures
        v.step(event).1 is Finish ==> v.step(event).0.phase is Finished,
{
}

/// How the request headers are cut into pieces does not change the results.
///
/// Let two sessions start fresh with as many requests, each with a chunk
/// pattern of its own or with none, and let each be driven to the end. If
/// the same bytes arrived on both connections, the two sessions hand over
/// the same results. If they also make the same requests, they have sent the
/// same bytes.
pub proof fn theorem_chunking_invariance(
    a: SessionView,
    a_events: Seq<EventView>,
    a_results: Seq<HttpGetResultView>,
    b: SessionView,
    b_events: Seq<EventView>,
    b_results: Seq<HttpGetResultView>,
)
    requires
        fresh(a),
        fresh(b),
        a.headers.len() == b.headers.len(),
        a_events.len() > 0,
        b_events.len() > 0,
        last_action(a, a_events) == (ActionView::Finish { results: a_results }),
        last_action(b, b_events) == (ActionView::Finish { results: b_results }),
        inbound_of(a_events) == inbound_of(b_events),
    ensures
        a_results == b_results,
        a.headers == b.headers ==> outbound_of(a, a_events) == outbound_of(b, b_events),
{
    theorem_results(a, a_events, a_results);
    theorem_results(b, b_events, b_results);
}

/// Results come in the order of the requests and are never taken back.
///
/// While a session is under way, a step leaves its results as they are or
/// adds one at the end, and the number of results is the number of requests
/// that are done.
pub proof fn lemma_results_grow_in_order(v: SessionView, event: EventView)
    requires
        v.wf(),
        !(v.phase is Finished),
        !(v.step(event).0.phase is Finished),
    ensures
        v.step(event).0.results == v.results || v.step(event).0.results.drop_last()
            == v.results,
        !(v.step(event).0.phase is Aborted) ==> v.step(event).0.results.len() == v.step(
            event,
        ).0.done,
{
    let next = v.step(event).0;
    if next.results != v.results {
        assert(next.results.drop_last() =~= v.results);
    }
}

/// A session hands over all its results or none: the results of a step are
/// handed over only when every request is done, and then the session keeps
/// none of them.
pub proof fn lemma_results_whole_or_absent(v: SessionView, event: EventView)
    requires
        v.wf(),
    ensures
        v.step(event).1 matches ActionView::Finish { results } ==> results.len()
            == v.headers.len() && v.step(event).0.results.len() == 0,
{
}

} // verus!

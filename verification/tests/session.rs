use integration_test_client::{
    http_get, http_get_with_header_chunked, Action, BodyResult, ChunkPattern, ClientHeader,
    ConnAddr, Event, GetRequest, GetRequestTest, HeaderError, HeaderResult, HttpGetResult, Phase,
    Session, SessionError,
};
use sha2::{Digest, Sha256};
use std::time::Duration;

const SHA256_OF_HELLO: [u8; 32] = [
    0x2c, 0xf2, 0x4d, 0xba, 0x5f, 0xb0, 0xa3, 0x0e, 0x26, 0xe8, 0x3b, 0x2a, 0xc5, 0xb9, 0xe2,
    0x9e, 0x1b, 0x16, 0x1e, 0x5c, 0x1f, 0xa7, 0x42, 0x5e, 0x73, 0x04, 0x33, 0x62, 0x93, 0x8b,
    0x98, 0x24,
];

/// What a server does once it has nothing more to send.
#[derive(Clone, Copy, PartialEq)]
enum AtEnd {
    Closes,
    StaysSilent,
}

#[derive(Debug, PartialEq)]
enum Outcome {
    Finished(Vec<HttpGetResult>),
    Aborted(SessionError),
    Waiting,
}

struct Run {
    outcome: Outcome,
    connected_to: Option<(String, u16)>,
    writes: Vec<Vec<u8>>,
    pauses: Vec<Option<Duration>>,
    reads: Vec<usize>,
    consumed: usize,
}

/// Plays the driver against a server that sends `inbound` and returns at most
/// `portion` bytes to a read.
fn drive(mut session: Session, inbound: &[u8], portion: usize, at_end: AtEnd) -> Run {
    let mut run = Run {
        outcome: Outcome::Waiting,
        connected_to: None,
        writes: Vec::new(),
        pauses: Vec::new(),
        reads: Vec::new(),
        consumed: 0,
    };
    let mut event = Event::Start;
    loop {
        match session.step(event) {
            Action::Connect { host, port } => {
                run.connected_to = Some((host, port));
                event = Event::Connected;
            }
            Action::Send { chunk, pause } => {
                run.writes.push(chunk);
                run.pauses.push(pause);
                event = Event::Sent;
            }
            Action::Receive { max_len } => {
                run.reads.push(max_len);
                let left = inbound.len() - run.consumed;
                if left == 0 && at_end == AtEnd::StaysSilent {
                    return run;
                }
                let n = max_len.min(portion).min(left);
                event = Event::Received(inbound[run.consumed..run.consumed + n].to_vec());
                run.consumed += n;
            }
            Action::Finish { results } => {
                run.outcome = Outcome::Finished(results);
                return run;
            }
            Action::Abort { error } => {
                run.outcome = Outcome::Aborted(error);
                return run;
            }
        }
    }
}

fn get(path: &str) -> GetRequest {
    GetRequest { path: path.to_string(), client_header: ClientHeader::AutoGenerated }
}

fn test_of(requests: Vec<GetRequest>) -> GetRequestTest {
    GetRequestTest {
        conn_addr: ConnAddr { host: "localhost".to_string(), port: 9999 },
        get_requests: requests,
        timeout: None,
    }
}

fn response(status: u32, from_cache: bool, body: &[u8]) -> Vec<u8> {
    let mut bytes = format!("HTTP/1.1 {} OK\r\nContent-Length: {}", status, body.len());
    if from_cache {
        bytes.push_str("\r\nFlexo-Payload-Origin: Cache");
    }
    bytes.push_str("\r\n\r\n");
    let mut bytes = bytes.into_bytes();
    bytes.extend_from_slice(body);
    bytes
}

fn result(status: u32, from_cache: bool, body: &[u8]) -> HttpGetResult {
    HttpGetResult {
        header_result: HeaderResult {
            status_code: status,
            content_length: body.len(),
            cached: from_cache,
        },
        payload_result: if body.is_empty() {
            None
        } else {
            Some(BodyResult { sha: Sha256::digest(body).to_vec(), size: body.len() })
        },
    }
}

#[test]
fn one_request_with_a_body_of_five_bytes() {
    let session = http_get(test_of(vec![get("/")]));
    let run = drive(
        session,
        b"HTTP/1.1 200 OK\r\nContent-Length: 5\r\n\r\nhello",
        usize::MAX,
        AtEnd::StaysSilent,
    );
    assert_eq!(
        run.outcome,
        Outcome::Finished(vec![HttpGetResult {
            header_result: HeaderResult { status_code: 200, content_length: 5, cached: false },
            payload_result: Some(BodyResult { sha: SHA256_OF_HELLO.to_vec(), size: 5 }),
        }])
    );
    assert_eq!(run.connected_to, Some(("localhost".to_string(), 9999)));
    assert_eq!(run.writes, vec![b"GET / HTTP/1.1\r\nHost: localhost\r\n\r\n".to_vec()]);
}

#[test]
fn a_response_from_the_cache_is_marked_cached() {
    let session = http_get(test_of(vec![get("/pkg")]));
    let run = drive(
        session,
        b"HTTP/1.1 200 OK\r\nFlexo-Payload-Origin: Cache\r\nContent-Length: 5\r\n\r\nhello",
        usize::MAX,
        AtEnd::StaysSilent,
    );
    match run.outcome {
        Outcome::Finished(results) => {
            assert_eq!(results.len(), 1);
            assert!(results[0].header_result.cached);
            assert_eq!(results[0].header_result.status_code, 200);
        }
        other => panic!("the session did not finish: {:?}", other),
    }
}

#[test]
fn two_requests_give_two_results_in_order() {
    let mut inbound = response(200, false, b"first");
    inbound.extend_from_slice(&response(404, true, b"the second body"));
    let session = http_get(test_of(vec![get("/one"), get("/two")]));
    let run = drive(session, &inbound, usize::MAX, AtEnd::StaysSilent);
    assert_eq!(
        run.outcome,
        Outcome::Finished(vec![
            result(200, false, b"first"),
            result(404, true, b"the second body")
        ])
    );
    assert_eq!(
        run.writes,
        vec![
            b"GET /one HTTP/1.1\r\nHost: localhost\r\n\r\n".to_vec(),
            b"GET /two HTTP/1.1\r\nHost: localhost\r\n\r\n".to_vec()
        ]
    );
    assert_eq!(run.consumed, inbound.len());
}

#[test]
fn a_silent_server_gets_no_result() {
    let session = http_get(test_of(vec![get("/")]));
    let run = drive(session, b"", usize::MAX, AtEnd::StaysSilent);
    assert_eq!(run.outcome, Outcome::Waiting);
    assert_eq!(run.writes.len(), 1);
    assert_eq!(run.reads, vec![1]);
}

#[test]
fn a_server_that_stops_midway_gets_no_partial_result() {
    let mut inbound = response(200, false, b"first");
    inbound.extend_from_slice(b"HTTP/1.1 200 OK\r\nContent-Length: 9\r\n\r\nhalf");
    let session = http_get(test_of(vec![get("/one"), get("/two")]));
    let run = drive(session, &inbound, usize::MAX, AtEnd::StaysSilent);
    assert_eq!(run.outcome, Outcome::Waiting);
    assert_eq!(run.consumed, inbound.len());
}

#[test]
fn the_default_timeout_is_five_seconds() {
    let test = test_of(vec![get("/")]);
    assert_eq!(test.effective_timeout(), Duration::from_millis(5000));
    assert_eq!(test.effective_timeout(), Duration::from_secs(5));
}

#[test]
fn a_timeout_of_the_test_case_is_kept() {
    let mut test = test_of(vec![get("/")]);
    test.timeout = Some(Duration::from_millis(120));
    assert_eq!(test.effective_timeout(), Duration::from_millis(120));
    test.timeout = Some(Duration::from_nanos(0));
    assert_eq!(test.effective_timeout(), Duration::ZERO);
}

#[test]
fn a_response_without_body_has_no_payload_result() {
    let session = http_get(test_of(vec![get("/")]));
    let run = drive(
        session,
        b"HTTP/1.1 304 Not Modified\r\nContent-Length: 0\r\n\r\n",
        usize::MAX,
        AtEnd::StaysSilent,
    );
    assert_eq!(
        run.outcome,
        Outcome::Finished(vec![HttpGetResult {
            header_result: HeaderResult { status_code: 304, content_length: 0, cached: false },
            payload_result: None,
        }])
    );
    assert_eq!(run.reads.iter().max(), Some(&1));
}

#[test]
fn a_body_is_absent_exactly_when_the_length_is_zero() {
    for length in [0usize, 1, 2, 100, 4095, 4096, 4097, 9000] {
        let body: Vec<u8> = (0..length).map(|i| (i * 7 % 256) as u8).collect();
        let session = http_get(test_of(vec![get("/")]));
        let run = drive(session, &response(200, false, &body), usize::MAX, AtEnd::Closes);
        match run.outcome {
            Outcome::Finished(results) => {
                assert_eq!(results.len(), 1);
                assert_eq!(results[0].header_result.content_length, length);
                match &results[0].payload_result {
                    None => assert_eq!(length, 0),
                    Some(payload) => {
                        assert!(length > 0);
                        assert_eq!(payload.size, length);
                        assert_eq!(payload.sha, Sha256::digest(&body).to_vec());
                    }
                }
            }
            other => panic!("the session did not finish: {:?}", other),
        }
    }
}

#[test]
fn the_header_is_read_one_byte_at_a_time_and_the_body_in_larger_reads() {
    let body = vec![b'x'; 5000];
    let inbound = response(200, false, &body);
    let header_len = inbound.len() - body.len();
    let session = http_get(test_of(vec![get("/")]));
    let run = drive(session, &inbound, usize::MAX, AtEnd::StaysSilent);
    assert_eq!(run.outcome, Outcome::Finished(vec![result(200, false, &body)]));
    assert_eq!(run.reads.len(), header_len + 2);
    assert!(run.reads[..header_len].iter().all(|n| *n == 1));
    assert_eq!(run.reads[header_len..], [4096, 904]);
}

#[test]
fn no_byte_is_read_beyond_the_last_response() {
    let mut inbound = response(200, false, b"hello");
    let wanted = inbound.len();
    inbound.extend_from_slice(b"HTTP/1.1 500 Unasked\r\n\r\n");
    let session = http_get(test_of(vec![get("/")]));
    let run = drive(session, &inbound, usize::MAX, AtEnd::StaysSilent);
    assert_eq!(run.outcome, Outcome::Finished(vec![result(200, false, b"hello")]));
    assert_eq!(run.consumed, wanted);
}

#[test]
fn short_reads_do_not_change_the_results() {
    let mut inbound = response(200, true, &vec![7u8; 6000]);
    inbound.extend_from_slice(&response(206, false, b"tail"));
    let mut outcomes = Vec::new();
    for portion in [1usize, 2, 3, 1000, 4096, usize::MAX] {
        let session = http_get(test_of(vec![get("/a"), get("/b")]));
        outcomes.push(drive(session, &inbound, portion, AtEnd::StaysSilent).outcome);
    }
    assert_eq!(
        outcomes[0],
        Outcome::Finished(vec![result(200, true, &vec![7u8; 6000]), result(206, false, b"tail")])
    );
    for outcome in &outcomes {
        assert_eq!(outcome, &outcomes[0]);
    }
}

#[test]
fn without_a_pattern_the_header_goes_out_whole_and_at_once() {
    let session = http_get(test_of(vec![get("/")]));
    let run = drive(session, &response(200, false, b""), usize::MAX, AtEnd::StaysSilent);
    assert_eq!(run.writes, vec![b"GET / HTTP/1.1\r\nHost: localhost\r\n\r\n".to_vec()]);
    assert_eq!(run.pauses, vec![None]);
}

#[test]
fn chunking_does_not_change_the_results() {
    let header_len = b"GET /file HTTP/1.1\r\nHost: localhost\r\n\r\n".len();
    let inbound = response(200, true, b"hello");
    let plain = drive(
        http_get(test_of(vec![get("/file")])),
        &inbound,
        usize::MAX,
        AtEnd::StaysSilent,
    );
    assert_eq!(plain.outcome, Outcome::Finished(vec![result(200, true, b"hello")]));
    for chunk_size in [1, header_len, header_len + 1] {
        for wait in [Duration::from_millis(0), Duration::from_millis(3)] {
            let pattern = ChunkPattern { chunk_size, wait_interval: wait };
            let session = http_get_with_header_chunked(test_of(vec![get("/file")]), Some(pattern));
            let run = drive(session, &inbound, usize::MAX, AtEnd::StaysSilent);
            assert_eq!(run.outcome, plain.outcome);
            assert_eq!(run.writes.concat(), plain.writes.concat());
            assert!(run.writes.iter().all(|w| !w.is_empty() && w.len() <= chunk_size));
        }
    }
}

#[test]
fn a_pattern_cuts_the_header_into_chunks() {
    let pattern = ChunkPattern { chunk_size: 16, wait_interval: Duration::from_millis(0) };
    let session = http_get_with_header_chunked(test_of(vec![get("/")]), Some(pattern));
    let run = drive(session, &response(200, false, b""), usize::MAX, AtEnd::StaysSilent);
    assert_eq!(
        run.writes,
        vec![
            b"GET / HTTP/1.1\r\n".to_vec(),
            b"Host: localhost\r".to_vec(),
            b"\n\r\n".to_vec()
        ]
    );
    assert_eq!(run.pauses, vec![None, None, None]);
}

#[test]
fn the_sender_rests_between_chunks_but_not_before_the_first() {
    let rest = Duration::from_millis(25);
    let pattern = ChunkPattern { chunk_size: 16, wait_interval: rest };
    let session =
        http_get_with_header_chunked(test_of(vec![get("/"), get("/")]), Some(pattern));
    let mut inbound = response(200, false, b"");
    inbound.extend_from_slice(&response(200, false, b""));
    let run = drive(session, &inbound, usize::MAX, AtEnd::StaysSilent);
    assert_eq!(run.writes.len(), 6);
    assert_eq!(run.pauses, vec![None, Some(rest), Some(rest), None, Some(rest), Some(rest)]);
}

#[test]
fn a_custom_header_is_sent_as_it_is() {
    let request = GetRequest {
        path: "/unused".to_string(),
        client_header: ClientHeader::Custom("BREW /pot HTCPCP/1.0\r\n\r\n".to_string()),
    };
    let session = http_get(test_of(vec![request]));
    let run = drive(session, &response(418, false, b"teapot"), usize::MAX, AtEnd::StaysSilent);
    assert_eq!(run.writes, vec![b"BREW /pot HTCPCP/1.0\r\n\r\n".to_vec()]);
    assert_eq!(run.outcome, Outcome::Finished(vec![result(418, false, b"teapot")]));
}

#[test]
fn an_empty_custom_header_sends_nothing_and_reads_at_once() {
    let request =
        GetRequest { path: "/".to_string(), client_header: ClientHeader::Custom(String::new()) };
    let session = http_get(test_of(vec![request]));
    let run = drive(session, &response(200, false, b"ok"), usize::MAX, AtEnd::StaysSilent);
    assert!(run.writes.is_empty());
    assert_eq!(run.outcome, Outcome::Finished(vec![result(200, false, b"ok")]));
}

#[test]
fn a_session_without_requests_finishes_with_no_results() {
    let session = http_get(test_of(Vec::new()));
    let run = drive(session, b"", usize::MAX, AtEnd::StaysSilent);
    assert_eq!(run.outcome, Outcome::Finished(Vec::new()));
    assert_eq!(run.connected_to, Some(("localhost".to_string(), 9999)));
    assert!(run.writes.is_empty());
    assert!(run.reads.is_empty());
}

#[test]
fn results_follow_the_order_of_the_requests() {
    let bodies: Vec<Vec<u8>> = (0..6u8).map(|i| vec![i; (i as usize) * 3]).collect();
    let mut inbound = Vec::new();
    let mut expected = Vec::new();
    let mut requests = Vec::new();
    for (i, body) in bodies.iter().enumerate() {
        inbound.extend_from_slice(&response(200 + i as u32, i % 2 == 1, body));
        expected.push(result(200 + i as u32, i % 2 == 1, body));
        requests.push(get(&format!("/{}", i)));
    }
    let run = drive(http_get(test_of(requests)), &inbound, 5, AtEnd::StaysSilent);
    assert_eq!(run.outcome, Outcome::Finished(expected));
    let paths: Vec<Vec<u8>> = (0..6)
        .map(|i| format!("GET /{} HTTP/1.1\r\nHost: localhost\r\n\r\n", i).into_bytes())
        .collect();
    assert_eq!(run.writes, paths);
}

#[test]
fn the_phases_of_one_exchange() {
    let pattern = ChunkPattern { chunk_size: 30, wait_interval: Duration::from_millis(1) };
    let mut session = http_get_with_header_chunked(test_of(vec![get("/")]), Some(pattern));
    assert_eq!(session.phase(), Phase::Idle);
    assert!(matches!(session.step(Event::Start), Action::Connect { .. }));
    assert_eq!(session.phase(), Phase::Connecting);
    assert!(matches!(session.step(Event::Connected), Action::Send { .. }));
    assert_eq!(session.phase(), Phase::Sending);
    assert!(matches!(session.step(Event::Sent), Action::Send { .. }));
    assert_eq!(session.phase(), Phase::Sending);
    assert!(matches!(session.step(Event::Sent), Action::Receive { max_len: 1 }));
    assert_eq!(session.phase(), Phase::ReadingHeader);
    for byte in b"HTTP/1.1 200 OK\r\nContent-Length: 2\r\n\r" {
        assert!(matches!(
            session.step(Event::Received(vec![*byte])),
            Action::Receive { max_len: 1 }
        ));
        assert_eq!(session.phase(), Phase::ReadingHeader);
    }
    assert!(matches!(session.step(Event::Received(vec![b'\n'])), Action::Receive { max_len: 2 }));
    assert_eq!(session.phase(), Phase::ReadingBody);
    assert!(matches!(session.step(Event::Received(vec![b'o'])), Action::Receive { max_len: 1 }));
    assert_eq!(session.phase(), Phase::ReadingBody);
    match session.step(Event::Received(vec![b'k'])) {
        Action::Finish { results } => assert_eq!(results, vec![result(200, false, b"ok")]),
        _ => panic!("the session did not finish"),
    }
    assert_eq!(session.phase(), Phase::Finished);
}

#[test]
fn results_are_handed_over_once() {
    let mut session = http_get(test_of(Vec::new()));
    session.step(Event::Start);
    assert!(matches!(session.step(Event::Connected), Action::Finish { .. }));
    assert!(matches!(
        session.step(Event::Connected),
        Action::Abort { error: SessionError::Protocol }
    ));
    assert_eq!(session.phase(), Phase::Aborted);
}

#[test]
fn a_peer_that_closes_before_the_blank_line_ends_the_session() {
    let session = http_get(test_of(vec![get("/")]));
    let run = drive(session, b"HTTP/1.1 200 OK\r\nContent-Le", usize::MAX, AtEnd::Closes);
    assert_eq!(run.outcome, Outcome::Aborted(SessionError::PeerClosed));
    let session = http_get(test_of(vec![get("/")]));
    let run = drive(session, b"", usize::MAX, AtEnd::Closes);
    assert_eq!(run.outcome, Outcome::Aborted(SessionError::PeerClosed));
}

#[test]
fn a_peer_that_closes_before_the_body_is_complete_ends_the_session() {
    let session = http_get(test_of(vec![get("/")]));
    let run = drive(
        session,
        b"HTTP/1.1 200 OK\r\nContent-Length: 5\r\n\r\nhell",
        usize::MAX,
        AtEnd::Closes,
    );
    assert_eq!(run.outcome, Outcome::Aborted(SessionError::ShortBody));
}

#[test]
fn a_failure_in_an_earlier_exchange_leaves_no_results() {
    let mut inbound = response(200, false, b"fine");
    inbound.extend_from_slice(b"HTTP/1.1 200 OK\r\n\r\n");
    let session = http_get(test_of(vec![get("/a"), get("/b"), get("/c")]));
    let run = drive(session, &inbound, usize::MAX, AtEnd::Closes);
    assert_eq!(
        run.outcome,
        Outcome::Aborted(SessionError::Header(HeaderError::MissingContentLength))
    );
    assert_eq!(run.writes.len(), 2);
}

#[test]
fn a_header_that_cannot_be_read_ends_the_session() {
    let cases: [(&[u8], HeaderError); 4] = [
        (b"HTTP/1.1 200 OK\r\nServer: x\r\n\r\n", HeaderError::MissingContentLength),
        (b"HTTP/1.1 200 OK\r\nContent-Length: many\r\n\r\n", HeaderError::InvalidContentLength),
        (b"HTTP/1.1\r\nContent-Length:\t1\r\nContent-Length: 1\r\n\r\n", HeaderError::MissingStatus),
        (b"HTTP/1.1 two hundred\r\nContent-Length: 1\r\n\r\n", HeaderError::InvalidStatus),
    ];
    for (inbound, error) in cases {
        let session = http_get(test_of(vec![get("/")]));
        let run = drive(session, inbound, usize::MAX, AtEnd::Closes);
        assert_eq!(run.outcome, Outcome::Aborted(SessionError::Header(error)));
    }
}

#[test]
fn a_header_without_end_is_too_large() {
    let inbound = vec![b'h'; 5000];
    let session = http_get(test_of(vec![get("/")]));
    let run = drive(session, &inbound, usize::MAX, AtEnd::Closes);
    assert_eq!(run.outcome, Outcome::Aborted(SessionError::HeaderTooLarge));
    assert_eq!(run.consumed, 4096);
}

#[test]
fn a_header_that_just_fits_is_read() {
    let mut inbound = b"HTTP/1.1 200 OK\r\nContent-Length: 1\r\nPad: ".to_vec();
    while inbound.len() < 4092 {
        inbound.push(b'p');
    }
    inbound.extend_from_slice(b"\r\n\r\n!");
    let session = http_get(test_of(vec![get("/")]));
    let run = drive(session, &inbound, usize::MAX, AtEnd::Closes);
    assert_eq!(run.outcome, Outcome::Finished(vec![result(200, false, b"!")]));
}

#[test]
fn a_failure_of_the_connection_ends_the_session() {
    let mut session = http_get(test_of(vec![get("/")]));
    session.step(Event::Start);
    assert!(matches!(
        session.step(Event::Failed),
        Action::Abort { error: SessionError::Connection }
    ));
    assert_eq!(session.phase(), Phase::Aborted);

    let mut session = http_get(test_of(vec![get("/")]));
    session.step(Event::Start);
    session.step(Event::Connected);
    assert!(matches!(
        session.step(Event::Failed),
        Action::Abort { error: SessionError::Connection }
    ));

    let mut session = http_get(test_of(vec![get("/")]));
    session.step(Event::Start);
    session.step(Event::Connected);
    session.step(Event::Sent);
    assert!(matches!(
        session.step(Event::Failed),
        Action::Abort { error: SessionError::Connection }
    ));

    let mut session = http_get(test_of(vec![get("/")]));
    session.step(Event::Start);
    session.step(Event::Connected);
    session.step(Event::Sent);
    for byte in b"HTTP/1.1 200 OK\r\nContent-Length: 2\r\n\r\n" {
        session.step(Event::Received(vec![*byte]));
    }
    assert_eq!(session.phase(), Phase::ReadingBody);
    assert!(matches!(
        session.step(Event::Failed),
        Action::Abort { error: SessionError::Connection }
    ));
}

#[test]
fn an_event_that_answers_nothing_ends_the_session() {
    let mut session = http_get(test_of(vec![get("/")]));
    assert!(matches!(
        session.step(Event::Connected),
        Action::Abort { error: SessionError::Protocol }
    ));

    let mut session = http_get(test_of(vec![get("/")]));
    assert!(matches!(
        session.step(Event::Failed),
        Action::Abort { error: SessionError::Protocol }
    ));

    let mut session = http_get(test_of(vec![get("/")]));
    session.step(Event::Start);
    assert!(matches!(session.step(Event::Start), Action::Abort { error: SessionError::Protocol }));

    let mut session = http_get(test_of(vec![get("/")]));
    session.step(Event::Start);
    session.step(Event::Connected);
    assert!(matches!(
        session.step(Event::Received(vec![1])),
        Action::Abort { error: SessionError::Protocol }
    ));

    let mut session = http_get(test_of(vec![get("/")]));
    session.step(Event::Start);
    session.step(Event::Connected);
    session.step(Event::Sent);
    assert!(matches!(session.step(Event::Sent), Action::Abort { error: SessionError::Protocol }));
}

#[test]
fn a_read_that_brings_more_than_was_asked_for_ends_the_session() {
    let mut session = http_get(test_of(vec![get("/")]));
    session.step(Event::Start);
    session.step(Event::Connected);
    session.step(Event::Sent);
    assert!(matches!(
        session.step(Event::Received(b"HT".to_vec())),
        Action::Abort { error: SessionError::Protocol }
    ));

    let mut session = http_get(test_of(vec![get("/")]));
    session.step(Event::Start);
    session.step(Event::Connected);
    session.step(Event::Sent);
    for byte in b"HTTP/1.1 200 OK\r\nContent-Length: 2\r\n\r\n" {
        session.step(Event::Received(vec![*byte]));
    }
    assert!(matches!(
        session.step(Event::Received(b"abc".to_vec())),
        Action::Abort { error: SessionError::Protocol }
    ));
}

#[test]
fn a_session_that_was_given_up_stays_given_up() {
    let mut session = http_get(test_of(vec![get("/")]));
    session.step(Event::Failed);
    assert_eq!(session.phase(), Phase::Aborted);
    for event in [Event::Start, Event::Connected, Event::Sent, Event::Received(vec![1])] {
        assert!(matches!(session.step(event), Action::Abort { error: SessionError::Protocol }));
        assert_eq!(session.phase(), Phase::Aborted);
    }
}

#[test]
fn results_compare_by_value() {
    let a = result(200, true, b"hello");
    assert_eq!(a.clone(), a);
    assert_ne!(a, result(200, false, b"hello"));
    assert_ne!(a, result(200, true, b"hellO"));
    assert_ne!(a, result(201, true, b"hello"));
    assert_eq!(format!("{:?}", a.header_result.status_code), "200");
}

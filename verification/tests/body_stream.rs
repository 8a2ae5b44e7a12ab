use integration_test_client::body::{BodyResult, BodyStep, BodyStreamer, BUF_SIZE};
use sha2::{Digest, Sha256};

const SHA256_OF_HELLO: [u8; 32] = [
    0x2c, 0xf2, 0x4d, 0xba, 0x5f, 0xb0, 0xa3, 0x0e, 0x26, 0xe8, 0x3b, 0x2a, 0xc5, 0xb9, 0xe2,
    0x9e, 0x1b, 0x16, 0x1e, 0x5c, 0x1f, 0xa7, 0x42, 0x5e, 0x73, 0x04, 0x33, 0x62, 0x93, 0x8b,
    0x98, 0x24,
];

const SHA256_OF_NOTHING: [u8; 32] = [
    0xe3, 0xb0, 0xc4, 0x42, 0x98, 0xfc, 0x1c, 0x14, 0x9a, 0xfb, 0xf4, 0xc8, 0x99, 0x6f, 0xb9,
    0x24, 0x27, 0xae, 0x41, 0xe4, 0x64, 0x9b, 0x93, 0x4c, 0xa4, 0x95, 0x99, 0x1b, 0x78, 0x52,
    0xb8, 0x55,
];

#[test]
fn a_body_in_one_read_gives_its_digest_and_length() {
    let mut streamer = BodyStreamer::new(5);
    assert_eq!(streamer.remaining(), 5);
    assert_eq!(streamer.next_read(), 5);
    assert_eq!(streamer.feed(b"hello"), BodyStep::Complete);
    assert_eq!(streamer.remaining(), 0);
    assert_eq!(
        streamer.finish(),
        Some(BodyResult { sha: SHA256_OF_HELLO.to_vec(), size: 5 })
    );
}

#[test]
fn the_digest_is_not_the_body() {
    let mut streamer = BodyStreamer::new(5);
    streamer.feed(b"hello");
    let body = streamer.finish().unwrap();
    assert_eq!(body.sha.len(), 32);
    assert_ne!(body.sha, b"hello".to_vec());
}

#[test]
fn a_body_in_many_reads_gives_the_same_digest() {
    let mut streamer = BodyStreamer::new(5);
    assert_eq!(streamer.feed(b"h"), BodyStep::Incomplete);
    assert_eq!(streamer.next_read(), 4);
    assert_eq!(streamer.feed(b"el"), BodyStep::Incomplete);
    assert_eq!(streamer.feed(b"l"), BodyStep::Incomplete);
    assert_eq!(streamer.remaining(), 1);
    assert_eq!(streamer.feed(b"o"), BodyStep::Complete);
    assert_eq!(
        streamer.finish(),
        Some(BodyResult { sha: SHA256_OF_HELLO.to_vec(), size: 5 })
    );
}

#[test]
fn the_order_of_the_bytes_counts() {
    let mut streamer = BodyStreamer::new(5);
    streamer.feed(b"llo");
    streamer.feed(b"he");
    let body = streamer.finish().unwrap();
    assert_eq!(body.sha, Sha256::digest(b"llohe").to_vec());
    assert_ne!(body.sha, SHA256_OF_HELLO.to_vec());
}

#[test]
fn a_read_asks_for_no_more_than_the_buffer_holds() {
    let streamer = BodyStreamer::new(BUF_SIZE + 1);
    assert_eq!(BUF_SIZE, 4096);
    assert_eq!(streamer.next_read(), BUF_SIZE);
    let exact = BodyStreamer::new(BUF_SIZE);
    assert_eq!(exact.next_read(), BUF_SIZE);
    let huge = BodyStreamer::new(usize::MAX);
    assert_eq!(huge.next_read(), BUF_SIZE);
    assert_eq!(huge.remaining(), usize::MAX);
}

#[test]
fn a_long_body_is_hashed_across_many_reads() {
    let body: Vec<u8> = (0..10_000u32).map(|i| (i % 251) as u8).collect();
    let mut streamer = BodyStreamer::new(body.len());
    let mut at = 0;
    let mut reads = 0;
    loop {
        let want = streamer.next_read();
        assert!(want <= BUF_SIZE);
        let step = streamer.feed(&body[at..at + want]);
        at += want;
        reads += 1;
        if step == BodyStep::Complete {
            break;
        }
        assert_eq!(step, BodyStep::Incomplete);
    }
    assert_eq!(at, body.len());
    assert_eq!(reads, 3);
    assert_eq!(
        streamer.finish(),
        Some(BodyResult { sha: Sha256::digest(&body).to_vec(), size: 10_000 })
    );
}

#[test]
fn a_read_that_brings_nothing_early_is_the_peer_closing() {
    let mut streamer = BodyStreamer::new(5);
    assert_eq!(streamer.feed(b"he"), BodyStep::Incomplete);
    assert_eq!(streamer.feed(b""), BodyStep::Closed);
    assert_eq!(streamer.remaining(), 3);
    assert_eq!(streamer.finish(), None);
}

#[test]
fn a_read_that_brings_too_much_is_refused() {
    let mut streamer = BodyStreamer::new(5);
    assert_eq!(streamer.feed(b"hello!"), BodyStep::Overrun);
    assert_eq!(streamer.remaining(), 5);
    assert_eq!(streamer.feed(b"hello"), BodyStep::Complete);
    assert_eq!(streamer.feed(b"!"), BodyStep::Overrun);
    assert_eq!(streamer.feed(b""), BodyStep::Complete);
    assert_eq!(
        streamer.finish(),
        Some(BodyResult { sha: SHA256_OF_HELLO.to_vec(), size: 5 })
    );
}

#[test]
fn a_read_larger_than_the_buffer_is_refused() {
    let mut streamer = BodyStreamer::new(3 * BUF_SIZE);
    let data = vec![0u8; BUF_SIZE + 1];
    assert_eq!(streamer.feed(&data), BodyStep::Overrun);
    assert_eq!(streamer.feed(&data[..BUF_SIZE]), BodyStep::Incomplete);
    assert_eq!(streamer.remaining(), 2 * BUF_SIZE);
}

#[test]
fn an_unfinished_body_has_no_result() {
    let streamer = BodyStreamer::new(1);
    assert_eq!(streamer.finish(), None);
}

#[test]
fn an_empty_body_is_complete_at_once() {
    let mut streamer = BodyStreamer::new(0);
    assert_eq!(streamer.next_read(), 0);
    assert_eq!(streamer.feed(b""), BodyStep::Complete);
    assert_eq!(
        streamer.finish(),
        Some(BodyResult { sha: SHA256_OF_NOTHING.to_vec(), size: 0 })
    );
}

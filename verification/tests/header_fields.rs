use integration_test_client::header::{
    cached, content_length, get_header_value, parse_header, status_code, HeaderError,
    HeaderResult,
};

#[test]
fn reads_the_fields_of_a_plain_header() {
    let header = b"HTTP/1.1 200 OK\r\nContent-Length: 5";
    assert_eq!(status_code(header), Ok(200));
    assert_eq!(content_length(header), Ok(5));
    assert!(!cached(header));
    assert_eq!(
        parse_header(header),
        Ok(HeaderResult { status_code: 200, content_length: 5, cached: false })
    );
}

#[test]
fn origin_cache_sets_the_cache_flag() {
    let header = b"HTTP/1.1 200 OK\r\nContent-Length: 5\r\nFlexo-Payload-Origin: Cache";
    assert!(cached(header));
    assert_eq!(
        parse_header(header),
        Ok(HeaderResult { status_code: 200, content_length: 5, cached: true })
    );
}

#[test]
fn any_other_origin_leaves_the_cache_flag_unset() {
    assert!(!cached(b"HTTP/1.1 200 OK\r\nFlexo-Payload-Origin: Remote\r\nContent-Length: 1"));
    assert!(!cached(b"HTTP/1.1 200 OK\r\nFlexo-Payload-Origin: Cache \r\nContent-Length: 1"));
    assert!(!cached(b"HTTP/1.1 200 OK\r\nFlexo-Payload-Origin: cache\r\nContent-Length: 1"));
    assert!(!cached(b"HTTP/1.1 200 OK\r\nFlexo-Payload-Origin: Cach"));
    assert!(!cached(b"HTTP/1.1 200 OK\r\nFlexo-Payload-Origin: "));
}

#[test]
fn a_header_without_the_origin_field_is_not_cached() {
    assert!(!cached(b"HTTP/1.1 404 Not Found\r\nContent-Length: 0"));
    assert!(!cached(b""));
}

#[test]
fn an_origin_that_is_not_text_is_not_cached() {
    assert!(!cached(b"HTTP/1.1 200 OK\r\nFlexo-Payload-Origin: \xff\xfe\r\nContent-Length: 1"));
}

#[test]
fn the_first_origin_field_counts() {
    let header =
        b"HTTP/1.1 200 OK\r\nFlexo-Payload-Origin: Remote\r\nFlexo-Payload-Origin: Cache";
    assert!(!cached(header));
}

#[test]
fn header_value_runs_to_the_carriage_return() {
    let header = b"A: one\r\nB: two\r\nC: three";
    assert_eq!(get_header_value(header, b"A: "), Some(&b"one"[..]));
    assert_eq!(get_header_value(header, b"B: "), Some(&b"two"[..]));
}

#[test]
fn header_value_runs_to_the_end_without_a_carriage_return() {
    let header = b"A: one\r\nB: two\r\nC: three";
    assert_eq!(get_header_value(header, b"C: "), Some(&b"three"[..]));
}

#[test]
fn header_value_of_an_absent_keyword_is_none() {
    assert_eq!(get_header_value(b"A: one\r\nB: two", b"D: "), None);
    assert_eq!(get_header_value(b"", b"D: "), None);
    assert_eq!(get_header_value(b"D:", b"D: "), None);
}

#[test]
fn header_value_takes_the_first_occurrence() {
    let header = b"X: 1\r\nX: 2\r\nX: 3";
    assert_eq!(get_header_value(header, b"X: "), Some(&b"1"[..]));
}

#[test]
fn header_value_may_be_empty() {
    assert_eq!(get_header_value(b"X: \r\nY: 2", b"X: "), Some(&b""[..]));
    assert_eq!(get_header_value(b"Y: 2\r\nX: ", b"X: "), Some(&b""[..]));
}

#[test]
fn header_value_stops_at_a_carriage_return_without_line_feed() {
    assert_eq!(get_header_value(b"X: ab\rcd", b"X: "), Some(&b"ab"[..]));
    assert_eq!(get_header_value(b"X: ab\ncd", b"X: "), Some(&b"ab\ncd"[..]));
}

#[test]
fn the_keyword_is_found_anywhere_in_the_header() {
    let header = b"HTTP/1.1 200 OK\r\nX-Note: Content-Length: 7\r\nContent-Length: 9";
    assert_eq!(content_length(header), Ok(7));
}

#[test]
fn header_without_content_length_is_rejected() {
    let header = b"HTTP/1.1 200 OK";
    assert_eq!(content_length(header), Err(HeaderError::MissingContentLength));
    assert_eq!(parse_header(header), Err(HeaderError::MissingContentLength));
}

#[test]
fn the_content_length_keyword_is_matched_to_the_letter() {
    assert_eq!(
        content_length(b"HTTP/1.1 200 OK\r\ncontent-length: 5"),
        Err(HeaderError::MissingContentLength)
    );
    assert_eq!(
        content_length(b"HTTP/1.1 200 OK\r\nContent-Length:5"),
        Err(HeaderError::MissingContentLength)
    );
}

#[test]
fn content_length_that_is_no_number_is_rejected() {
    assert_eq!(
        content_length(b"HTTP/1.1 200 OK\r\nContent-Length: five"),
        Err(HeaderError::InvalidContentLength)
    );
    assert_eq!(
        content_length(b"HTTP/1.1 200 OK\r\nContent-Length: "),
        Err(HeaderError::InvalidContentLength)
    );
    assert_eq!(
        content_length(b"HTTP/1.1 200 OK\r\nContent-Length: -5"),
        Err(HeaderError::InvalidContentLength)
    );
    assert_eq!(
        content_length(b"HTTP/1.1 200 OK\r\nContent-Length: 5 "),
        Err(HeaderError::InvalidContentLength)
    );
    assert_eq!(
        content_length(b"HTTP/1.1 200 OK\r\nContent-Length:  5"),
        Err(HeaderError::InvalidContentLength)
    );
}

#[test]
fn content_length_beyond_usize_is_rejected() {
    let too_large = format!("HTTP/1.1 200 OK\r\nContent-Length: {}0", usize::MAX);
    assert_eq!(content_length(too_large.as_bytes()), Err(HeaderError::InvalidContentLength));
    let largest = format!("HTTP/1.1 200 OK\r\nContent-Length: {}", usize::MAX);
    assert_eq!(content_length(largest.as_bytes()), Ok(usize::MAX));
}

#[test]
fn content_length_zero_is_read() {
    assert_eq!(content_length(b"HTTP/1.1 304 Not Modified\r\nContent-Length: 0"), Ok(0));
}

#[test]
fn status_is_the_token_between_the_first_two_blanks() {
    assert_eq!(status_code(b"HTTP/1.1 404 Not Found\r\nContent-Length: 0"), Ok(404));
    assert_eq!(status_code(b"X 7 Y"), Ok(7));
    assert_eq!(status_code(b"GET 200 "), Ok(200));
}

#[test]
fn status_without_two_blanks_is_missing() {
    assert_eq!(status_code(b""), Err(HeaderError::MissingStatus));
    assert_eq!(status_code(b"HTTP/1.1"), Err(HeaderError::MissingStatus));
    assert_eq!(status_code(b"HTTP/1.1 200"), Err(HeaderError::MissingStatus));
}

#[test]
fn status_that_is_no_number_is_invalid() {
    assert_eq!(status_code(b"HTTP/1.1 OK 200"), Err(HeaderError::InvalidStatus));
    assert_eq!(status_code(b"HTTP/1.1  200 OK"), Err(HeaderError::InvalidStatus));
    assert_eq!(status_code(b"HTTP/1.1 2x0 OK"), Err(HeaderError::InvalidStatus));
}

#[test]
fn status_without_reason_runs_into_the_next_line() {
    let header = b"HTTP/1.1 200\r\nContent-Length: 5";
    assert_eq!(status_code(header), Err(HeaderError::InvalidStatus));
}

#[test]
fn status_beyond_u32_is_invalid() {
    assert_eq!(status_code(b"HTTP/1.1 4294967295 OK"), Ok(u32::MAX));
    assert_eq!(status_code(b"HTTP/1.1 4294967296 OK"), Err(HeaderError::InvalidStatus));
}

#[test]
fn content_length_errors_come_before_status_errors() {
    assert_eq!(parse_header(b"nothing"), Err(HeaderError::MissingContentLength));
    assert_eq!(
        parse_header(b"HTTP/1.1\r\nContent-Length: x"),
        Err(HeaderError::InvalidContentLength)
    );
    assert_eq!(parse_header(b"HTTP/1.1\r\nContent-Length:\t5"), Err(HeaderError::MissingContentLength));
    assert_eq!(parse_header(b"Content-Length: 5"), Err(HeaderError::MissingStatus));
    assert_eq!(parse_header(b"HTTP/1.1 abc OK\r\nContent-Length: 5"), Err(HeaderError::InvalidStatus));
}

fn written(status: u32, length: usize, from_cache: bool) -> Vec<u8> {
    let mut text = format!("HTTP/1.1 {} OK\r\nContent-Length: {}", status, length);
    if from_cache {
        text.push_str("\r\nFlexo-Payload-Origin: Cache");
    }
    text.into_bytes()
}

#[test]
fn a_written_header_is_read_back() {
    let statuses = [0u32, 7, 99, 100, 200, 304, 404, 500, 65535, u32::MAX];
    let lengths = [0usize, 1, 5, 9, 10, 4096, 1_000_000, usize::MAX];
    for status in statuses {
        for length in lengths {
            for from_cache in [false, true] {
                let header = written(status, length, from_cache);
                assert_eq!(
                    parse_header(&header),
                    Ok(HeaderResult {
                        status_code: status,
                        content_length: length,
                        cached: from_cache
                    })
                );
            }
        }
    }
}

//! The header of a well-formed response, and the proof that the client reads
//! it back.
//!
//! `response_header` writes down the header that says a given status code,
//! content length and cache flag, in the form the client expects:
//!
//! ```text
//! HTTP/1.1 <status> OK\r\n
//! Content-Length: <length>\r\n
//! Flexo-Payload-Origin: Cache
//! ```
//!
//! with the numbers in decimal and the last line only where the payload came
//! from the cache. The blank line that ends the header is not part of it.
//! The theorems of this module show that framing and reading such a header
//! gives back the three values, whatever they are.

use vstd::prelude::*;
use crate::body::body_result_of;
use crate::decimal::{all_digits, decimal_digits, is_digit, lemma_decimal_digits};
use crate::framer::{separator, MAX_HEADER_SIZE};
use crate::header::{
    blank, cache_origin, cached_spec, carriage_return, content_length_keyword, header_value,
    parse_header_spec, payload_origin_keyword, status_token, HeaderError, HeaderResult,
};
use crate::search::{first_match, lemma_first_match_none, lemma_first_match_unique, matches_at};
use crate::session::{ActionView, EventView, HttpGetResultView, SessionView};
use crate::transcript::{
    decode_response, decode_responses, fresh, inbound_of, last_action, theorem_results,
};

verus! {

/// The bytes of `HTTP/1.1 `.
pub open spec fn status_line_start() -> Seq<u8> {
    seq![72u8, 84, 84, 80, 47, 49, 46, 49, 32]
}

/// The bytes of ` OK\r\n`.
pub open spec fn status_line_end() -> Seq<u8> {
    seq![32u8, 79, 75, 13, 10]
}

/// The bytes of `\r\n`.
pub open spec fn line_break() -> Seq<u8> {
    seq![13u8, 10]
}

/// The line that says where the payload came from: nothing where it did not
/// come from the cache, and a line break with `Flexo-Payload-Origin: Cache`
/// where it did.
pub open spec fn origin_line(cached: bool) -> Seq<u8> {
    if cached {
        line_break() + payload_origin_keyword() + cache_origin()
    } else {
        Seq::empty()
    }
}

/// The header, without its blank line, of a response with the status code,
/// the content length and the cache flag of `head`.
pub open spec fn response_header(head: HeaderResult) -> Seq<u8> {
    status_line_start() + decimal_digits(head.status_code as nat) + status_line_end()
        + content_length_keyword() + decimal_digits(head.content_length as nat) + origin_line(
        head.cached,
    )
}

/// Ten to the power of `k`.
pub open spec fn pow10(k: nat) -> nat
    decreases k,
{
    if k == 0 {
        1
    } else {
        10 * pow10((k - 1) as nat)
    }
}

/// A number below ten to the `k` is written with at most `k` digits.
pub proof fn lemma_decimal_digits_len(n: nat, k: nat)
    requires
        k >= 1,
        n < pow10(k),
    ensures
        decimal_digits(n).len() <= k,
    decreases k,
{
    if n >= 10 {
        assert(pow10(1) == 10) by {
            reveal_with_fuel(pow10, 2);
        }
        lemma_decimal_digits_len(n / 10, (k - 1) as nat);
    }
}

/// A match of a one-byte pattern is an occurrence of the byte.
pub proof fn lemma_byte_match(s: Seq<u8>, byte: u8, j: int)
    ensures
        matches_at(s, seq![byte], j) <==> 0 <= j < s.len() && s[j] == byte,
{
    if 0 <= j < s.len() {
        let w = s.subrange(j, j + 1);
        assert(w[0] == s[j]);
        if s[j] == byte {
            assert(w =~= seq![byte]);
        }
    }
}

/// A pattern matches only where its first byte occurs.
pub proof fn lemma_match_starts_with(s: Seq<u8>, pat: Seq<u8>, j: int)
    requires
        pat.len() > 0,
        matches_at(s, pat, j),
    ensures
        0 <= j < s.len(),
        s[j] == pat[0],
{
    let w = s.subrange(j, j + pat.len());
    assert(w[0] == s[j]);
}

/// The index in a response header at which the digits of the status code
/// end.
pub open spec fn status_end(head: HeaderResult) -> int {
    9 + decimal_digits(head.status_code as nat).len() as int
}

/// The index in a response header at which the digits of the content length
/// begin.
pub open spec fn length_start(head: HeaderResult) -> int {
    status_end(head) + 21
}

/// The index in a response header at which the digits of the content length
/// end.
pub open spec fn length_end(head: HeaderResult) -> int {
    length_start(head) + decimal_digits(head.content_length as nat).len() as int
}

/// What stands where in a response header.
pub open spec fn laid_out(head: HeaderResult, s: Seq<u8>) -> bool {
    let d1 = decimal_digits(head.status_code as nat);
    let d2 = decimal_digits(head.content_length as nat);
    let e1 = status_end(head);
    let s2 = length_start(head);
    let e2 = length_end(head);
    &&& s.len() == e2 + origin_line(head.cached).len()
    &&& forall|j: int| 0 <= j < 9 ==> #[trigger] s[j] == status_line_start()[j]
    &&& forall|j: int| 9 <= j < e1 ==> #[trigger] s[j] == d1[j - 9]
    &&& forall|j: int| e1 <= j < e1 + 5 ==> #[trigger] s[j] == status_line_end()[j - e1]
    &&& forall|j: int| e1 + 5 <= j < s2 ==> #[trigger] s[j] == content_length_keyword()[j - e1 - 5]
    &&& forall|j: int| s2 <= j < e2 ==> #[trigger] s[j] == d2[j - s2]
    &&& forall|j: int| e2 <= j < s.len() ==> #[trigger] s[j] == origin_line(head.cached)[j - e2]
}

/// A response header is laid out as `laid_out` says.
pub proof fn lemma_laid_out(head: HeaderResult)
    ensures
        laid_out(head, response_header(head)),
        decimal_digits(head.status_code as nat).len() >= 1,
        decimal_digits(head.content_length as nat).len() >= 1,
        all_digits(decimal_digits(head.status_code as nat)),
        all_digits(decimal_digits(head.content_length as nat)),
{
    lemma_decimal_digits(head.status_code as nat);
    lemma_decimal_digits(head.content_length as nat);
}

/// The status token of a response header is the digits of its status code.
pub proof fn lemma_status_token(head: HeaderResult)
    ensures
        status_token(response_header(head)) == Some(decimal_digits(head.status_code as nat)),
{
    let s = response_header(head);
    let d1 = decimal_digits(head.status_code as nat);
    let e1 = status_end(head);
    lemma_laid_out(head);
    assert forall|j: int| 0 <= j < 8 implies !matches_at(s, blank(), j) by {
        lemma_byte_match(s, 32, j);
    }
    lemma_byte_match(s, 32, 8);
    lemma_first_match_unique(s, blank(), 0, 8);
    assert forall|j: int| 9 <= j < e1 implies !matches_at(s, blank(), j) by {
        lemma_byte_match(s, 32, j);
        assert(is_digit(d1[j - 9]));
    }
    lemma_byte_match(s, 32, e1);
    lemma_first_match_unique(s, blank(), 9, e1);
    assert(s.subrange(9, e1) =~= d1);
}

/// No byte before the content length field of a response header is a `C`.
proof fn lemma_no_c_before_length(head: HeaderResult, j: int)
    requires
        0 <= j < status_end(head) + 5,
    ensures
        response_header(head)[j] != 67,
{
    let s = response_header(head);
    let d1 = decimal_digits(head.status_code as nat);
    lemma_laid_out(head);
    if 9 <= j < status_end(head) {
        assert(is_digit(d1[j - 9]));
    }
}

/// No byte before the origin line of a response header is an `F`, and none
/// in the line break that begins the origin line.
proof fn lemma_no_f_before_origin(head: HeaderResult, j: int)
    requires
        0 <= j < response_header(head).len(),
        head.cached ==> j < length_end(head) + 2,
    ensures
        response_header(head)[j] != 70,
{
    let s = response_header(head);
    let d1 = decimal_digits(head.status_code as nat);
    let d2 = decimal_digits(head.content_length as nat);
    lemma_laid_out(head);
    if 9 <= j < status_end(head) {
        assert(is_digit(d1[j - 9]));
    }
    if length_start(head) <= j < length_end(head) {
        assert(is_digit(d2[j - length_start(head)]));
    }
}

/// The bytes of a response header that are carriage returns: the one that
/// ends the status line, and the one that begins the origin line.
proof fn lemma_carriage_returns(head: HeaderResult, j: int)
    requires
        0 <= j < response_header(head).len(),
        response_header(head)[j] == 13,
    ensures
        j == status_end(head) + 3 || (head.cached && j == length_end(head)),
{
    let s = response_header(head);
    let d1 = decimal_digits(head.status_code as nat);
    let d2 = decimal_digits(head.content_length as nat);
    lemma_laid_out(head);
    if 9 <= j < status_end(head) {
        assert(is_digit(d1[j - 9]));
    }
    if length_start(head) <= j < length_end(head) {
        assert(is_digit(d2[j - length_start(head)]));
    }
}

/// The value of the content length field of a response header is the digits
/// of its content length.
pub proof fn lemma_content_length_value(head: HeaderResult)
    ensures
        header_value(response_header(head), content_length_keyword()) == Some(
            decimal_digits(head.content_length as nat),
        ),
{
    let s = response_header(head);
    let d2 = decimal_digits(head.content_length as nat);
    let at = status_end(head) + 5;
    let s2 = length_start(head);
    let e2 = length_end(head);
    let keyword = content_length_keyword();
    lemma_laid_out(head);
    assert forall|j: int| 0 <= j < at implies !matches_at(s, keyword, j) by {
        lemma_no_c_before_length(head, j);
        if matches_at(s, keyword, j) {
            lemma_match_starts_with(s, keyword, j);
        }
    }
    assert(s.subrange(at, at + 16) =~= keyword);
    lemma_first_match_unique(s, keyword, 0, at);
    assert forall|j: int| s2 <= j && (head.cached ==> j < e2) implies !matches_at(
        s,
        carriage_return(),
        j,
    ) by {
        lemma_byte_match(s, 13, j);
        if j < s.len() && s[j] == 13 {
            lemma_carriage_returns(head, j);
        }
    }
    if head.cached {
        lemma_byte_match(s, 13, e2);
        lemma_first_match_unique(s, carriage_return(), s2, e2);
    } else {
        lemma_first_match_none(s, carriage_return(), s2);
    }
    assert(s.subrange(s2, e2) =~= d2);
}

/// A response header says that the payload came from the cache exactly when
/// it was written for a cached payload.
pub proof fn lemma_cached(head: HeaderResult)
    ensures
        cached_spec(response_header(head)) == head.cached,
{
    let s = response_header(head);
    let e2 = length_end(head);
    let keyword = payload_origin_keyword();
    lemma_laid_out(head);
    if head.cached {
        let at = e2 + 2;
        assert forall|j: int| 0 <= j < at implies !matches_at(s, keyword, j) by {
            lemma_no_f_before_origin(head, j);
            if matches_at(s, keyword, j) {
                lemma_match_starts_with(s, keyword, j);
            }
        }
        assert(s.subrange(at, at + 22) =~= keyword);
        lemma_first_match_unique(s, keyword, 0, at);
        assert forall|j: int| at + 22 <= j implies !matches_at(s, carriage_return(), j) by {
            lemma_byte_match(s, 13, j);
            if j < s.len() && s[j] == 13 {
                lemma_carriage_returns(head, j);
            }
        }
        lemma_first_match_none(s, carriage_return(), at + 22);
        assert(s.subrange(at + 22, s.len() as int) =~= cache_origin());
    } else {
        assert forall|j: int| 0 <= j implies !matches_at(s, keyword, j) by {
            if matches_at(s, keyword, j) {
                lemma_match_starts_with(s, keyword, j);
                lemma_no_f_before_origin(head, j);
            }
        }
        lemma_first_match_none(s, keyword, 0);
    }
}

/// Reading a response header gives back what it was written for.
///
/// For every status code, every content length and either cache flag: the
/// header that says them is read as saying exactly them.
pub proof fn theorem_header_round_trip(head: HeaderResult)
    ensures
        parse_header_spec(response_header(head)) == Ok::<HeaderResult, HeaderError>(head),
{
    lemma_status_token(head);
    lemma_content_length_value(head);
    lemma_cached(head);
    lemma_decimal_digits(head.status_code as nat);
    lemma_decimal_digits(head.content_length as nat);
}

/// The first blank line of a stream that begins with a response header and
/// its blank line is the one that ends the header: there is none inside a
/// response header.
pub proof fn lemma_header_framed(head: HeaderResult, rest: Seq<u8>)
    ensures
        first_match(response_header(head) + separator() + rest, separator()) == Some(
            response_header(head).len() as int,
        ),
{
    let s = response_header(head);
    let t = s + separator() + rest;
    lemma_laid_out(head);
    assert forall|j: int| 0 <= j < s.len() implies !matches_at(t, separator(), j) by {
        if matches_at(t, separator(), j) {
            let w = t.subrange(j, j + 4);
            assert(w[0] == t[j]);
            assert(w[2] == t[j + 2]);
            assert(t[j] == s[j]);
            lemma_carriage_returns(head, j);
            assert(t[j + 2] == s[j + 2]);
        }
    }
    assert(t.subrange(s.len() as int, s.len() as int + 4) =~= separator());
    lemma_first_match_unique(t, separator(), 0, s.len() as int);
}

/// A response header is far shorter than a header may be.
pub proof fn lemma_header_fits(head: HeaderResult)
    ensures
        response_header(head).len() + 4 <= MAX_HEADER_SIZE,
{
    lemma_laid_out(head);
    assert(pow10(10) == 10_000_000_000nat) by {
        reveal_with_fuel(pow10, 11);
    }
    assert(pow10(20) == 100_000_000_000_000_000_000nat) by {
        reveal_with_fuel(pow10, 21);
    }
    lemma_decimal_digits_len(head.status_code as nat, 10);
    lemma_decimal_digits_len(head.content_length as nat, 20);
}

/// What the response with the header values `head` and the body `body`
/// decodes to.
pub open spec fn result_of(head: HeaderResult, body: Seq<u8>) -> HttpGetResultView {
    HttpGetResultView {
        header_result: head,
        payload_result: if head.content_length == 0 {
            None
        } else {
            Some(body_result_of(body))
        },
    }
}

/// Framing and reading a response gives back what it was written for.
///
/// For every status code, content length and cache flag, and for every body
/// of that length: where a stream begins with the header that says them,
/// the blank line and the body, the first response of the stream decodes to
/// those three values and to the digest and length of that body, and takes
/// exactly the bytes of header, blank line and body, whatever follows.
pub proof fn theorem_response_round_trip(head: HeaderResult, body: Seq<u8>, rest: Seq<u8>)
    requires
        body.len() == head.content_length,
    ensures
        decode_response(response_header(head) + separator() + body + rest) == Some(
            (result_of(head, body), (response_header(head).len() + 4 + body.len()) as int),
        ),
{
    let s = response_header(head);
    let t = s + separator() + body + rest;
    assert(t =~= s + separator() + (body + rest));
    lemma_header_framed(head, body + rest);
    lemma_header_fits(head);
    theorem_header_round_trip(head);
    assert(t.subrange(0, s.len() as int) =~= s);
    assert(t.subrange(s.len() as int + 4, s.len() as int + 4 + body.len() as int) =~= body);
}

/// A session reads a well-formed response back.
///
/// Let a session with one request start fresh and be driven until it hands
/// its results over. If what arrived on the connection is the header that
/// says `head`, the blank line and a body of the content length of `head`,
/// in whatever portions, then the session's one result says `head`, and it
/// has the digest and the length of that body where there is a body.
pub proof fn theorem_session_round_trip(
    v: SessionView,
    events: Seq<EventView>,
    results: Seq<HttpGetResultView>,
    head: HeaderResult,
    body: Seq<u8>,
)
    requires
        fresh(v),
        v.headers.len() == 1,
        events.len() > 0,
        last_action(v, events) == (ActionView::Finish { results }),
        body.len() == head.content_length,
        inbound_of(events) == response_header(head) + separator() + body,
    ensures
        results == seq![result_of(head, body)],
{
    let inbound = inbound_of(events);
    theorem_results(v, events, results);
    theorem_response_round_trip(head, body, Seq::empty());
    assert(response_header(head) + separator() + body + Seq::<u8>::empty() =~= inbound);
    assert(inbound.skip(0) =~= inbound);
    assert(decode_responses(inbound, 0) == Some((Seq::<HttpGetResultView>::empty(), 0int)));
    assert(Seq::<HttpGetResultView>::empty().push(result_of(head, body)) =~= seq![
        result_of(head, body),
    ]);
}

} // verus!

//! From the response representation that JavaScript returns to the status and
//! headers of an Axum response.

use vstd::prelude::*;
use crate::http::{HeaderList, bytes_deep_view};

verus! {

broadcast use bytes_deep_view;

/// A byte that may stand in a header name: an RFC 7230 `tchar`, that is an
/// ASCII letter or digit or one of ``!#$%&'*+-.^_`|~``.
pub open spec fn is_token_byte(b: u8) -> bool {
    ||| (48 <= b && b <= 57)
    ||| (65 <= b && b <= 90)
    ||| (97 <= b && b <= 122)
    ||| b == 33 || b == 35 || b == 36 || b == 37 || b == 38 || b == 39
    ||| b == 42 || b == 43 || b == 45 || b == 46
    ||| b == 94 || b == 95 || b == 96 || b == 124 || b == 126
}

/// `b` with an upper-case ASCII letter turned lower case.
pub open spec fn ascii_lower(b: u8) -> u8 {
    if 65 <= b && b <= 90 {
        (b + 32) as u8
    } else {
        b
    }
}

/// What `HeaderName::from_bytes` makes of `src`: for 1 to 65535 token
/// bytes, the name with its letters lower-cased; for anything else, nothing.
pub open spec fn header_name_from_bytes(src: Seq<u8>) -> Option<Seq<u8>> {
    if 1 <= src.len() <= 65535 && forall|i: int| 0 <= i < src.len() ==> is_token_byte(#[trigger] src[i]) {
        Some(src.map_values(|b: u8| ascii_lower(b)))
    } else {
        None
    }
}

/// A status code that `StatusCode::from_u16` accepts.
pub open spec fn valid_status(code: u16) -> bool {
    100 <= code <= 999
}

/// A byte that `HeaderValue::from_bytes` accepts: 32 to 255 but 127, or a tab.
pub open spec fn valid_header_value_byte(b: u8) -> bool {
    (b >= 32 && b != 127) || b == 9
}

/// Bytes that `HeaderValue::from_bytes` accepts.
pub open spec fn valid_header_value(v: Seq<u8>) -> bool {
    forall|i: int| 0 <= i < v.len() ==> valid_header_value_byte(#[trigger] v[i])
}

/// `StatusCode::from_u16`: the code when it lies in `100..=999`, else nothing.
#[verifier::external_body]
fn status_code_from_u16(code: u16) -> (r: Option<u16>)
    ensures
        r == (if valid_status(code) { Some(code) } else { None::<u16> }),
{
    match axum::http::StatusCode::from_u16(code) {
        Ok(status) => Some(status.as_u16()),
        Err(_) => None,
    }
}

/// `HeaderName::from_bytes`: accepts 1 to 65535 bytes that are all token
/// characters (its character table maps every other byte to 0, which it
/// refuses) and gives the name with its letters lower-cased, as
/// `header_name_from_bytes` states.
#[verifier::external_body]
fn header_name_from_bytes_exec(src: &[u8]) -> (r: Option<Vec<u8>>)
    ensures
        r.deep_view() == header_name_from_bytes(src@),
{
    match axum::http::HeaderName::from_bytes(src) {
        Ok(name) => Some(name.as_str().as_bytes().to_vec()),
        Err(_) => None,
    }
}

/// `HeaderValue::from_bytes`: accepts exactly the bytes that
/// `valid_header_value` allows (its byte check admits 32 to 255 but 127, and
/// the tab) and keeps them unchanged.
#[verifier::external_body]
fn header_value_from_bytes(src: &[u8]) -> (r: Option<Vec<u8>>)
    ensures
        r is Some <==> valid_header_value(src@),
        r matches Some(v) ==> v@ == src@,
{
    match axum::http::HeaderValue::from_bytes(src) {
        Ok(value) => Some(value.as_bytes().to_vec()),
        Err(_) => None,
    }
}

/// The status code and headers that the JavaScript side reports for a
/// response whose body it streams separately.
pub struct ResponseRep(pub u16, pub HeaderList);

/// Status and headers of an HTTP response, the headers in the order in which
/// they are appended to its header map.
pub struct ResponseHead {
    pub status: u16,
    pub headers: HeaderList,
}

/// A response representation that Axum accepts: a valid status code and
/// only valid header names and values.
pub open spec fn response_rep_valid(status: u16, h: Seq<(Seq<u8>, Seq<u8>)>) -> bool {
    &&& valid_status(status)
    &&& forall|i: int|
        0 <= i < h.len() ==> (#[trigger] header_name_from_bytes(h[i].0) is Some
            && valid_header_value(h[i].1))
}

/// The headers of the response: each name normalised, each value kept, the
/// order kept.
pub open spec fn response_headers(h: Seq<(Seq<u8>, Seq<u8>)>) -> Seq<(Seq<u8>, Seq<u8>)> {
    Seq::new(h.len(), |i: int| (header_name_from_bytes(h[i].0).unwrap(), h[i].1))
}

/// The response keeps every header, in order: each value reaches it byte
/// for byte, and each accepted name keeps its length with its upper-case
/// ASCII letters turned lower case and every other byte unchanged.
pub proof fn response_headers_law(h: Seq<(Seq<u8>, Seq<u8>)>)
    ensures
        response_headers(h).len() == h.len(),
        forall|i: int| 0 <= i < h.len() ==> (#[trigger] response_headers(h)[i]).1 == h[i].1,
        forall|i: int|
            0 <= i < h.len() && header_name_from_bytes(h[i].0) is Some ==> {
                &&& (#[trigger] response_headers(h)[i]).0.len() == h[i].0.len()
                &&& forall|k: int|
                    0 <= k < h[i].0.len() ==> response_headers(h)[i].0[k] == if 65 <= h[i].0[k] && h[i].0[k] <= 90 {
                        (h[i].0[k] + 32) as u8
                    } else {
                        h[i].0[k]
                    }
            },
        forall|n: Seq<u8>|
            #[trigger] header_name_from_bytes(n) is Some <==> (1 <= n.len() <= 65535 && forall|k: int|
                0 <= k < n.len() ==> is_token_byte(n[k])),
{
}

/// Turns the representation that JavaScript returned into the status and
/// headers of the Axum response.
pub fn response_from_js(rep: &ResponseRep) -> (head: ResponseHead)
    requires
        response_rep_valid(rep.0, rep.1.deep_view()),
    ensures
        head.status == rep.0,
        head.headers.deep_view() == response_headers(rep.1.deep_view()),
{
    let ghost h = rep.1.deep_view();
    let status = match status_code_from_u16(rep.0) {
        Some(s) => s,
        None => rep.0,
    };
    let n = rep.1.len();
    let mut headers: HeaderList = Vec::new();
    let mut i: usize = 0;
    while i < n
        invariant
            n == rep.1@.len(),
            h == rep.1.deep_view(),
            response_rep_valid(rep.0, h),
            i <= n,
            headers.deep_view() == response_headers(h).take(i as int),
        decreases n - i,
    {
        let ghost prev = headers.deep_view();
        let entry = &rep.1[i];
        assert(h[i as int] == (entry.0@, entry.1@));
        assert(header_name_from_bytes(h[i as int].0) is Some);
        let name = match header_name_from_bytes_exec(entry.0.as_slice()) {
            Some(n) => n,
            None => Vec::new(),
        };
        let value = match header_value_from_bytes(entry.1.as_slice()) {
            Some(v) => v,
            None => Vec::new(),
        };
        assert(name@ == header_name_from_bytes(h[i as int].0).unwrap());
        assert(value@ == h[i as int].1);
        headers.push((name, value));
        assert(headers.deep_view() =~= prev.push(
            (header_name_from_bytes(h[i as int].0).unwrap(), h[i as int].1),
        ));
        assert(headers.deep_view() =~= response_headers(h).take(i + 1));
        i = i + 1;
    }
    assert(response_headers(h).take(n as int) =~= response_headers(h));
    ResponseHead { status, headers }
}

/// Like `response_from_js`, but first checks that Axum accepts the status
/// and every header, and gives nothing where it would not.
pub fn checked_response_from_js(rep: &ResponseRep) -> (r: Option<ResponseHead>)
    ensures
        r is Some <==> response_rep_valid(rep.0, rep.1.deep_view()),
        r matches Some(head) ==> head.status == rep.0 && head.headers.deep_view()
            == response_headers(rep.1.deep_view()),
{
    let ghost h = rep.1.deep_view();
    if status_code_from_u16(rep.0).is_none() {
        return None;
    }
    let n = rep.1.len();
    let mut i: usize = 0;
    while i < n
        invariant
            n == rep.1@.len(),
            h == rep.1.deep_view(),
            i <= n,
            valid_status(rep.0),
            forall|k: int|
                0 <= k < i ==> (#[trigger] header_name_from_bytes(h[k].0) is Some
                    && valid_header_value(h[k].1)),
        decreases n - i,
    {
        let entry = &rep.1[i];
        assert(h[i as int] == (entry.0@, entry.1@));
        if header_name_from_bytes_exec(entry.0.as_slice()).is_none() {
            assert(header_name_from_bytes(h[i as int].0) is None);
            return None;
        }
        if header_value_from_bytes(entry.1.as_slice()).is_none() {
            assert(header_name_from_bytes(h[i as int].0) is Some);
            assert(!valid_header_value(h[i as int].1));
            return None;
        }
        i = i + 1;
    }
    Some(response_from_js(rep))
}

} // verus!

//! From an Axum request to the representation the JavaScript side reads.

use vstd::prelude::*;
use vstd::utf8::*;
use vstd::string::*;
use vstd::slice::slice_to_vec;
use crate::http::{
    HeaderList, bytes_deep_view, host_name, localhost, is_host_name, localhost_bytes, cookie_name, cookie_separator, cookie_name_bytes,
    cookie_separator_bytes, is_cookie_name,
};
use crate::text::{join_with, join_bytes, all_visible_ascii, visible_ascii, visible_ascii_str};

verus! {

broadcast use bytes_deep_view;

/// The headers of `h` that are not cookies, in order.
pub open spec fn plain_headers(h: Seq<(Seq<u8>, Seq<u8>)>) -> Seq<(Seq<u8>, Seq<u8>)>
    decreases h.len(),
{
    if h.len() == 0 {
        Seq::empty()
    } else if h.last().0 == cookie_name() {
        plain_headers(h.drop_last())
    } else {
        plain_headers(h.drop_last()).push(h.last())
    }
}

/// The values of the cookie headers of `h`, in order.
pub open spec fn cookie_values(h: Seq<(Seq<u8>, Seq<u8>)>) -> Seq<Seq<u8>>
    decreases h.len(),
{
    if h.len() == 0 {
        Seq::empty()
    } else if h.last().0 == cookie_name() {
        cookie_values(h.drop_last()).push(h.last().1)
    } else {
        cookie_values(h.drop_last())
    }
}

/// The headers handed to JavaScript: every header but the cookies, in order,
/// followed, when there is any cookie, by one `cookie` header whose value is
/// all cookie values joined by `; `.
pub open spec fn js_headers(h: Seq<(Seq<u8>, Seq<u8>)>) -> Seq<(Seq<u8>, Seq<u8>)> {
    if cookie_values(h).len() == 0 {
        plain_headers(h)
    } else {
        plain_headers(h).push((cookie_name(), join_with(cookie_values(h), cookie_separator())))
    }
}

/// No header is lost: each is either kept as it is or contributes its value
/// to the merged cookie header; none of the kept headers is a cookie.
pub proof fn headers_partition(h: Seq<(Seq<u8>, Seq<u8>)>)
    ensures
        plain_headers(h).len() + cookie_values(h).len() == h.len(),
        forall|i: int| 0 <= i < plain_headers(h).len() ==> (#[trigger] plain_headers(h)[i]).0 != cookie_name(),
    decreases h.len(),
{
    if h.len() > 0 {
        headers_partition(h.drop_last());
    }
}

/// JavaScript sees at most one cookie header, and it comes last: every other
/// header keeps its place, and the number of headers drops by the number of
/// cookies less one.
pub proof fn single_cookie_header(h: Seq<(Seq<u8>, Seq<u8>)>)
    ensures
        forall|i: int|
            0 <= i < js_headers(h).len() - 1 ==> (#[trigger] js_headers(h)[i]).0 != cookie_name(),
        cookie_values(h).len() > 0 ==> js_headers(h).last() == (
            cookie_name(),
            join_with(cookie_values(h), cookie_separator()),
        ),
        cookie_values(h).len() == 0 ==> js_headers(h).len() == h.len(),
        cookie_values(h).len() > 0 ==> js_headers(h).len() == h.len() - cookie_values(h).len() + 1,
{
    headers_partition(h);
    assert forall|i: int| 0 <= i < js_headers(h).len() - 1 implies (#[trigger] js_headers(h)[i]).0 != cookie_name() by {
        assert(js_headers(h)[i] == plain_headers(h)[i]);
    }
}

/// Whether a header is a cookie header.
pub open spec fn is_cookie_entry(e: (Seq<u8>, Seq<u8>)) -> bool {
    e.0 == cookie_name()
}

/// Which headers JavaScript sees: the non-cookie headers of the request,
/// exactly and in order; then, when the request has any cookie header, one
/// `cookie` header whose value is the values of the request's cookie headers,
/// unchanged and in order, joined by `; `.
pub proof fn js_headers_law(h: Seq<(Seq<u8>, Seq<u8>)>)
    ensures
        plain_headers(h) == h.filter(|e: (Seq<u8>, Seq<u8>)| !is_cookie_entry(e)),
        cookie_values(h) == h.filter(|e: (Seq<u8>, Seq<u8>)| is_cookie_entry(e)).map_values(
            |e: (Seq<u8>, Seq<u8>)| e.1,
        ),
        h.filter(|e: (Seq<u8>, Seq<u8>)| is_cookie_entry(e)).len() == 0 ==> js_headers(h) == h.filter(
            |e: (Seq<u8>, Seq<u8>)| !is_cookie_entry(e),
        ),
        h.filter(|e: (Seq<u8>, Seq<u8>)| is_cookie_entry(e)).len() > 0 ==> js_headers(h) == h.filter(
            |e: (Seq<u8>, Seq<u8>)| !is_cookie_entry(e),
        ).push(
            (
                cookie_name(),
                join_with(
                    h.filter(|e: (Seq<u8>, Seq<u8>)| is_cookie_entry(e)).map_values(
                        |e: (Seq<u8>, Seq<u8>)| e.1,
                    ),
                    cookie_separator(),
                ),
            ),
        ),
    decreases h.len(),
{
    let keep = |e: (Seq<u8>, Seq<u8>)| !is_cookie_entry(e);
    let cook = |e: (Seq<u8>, Seq<u8>)| is_cookie_entry(e);
    reveal(Seq::filter);
    if h.len() > 0 {
        js_headers_law(h.drop_last());
        let t = h.drop_last();
        assert(h.filter(keep) == if keep(h.last()) { t.filter(keep).push(h.last()) } else { t.filter(keep) });
        assert(h.filter(cook) == if cook(h.last()) { t.filter(cook).push(h.last()) } else { t.filter(cook) });
        if cook(h.last()) {
            assert(t.filter(cook).push(h.last()).map_values(|e: (Seq<u8>, Seq<u8>)| e.1)
                =~= t.filter(cook).map_values(|e: (Seq<u8>, Seq<u8>)| e.1).push(h.last().1));
        }
    } else {
        assert(h.filter(cook) =~= Seq::<(Seq<u8>, Seq<u8>)>::empty());
        assert(h.filter(cook).map_values(|e: (Seq<u8>, Seq<u8>)| e.1) =~= Seq::<Seq<u8>>::empty());
    }
    assert(cookie_values(h).len() == h.filter(cook).len());
}

/// Converts a header map into the header list of the JavaScript request,
/// merging all cookie headers into one so that the JavaScript `Headers`
/// object does not mangle them.
pub fn req_headers(header_map: &HeaderList) -> (r: HeaderList)
    ensures
        r.deep_view() == js_headers(header_map.deep_view()),
{
    let ghost h = header_map.deep_view();
    let n = header_map.len();
    let mut cookies: Vec<Vec<u8>> = Vec::new();
    let mut headers: HeaderList = Vec::new();
    let mut i: usize = 0;
    assert(h.take(0) =~= Seq::<(Seq<u8>, Seq<u8>)>::empty());
    assert(headers.deep_view() =~= Seq::<(Seq<u8>, Seq<u8>)>::empty());
    assert(cookies.deep_view() =~= Seq::<Seq<u8>>::empty());
    while i < n
        invariant
            n == header_map@.len(),
            h == header_map.deep_view(),
            i <= n,
            headers.deep_view() == plain_headers(h.take(i as int)),
            cookies.deep_view() == cookie_values(h.take(i as int)),
        decreases n - i,
    {
        let ghost prev_headers = headers.deep_view();
        let ghost prev_cookies = cookies.deep_view();
        assert(h.take(i + 1).drop_last() =~= h.take(i as int));
        assert(h.take(i + 1).last() == h[i as int]);
        assert(h[i as int] == (header_map@[i as int].0@, header_map@[i as int].1@));
        let entry = &header_map[i];
        if is_cookie_name(entry.0.as_slice()) {
            let value = slice_to_vec(entry.1.as_slice());
            cookies.push(value);
            assert(cookies.deep_view() =~= prev_cookies.push(entry.1@));
        } else {
            let name = slice_to_vec(entry.0.as_slice());
            let value = slice_to_vec(entry.1.as_slice());
            headers.push((name, value));
            assert(headers.deep_view() =~= prev_headers.push((entry.0@, entry.1@)));
        }
        i = i + 1;
    }
    assert(h.take(n as int) =~= h);
    if cookies.len() > 0 {
        let ghost prev_headers = headers.deep_view();
        let sep = cookie_separator_bytes();
        let joined = join_bytes(&cookies, sep.as_slice());
        headers.push((cookie_name_bytes(), joined));
        assert(headers.deep_view() =~= prev_headers.push(
            (cookie_name(), join_with(cookie_values(h), cookie_separator())),
        ));
    }
    headers
}


/// The value of the first header of `h` named `name`.
pub open spec fn first_header(h: Seq<(Seq<u8>, Seq<u8>)>, name: Seq<u8>) -> Option<Seq<u8>>
    decreases h.len(),
{
    if h.len() == 0 {
        None
    } else if h[0].0 == name {
        Some(h[0].1)
    } else {
        first_header(h.drop_first(), name)
    }
}

/// The host a request names: its first `host` header, else `localhost`.
pub open spec fn host_of(h: Seq<(Seq<u8>, Seq<u8>)>) -> Seq<u8> {
    match first_header(h, host_name()) {
        Some(v) => v,
        None => localhost(),
    }
}

/// The host is the value of the first `host` header, wherever it stands in
/// the list; it is `localhost` exactly when no header is named `host`.
pub proof fn host_of_law(h: Seq<(Seq<u8>, Seq<u8>)>, i: int)
    ensures
        0 <= i < h.len() && h[i].0 == host_name() && (forall|j: int| 0 <= j < i ==> h[j].0 != host_name())
            ==> host_of(h) == h[i].1,
        (forall|j: int| 0 <= j < h.len() ==> h[j].0 != host_name()) ==> host_of(h) == localhost(),
        localhost() == seq![108u8, 111, 99, 97, 108, 104, 111, 115, 116],
    decreases h.len(),
{
    if h.len() > 0 {
        let t = h.drop_first();
        host_of_law(t, i - 1);
        if h[0].0 != host_name() {
            assert(first_header(h, host_name()) == first_header(t, host_name()));
            if 0 <= i < h.len() && h[i].0 == host_name() && (forall|j: int| 0 <= j < i ==> h[j].0 != host_name()) {
                assert(i > 0);
                assert(t[i - 1] == h[i]);
                assert forall|j: int| 0 <= j < i - 1 implies t[j].0 != host_name() by {
                    assert(t[j] == h[j + 1]);
                }
            }
            if forall|j: int| 0 <= j < h.len() ==> h[j].0 != host_name() {
                assert forall|j: int| 0 <= j < t.len() implies t[j].0 != host_name() by {
                    assert(t[j] == h[j + 1]);
                }
            }
        } else {
            if 0 <= i < h.len() && h[i].0 == host_name() && (forall|j: int| 0 <= j < i ==> h[j].0 != host_name()) {
                assert(i == 0);
            }
        }
    }
}

/// The value of the first `host` header of `headers`, else `localhost`.
pub fn request_host(headers: &HeaderList) -> (r: Vec<u8>)
    ensures
        r@ == host_of(headers.deep_view()),
{
    let ghost h = headers.deep_view();
    let n = headers.len();
    let mut i: usize = 0;
    assert(h.skip(0) =~= h);
    while i < n
        invariant
            n == headers@.len(),
            h == headers.deep_view(),
            i <= n,
            first_header(h, host_name()) == first_header(h.skip(i as int), host_name()),
        decreases n - i,
    {
        assert(h.skip(i as int)[0] == (headers@[i as int].0@, headers@[i as int].1@));
        if is_host_name(headers[i].0.as_slice()) {
            return slice_to_vec(headers[i].1.as_slice());
        }
        assert(h.skip(i as int).drop_first() =~= h.skip(i + 1));
        i = i + 1;
    }
    assert(h.skip(n as int) =~= Seq::<(Seq<u8>, Seq<u8>)>::empty());
    localhost_bytes()
}

/// The request line and headers of an incoming request, as plain values:
/// the method and URI as they print, and the headers in the order in which
/// the request's header map yields them.
pub struct RequestHead {
    pub method: String,
    pub uri: String,
    pub headers: HeaderList,
}

/// A request as the JavaScript side reads it: the id of the resource that
/// streams its body, its method, its absolute URL and its headers.
pub struct RequestRep(pub u32, pub String, pub String, pub HeaderList);

/// Why a request could not be handed to JavaScript.
#[derive(Debug, PartialEq, Eq, Structural)]
pub enum RequestRepError {
    /// The host header holds a byte that is neither visible ASCII nor a tab.
    HostNotVisibleAscii,
}

/// Builds the JavaScript representation of a request whose body is streamed
/// by resource `body_rid`. JavaScript needs an absolute URL, so the URL is
/// `http://`, the host (from the `host` header, `localhost` without one) and
/// the request URI. Fails when the host is not visible ASCII.
pub fn request_to_rep(head: RequestHead, body_rid: u32) -> (res: Result<RequestRep, RequestRepError>)
    ensures
        res is Ok <==> all_visible_ascii(host_of(head.headers.deep_view())),
        res matches Ok(rep) ==> {
            &&& rep.0 == body_rid
            &&& rep.1@ == head.method@
            &&& rep.2@ == "http://"@ + decode_utf8(host_of(head.headers.deep_view())) + head.uri@
            &&& rep.3.deep_view() == js_headers(head.headers.deep_view())
        },
        res matches Err(e) ==> e == RequestRepError::HostNotVisibleAscii,
{
    let host = request_host(&head.headers);
    if !visible_ascii(host.as_slice()) {
        return Err(RequestRepError::HostNotVisibleAscii);
    }
    let host_str = visible_ascii_str(host.as_slice());
    let mut url = String::from_str("http://");
    url.append(host_str);
    url.append(head.uri.as_str());
    let headers = req_headers(&head.headers);
    Ok(RequestRep(body_rid, head.method, url, headers))
}


/// The bytes of a stream of body chunks, in order.
pub open spec fn flatten(chunks: Seq<Seq<u8>>) -> Seq<u8>
    decreases chunks.len(),
{
    if chunks.len() == 0 {
        Seq::empty()
    } else {
        chunks[0] + flatten(chunks.drop_first())
    }
}

/// One read of at most `limit` bytes from a body whose remaining chunks are
/// `chunks`: the bytes read and the chunks left. An ended body reads
/// nothing; a first chunk that fits is read whole; a longer one gives its
/// first `limit` bytes and stays in the stream with the rest.
pub open spec fn body_read(chunks: Seq<Seq<u8>>, limit: nat) -> (Seq<u8>, Seq<Seq<u8>>) {
    if chunks.len() == 0 {
        (Seq::empty(), chunks)
    } else if chunks[0].len() <= limit {
        (chunks[0], chunks.drop_first())
    } else {
        (chunks[0].take(limit as int), seq![chunks[0].skip(limit as int)] + chunks.drop_first())
    }
}

/// A read takes its bytes from the front of the body: what it reads,
/// followed by what is left, is the body.
pub proof fn body_read_splits(chunks: Seq<Seq<u8>>, limit: nat)
    ensures
        flatten(chunks) == body_read(chunks, limit).0 + flatten(body_read(chunks, limit).1),
{
    if chunks.len() > 0 && chunks[0].len() > limit {
        let rest = body_read(chunks, limit).1;
        assert(rest.drop_first() =~= chunks.drop_first());
        assert(chunks[0] =~= chunks[0].take(limit as int) + chunks[0].skip(limit as int));
        assert(flatten(rest) == rest[0] + flatten(rest.drop_first()));
        assert(flatten(chunks) =~= body_read(chunks, limit).0 + flatten(rest));
    } else if chunks.len() == 0 {
        assert(flatten(chunks) =~= Seq::<u8>::empty() + flatten(chunks));
    }
}

/// The buffers that reading the body with `limit` returns, one read after
/// another, until a read returns nothing.
pub open spec fn read_all(chunks: Seq<Seq<u8>>, limit: nat) -> Seq<Seq<u8>>
    decreases flatten(chunks).len(),
{
    let (read, rest) = body_read(chunks, limit);
    if read.len() == 0 {
        Seq::empty()
    } else {
        proof {
            body_read_splits(chunks, limit);
        }
        seq![read] + read_all(rest, limit)
    }
}

/// Reading a body to its end gives back all its bytes, none lost,
/// duplicated or reordered, in buffers of 1 to `limit` bytes, provided the
/// body yields no empty chunk and `limit` is not zero.
pub proof fn read_all_gives_body(chunks: Seq<Seq<u8>>, limit: nat)
    requires
        limit > 0,
        forall|i: int| 0 <= i < chunks.len() ==> (#[trigger] chunks[i]).len() > 0,
    ensures
        flatten(read_all(chunks, limit)) == flatten(chunks),
        forall|i: int|
            0 <= i < read_all(chunks, limit).len() ==> 0 < (#[trigger] read_all(chunks, limit)[i]).len()
                <= limit,
    decreases flatten(chunks).len(),
{
    let (read, rest) = body_read(chunks, limit);
    body_read_splits(chunks, limit);
    if chunks.len() == 0 {
        assert(read_all(chunks, limit) =~= Seq::<Seq<u8>>::empty());
        assert(flatten(read_all(chunks, limit)) =~= Seq::<u8>::empty());
    } else {
        assert(chunks[0].len() > 0);
        assert(read.len() > 0);
        assert forall|i: int| 0 <= i < rest.len() implies (#[trigger] rest[i]).len() > 0 by {
            if chunks[0].len() > limit {
                if i > 0 {
                    assert(rest[i] == chunks[i]);
                }
            } else {
                assert(rest[i] == chunks[i + 1]);
            }
        }
        read_all_gives_body(rest, limit);
        let all = read_all(chunks, limit);
        assert(all == seq![read] + read_all(rest, limit));
        assert(all.drop_first() =~= read_all(rest, limit));
        assert(flatten(all) == all[0] + flatten(all.drop_first()));
        assert forall|i: int| 0 <= i < all.len() implies 0 < (#[trigger] all[i]).len() <= limit by {
            if i > 0 {
                assert(all[i] == read_all(rest, limit)[i - 1]);
            }
        }
    }
}

/// One read of at most `limit` bytes from the body chunk that is next in the
/// request stream: a chunk that fits is taken whole; a longer one is split,
/// its first `limit` bytes read now and the rest left in the stream for the
/// next read. Returns what is read and what is left: one step of
/// `body_read` on a body whose next chunk is `chunk`.
pub fn read_chunk(chunk: Vec<u8>, limit: usize) -> (r: (Vec<u8>, Option<Vec<u8>>))
    ensures
        chunk@.len() <= limit ==> r.0@ == chunk@ && r.1 is None,
        chunk@.len() > limit ==> (r.1 matches Some(rest) && r.0@ == chunk@.take(limit as int)
            && rest@ == chunk@.skip(limit as int) && r.0@ + rest@ == chunk@),
        r.0@.len() <= limit,
        forall|tail: Seq<Seq<u8>>|
            #[trigger] body_read(seq![chunk@] + tail, limit as nat) == (
                r.0@,
                match r.1 {
                    Some(rest) => seq![rest@] + tail,
                    None => tail,
                },
            ),
{
    if chunk.len() <= limit {
        assert forall|tail: Seq<Seq<u8>>|
            #[trigger] body_read(seq![chunk@] + tail, limit as nat) == (chunk@, tail) by {
            assert((seq![chunk@] + tail).drop_first() =~= tail);
        }
        (chunk, None)
    } else {
        let mut head = chunk;
        let rest = head.split_off(limit);
        assert(head@ =~= chunk@.take(limit as int));
        assert(rest@ =~= chunk@.skip(limit as int));
        assert(head@ + rest@ =~= chunk@);
        assert forall|tail: Seq<Seq<u8>>|
            #[trigger] body_read(seq![chunk@] + tail, limit as nat) == (head@, seq![rest@] + tail) by {
            assert((seq![chunk@] + tail).drop_first() =~= tail);
        }
        (head, Some(rest))
    }
}

} // verus!

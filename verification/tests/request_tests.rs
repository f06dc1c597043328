use sveltekit_axum::request::{read_chunk, req_headers, request_host, request_to_rep, RequestHead, RequestRepError};

fn h(name: &str, value: &str) -> (Vec<u8>, Vec<u8>) {
    (name.as_bytes().to_vec(), value.as_bytes().to_vec())
}

#[test]
fn req_headers_merges_cookies_into_one_last_header() {
    let input = vec![
        h("accept", "text/html"),
        h("cookie", "a=1"),
        h("user-agent", "test"),
        h("cookie", "b=2"),
    ];
    let out = req_headers(&input);
    assert_eq!(out, vec![h("accept", "text/html"), h("user-agent", "test"), h("cookie", "a=1; b=2")]);
}

#[test]
fn req_headers_without_cookies_keeps_everything_in_order() {
    let input = vec![h("host", "example.com"), h("accept", "*/*"), h("accept", "text/html")];
    assert_eq!(req_headers(&input), input);
    assert_eq!(req_headers(&vec![]), Vec::<(Vec<u8>, Vec<u8>)>::new());
}

#[test]
fn req_headers_single_cookie() {
    let input = vec![h("cookie", "session=abc")];
    assert_eq!(req_headers(&input), vec![h("cookie", "session=abc")]);
}

#[test]
fn request_host_defaults_to_localhost() {
    assert_eq!(request_host(&vec![h("accept", "*/*")]), b"localhost".to_vec());
    assert_eq!(request_host(&vec![h("host", "a.example"), h("host", "b.example")]), b"a.example".to_vec());
}

#[test]
fn request_to_rep_builds_absolute_url() {
    let head = RequestHead {
        method: "POST".to_string(),
        uri: "/api/hello?x=1".to_string(),
        headers: vec![h("host", "example.com:3000"), h("cookie", "a=1"), h("cookie", "b=2")],
    };
    let rep = request_to_rep(head, 7).unwrap();
    assert_eq!(rep.0, 7);
    assert_eq!(rep.1, "POST");
    assert_eq!(rep.2, "http://example.com:3000/api/hello?x=1");
    assert_eq!(rep.3, vec![h("host", "example.com:3000"), h("cookie", "a=1; b=2")]);
}

#[test]
fn request_to_rep_without_host_uses_localhost() {
    let head = RequestHead { method: "GET".to_string(), uri: "/".to_string(), headers: vec![] };
    let rep = request_to_rep(head, 0).unwrap();
    assert_eq!(rep.2, "http://localhost/");
    assert!(rep.3.is_empty());
}

#[test]
fn request_to_rep_refuses_invalid_host() {
    let head = RequestHead {
        method: "GET".to_string(),
        uri: "/".to_string(),
        headers: vec![(b"host".to_vec(), vec![b'a', 0xc3, 0xa9])],
    };
    assert_eq!(request_to_rep(head, 1).err(), Some(RequestRepError::HostNotVisibleAscii));
}

#[test]
fn read_chunk_takes_small_chunk_whole() {
    let (read, rest) = read_chunk(b"hello".to_vec(), 16);
    assert_eq!(read, b"hello".to_vec());
    assert!(rest.is_none());
    let (read, rest) = read_chunk(b"exact".to_vec(), 5);
    assert_eq!(read, b"exact".to_vec());
    assert!(rest.is_none());
}

#[test]
fn read_chunk_splits_large_chunk() {
    let (read, rest) = read_chunk(b"hello world".to_vec(), 5);
    assert_eq!(read, b"hello".to_vec());
    assert_eq!(rest, Some(b" world".to_vec()));
    let (read, rest) = read_chunk(b"abc".to_vec(), 0);
    assert!(read.is_empty());
    assert_eq!(rest, Some(b"abc".to_vec()));
}

#[test]
fn repeated_reads_give_back_the_whole_body() {
    let mut chunks: std::collections::VecDeque<Vec<u8>> =
        vec![b"hello ".to_vec(), b"wonderful".to_vec(), b" world".to_vec()].into();
    let mut out: Vec<u8> = Vec::new();
    let mut reads = 0;
    loop {
        let Some(chunk) = chunks.pop_front() else { break };
        let (read, rest) = read_chunk(chunk, 4);
        assert!(!read.is_empty() && read.len() <= 4);
        if let Some(rest) = rest {
            chunks.push_front(rest);
        }
        out.extend_from_slice(&read);
        reads += 1;
    }
    assert_eq!(out, b"hello wonderful world".to_vec());
    assert_eq!(reads, 7);
}

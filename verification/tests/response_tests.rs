use sveltekit_axum::response::{checked_response_from_js, response_from_js, ResponseRep};

fn h(name: &str, value: &str) -> (Vec<u8>, Vec<u8>) {
    (name.as_bytes().to_vec(), value.as_bytes().to_vec())
}

#[test]
fn response_from_js_normalises_names_and_keeps_order() {
    let rep = ResponseRep(201, vec![h("Content-Type", "text/html"), h("X-Custom", "1"), h("set-cookie", "a=1"), h("Set-Cookie", "b=2")]);
    let head = response_from_js(&rep);
    assert_eq!(head.status, 201);
    assert_eq!(
        head.headers,
        vec![h("content-type", "text/html"), h("x-custom", "1"), h("set-cookie", "a=1"), h("set-cookie", "b=2")]
    );
}

#[test]
fn checked_response_accepts_valid_representation() {
    let rep = ResponseRep(404, vec![h("Location", "/x"), (b"x-bin".to_vec(), vec![b'a', 0xfa, b'\t'])]);
    let head = checked_response_from_js(&rep).unwrap();
    assert_eq!(head.status, 404);
    assert_eq!(head.headers, vec![h("location", "/x"), (b"x-bin".to_vec(), vec![b'a', 0xfa, b'\t'])]);
}

#[test]
fn checked_response_refuses_invalid_status() {
    assert!(checked_response_from_js(&ResponseRep(99, vec![])).is_none());
    assert!(checked_response_from_js(&ResponseRep(1000, vec![])).is_none());
    assert!(checked_response_from_js(&ResponseRep(100, vec![])).is_some());
    assert!(checked_response_from_js(&ResponseRep(999, vec![])).is_some());
}

#[test]
fn checked_response_refuses_invalid_header_name() {
    assert!(checked_response_from_js(&ResponseRep(200, vec![h("bad name", "v")])).is_none());
    assert!(checked_response_from_js(&ResponseRep(200, vec![h("", "v")])).is_none());
}

#[test]
fn checked_response_refuses_invalid_header_value() {
    assert!(checked_response_from_js(&ResponseRep(200, vec![h("x", "line\nbreak")])).is_none());
    assert!(checked_response_from_js(&ResponseRep(200, vec![(b"x".to_vec(), vec![0x7f])])).is_none());
}

#[test]
fn header_names_are_lower_cased_tokens_of_bounded_length() {
    let rep = ResponseRep(200, vec![h("X-A!#$%&'*+-.^_`|~9Z", "v")]);
    assert_eq!(checked_response_from_js(&rep).unwrap().headers, vec![h("x-a!#$%&'*+-.^_`|~9z", "v")]);
    assert!(checked_response_from_js(&ResponseRep(200, vec![h("x\"y", "v")])).is_none());
    assert!(checked_response_from_js(&ResponseRep(200, vec![(vec![b'a', 0xc3, 0xa9], b"v".to_vec())])).is_none());
    let long_ok = "A".repeat(65535);
    let head = checked_response_from_js(&ResponseRep(200, vec![h(&long_ok, "v")])).unwrap();
    assert_eq!(head.headers[0].0, "a".repeat(65535).into_bytes());
    let long_bad = "a".repeat(65536);
    assert!(checked_response_from_js(&ResponseRep(200, vec![h(&long_bad, "v")])).is_none());
    let long_bad_char = format!("{}\"", "a".repeat(100));
    assert!(checked_response_from_js(&ResponseRep(200, vec![h(&long_bad_char, "v")])).is_none());
}

use sveltekit_axum::text::{decimal, join_bytes, str_eq, strip_leading_slashes, trim_end, visible_ascii, visible_ascii_str, white_space};

#[test]
fn strip_leading_slashes_removes_all_leading_slashes() {
    assert_eq!(strip_leading_slashes("///_app/immutable/start.js"), "_app/immutable/start.js");
    assert_eq!(strip_leading_slashes("/"), "");
    assert_eq!(strip_leading_slashes(""), "");
    assert_eq!(strip_leading_slashes("about/"), "about/");
    assert_eq!(strip_leading_slashes("/a/b"), "a/b");
}

#[test]
fn trim_end_removes_trailing_unicode_white_space() {
    assert_eq!(trim_end("hello world \n\t"), "hello world");
    assert_eq!(trim_end("  keep leading"), "  keep leading");
    assert_eq!(trim_end("x\u{3000}\u{00A0}\u{2028}"), "x");
    assert_eq!(trim_end(" \r\n"), "");
    assert_eq!(trim_end("no-trailing"), "no-trailing");
}

#[test]
fn white_space_agrees_with_std() {
    for c in ['\t', '\n', '\u{0B}', '\u{0C}', '\r', ' ', '\u{85}', '\u{A0}', '\u{1680}', '\u{2000}', '\u{200A}', '\u{2028}', '\u{2029}', '\u{202F}', '\u{205F}', '\u{3000}', 'a', '0', '\u{200B}', '\u{FEFF}', '\u{180E}'] {
        assert_eq!(white_space(c), c.is_whitespace(), "{:?}", c);
    }
}

#[test]
fn decimal_matches_to_string() {
    for n in [0usize, 7, 10, 42, 1000, 123456789, usize::MAX] {
        assert_eq!(decimal(n), n.to_string().into_bytes());
    }
}

#[test]
fn visible_ascii_accepts_tab_and_printables_only() {
    assert!(visible_ascii(b"example.com:3000"));
    assert!(visible_ascii(b"a\tb"));
    assert!(!visible_ascii(b"bad\nhost"));
    assert!(!visible_ascii(&[0x7f]));
    assert!(!visible_ascii(&[0xc3, 0xa9]));
    assert_eq!(visible_ascii_str(b"localhost:5173"), "localhost:5173");
}

#[test]
fn join_bytes_puts_separator_between_items() {
    let vals = vec![b"a=1".to_vec(), b"b=2".to_vec(), b"c=3".to_vec()];
    assert_eq!(join_bytes(&vals, b"; "), b"a=1; b=2; c=3".to_vec());
    assert_eq!(join_bytes(&vec![b"only".to_vec()], b"; "), b"only".to_vec());
    assert_eq!(join_bytes(&vec![], b"; "), Vec::<u8>::new());
}

#[test]
fn str_eq_compares_characters() {
    assert!(str_eq("GET", "GET"));
    assert!(!str_eq("GET", "get"));
    assert!(!str_eq("GET", "GETX"));
    assert!(str_eq("", ""));
}

#[test]
fn white_space_agrees_with_std_on_every_char() {
    for u in 0u32..=0x10FFFF {
        if let Some(c) = char::from_u32(u) {
            assert_eq!(white_space(c), c.is_whitespace(), "{:?}", c);
        }
    }
}

#[test]
fn text_helpers_handle_multibyte_characters() {
    assert_eq!(strip_leading_slashes("//été/ünï.js"), "été/ünï.js");
    assert_eq!(trim_end("日本語\u{3000}"), "日本語");
    assert!(str_eq("ünï", "ünï"));
}

//! Header lists and the standard header names the framework uses.
//!
//! A header list holds `(name, value)` byte pairs in the order in which a
//! `HeaderMap` yields them; names are lower case, as `HeaderName` keeps them.

use vstd::prelude::*;

verus! {

/// `(name, value)` byte pairs of a header map, in iteration order.
pub type HeaderList = Vec<(Vec<u8>, Vec<u8>)>;

/// The bytes of `cookie`.
pub open spec fn cookie_name() -> Seq<u8> {
    seq![99u8, 111, 111, 107, 105, 101]
}

/// The bytes of `host`.
pub open spec fn host_name() -> Seq<u8> {
    seq![104u8, 111, 115, 116]
}

/// The bytes of `localhost`.
pub open spec fn localhost() -> Seq<u8> {
    seq![108u8, 111, 99, 97, 108, 104, 111, 115, 116]
}

/// The bytes of `content-type`.
pub open spec fn content_type_name() -> Seq<u8> {
    seq![99u8, 111, 110, 116, 101, 110, 116, 45, 116, 121, 112, 101]
}

/// The bytes of `content-length`.
pub open spec fn content_length_name() -> Seq<u8> {
    seq![99u8, 111, 110, 116, 101, 110, 116, 45, 108, 101, 110, 103, 116, 104]
}

/// The separator between merged cookie values: `; `.
pub open spec fn cookie_separator() -> Seq<u8> {
    seq![59u8, 32]
}

/// Tests whether `name` is `cookie`.
pub fn is_cookie_name(name: &[u8]) -> (b: bool)
    ensures
        b == (name@ == cookie_name()),
{
    let r = name.len() == 6 && name[0] == 99 && name[1] == 111 && name[2] == 111 && name[3] == 107
        && name[4] == 105 && name[5] == 101;
    proof {
        if r {
            assert(name@ =~= cookie_name());
        }
    }
    r
}

/// Tests whether `name` is `host`.
pub fn is_host_name(name: &[u8]) -> (b: bool)
    ensures
        b == (name@ == host_name()),
{
    let r = name.len() == 4 && name[0] == 104 && name[1] == 111 && name[2] == 115 && name[3]
        == 116;
    proof {
        if r {
            assert(name@ =~= host_name());
        }
    }
    r
}

/// `cookie` as bytes.
pub fn cookie_name_bytes() -> (r: Vec<u8>)
    ensures
        r@ == cookie_name(),
{
    let r = vec![99u8, 111, 111, 107, 105, 101];
    assert(r@ =~= cookie_name());
    r
}

/// `localhost` as bytes.
pub fn localhost_bytes() -> (r: Vec<u8>)
    ensures
        r@ == localhost(),
{
    let r = vec![108u8, 111, 99, 97, 108, 104, 111, 115, 116];
    assert(r@ =~= localhost());
    r
}

/// `content-type` as bytes.
pub fn content_type_bytes() -> (r: Vec<u8>)
    ensures
        r@ == content_type_name(),
{
    let r = vec![99u8, 111, 110, 116, 101, 110, 116, 45, 116, 121, 112, 101];
    assert(r@ =~= content_type_name());
    r
}

/// `content-length` as bytes.
pub fn content_length_bytes() -> (r: Vec<u8>)
    ensures
        r@ == content_length_name(),
{
    let r = vec![99u8, 111, 110, 116, 101, 110, 116, 45, 108, 101, 110, 103, 116, 104];
    assert(r@ =~= content_length_name());
    r
}

/// `; ` as bytes.
pub fn cookie_separator_bytes() -> (r: Vec<u8>)
    ensures
        r@ == cookie_separator(),
{
    let r = vec![59u8, 32];
    assert(r@ =~= cookie_separator());
    r
}


/// The deep view of a byte vector is its view.
pub broadcast proof fn bytes_deep_view(v: Vec<u8>)
    ensures
        #[trigger] v.deep_view() == v@,
{
    assert(v.deep_view() =~= v@);
}

} // verus!

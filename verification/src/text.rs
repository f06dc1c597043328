//! Text helpers on `str` and byte strings, each specified over `Seq`.

use vstd::prelude::*;
use vstd::utf8::*;
use vstd::string::*;
use vstd::slice::slice_to_vec;

verus! {

/// `s` with every leading `'/'` removed (what `str::trim_start_matches("/")` gives).
pub open spec fn trim_leading_slashes(s: Seq<char>) -> Seq<char>
    decreases s.len(),
{
    if s.len() > 0 && s[0] == '/' {
        trim_leading_slashes(s.drop_first())
    } else {
        s
    }
}

/// Removes every leading `'/'` from `s`.
pub fn strip_leading_slashes(s: &str) -> (r: &str)
    ensures
        r@ == trim_leading_slashes(s@),
{
    let len = s.unicode_len();
    let mut i: usize = 0;
    assert(s@.skip(0) =~= s@);
    while i < len && s.get_char(i) == '/'
        invariant
            len == s@.len(),
            i <= len,
            trim_leading_slashes(s@) == trim_leading_slashes(s@.skip(i as int)),
        decreases len - i,
    {
        assert(s@.skip(i as int).drop_first() =~= s@.skip(i + 1));
        i = i + 1;
    }
    let r = s.substring_char(i, len);
    assert(r@ =~= s@.skip(i as int));
    r
}


/// Stripping leading slashes keeps a suffix of `s` that does not start with
/// `'/'`, and removes only slashes.
pub proof fn trim_leading_slashes_law(s: Seq<char>)
    ensures
        trim_leading_slashes(s).len() <= s.len(),
        trim_leading_slashes(s) == s.skip(s.len() - trim_leading_slashes(s).len()),
        forall|i: int| 0 <= i < s.len() - trim_leading_slashes(s).len() ==> s[i] == '/',
        trim_leading_slashes(s).len() == 0 || trim_leading_slashes(s)[0] != '/',
    decreases s.len(),
{
    if s.len() > 0 && s[0] == '/' {
        trim_leading_slashes_law(s.drop_first());
        let r = trim_leading_slashes(s);
        assert(r == trim_leading_slashes(s.drop_first()));
        assert(s.drop_first().skip(s.drop_first().len() - r.len()) =~= s.skip(s.len() - r.len()));
        assert forall|i: int| 0 <= i < s.len() - r.len() implies s[i] == '/' by {
            if i > 0 {
                assert(s[i] == s.drop_first()[i - 1]);
            }
        }
    } else {
        assert(s.skip(0) =~= s);
    }
}

/// Unicode `White_Space` characters, the set that `char::is_whitespace` tests for.
pub open spec fn is_white_space(c: char) -> bool {
    ||| ('\u{0009}' <= c && c <= '\u{000D}')
    ||| c == '\u{0020}'
    ||| c == '\u{0085}'
    ||| c == '\u{00A0}'
    ||| c == '\u{1680}'
    ||| ('\u{2000}' <= c && c <= '\u{200A}')
    ||| c == '\u{2028}'
    ||| c == '\u{2029}'
    ||| c == '\u{202F}'
    ||| c == '\u{205F}'
    ||| c == '\u{3000}'
}

/// Tests whether `c` is a Unicode `White_Space` character.
pub fn white_space(c: char) -> (b: bool)
    ensures
        b == is_white_space(c),
{
    ('\u{0009}' <= c && c <= '\u{000D}') || c == '\u{0020}' || c == '\u{0085}' || c == '\u{00A0}'
        || c == '\u{1680}' || ('\u{2000}' <= c && c <= '\u{200A}') || c == '\u{2028}' || c
        == '\u{2029}' || c == '\u{202F}' || c == '\u{205F}' || c == '\u{3000}'
}

/// `s` without its trailing white space (what `str::trim_end` gives).
pub open spec fn trim_end_spec(s: Seq<char>) -> Seq<char>
    decreases s.len(),
{
    if s.len() > 0 && is_white_space(s.last()) {
        trim_end_spec(s.drop_last())
    } else {
        s
    }
}

/// Removes the trailing white space of `s`.
pub fn trim_end(s: &str) -> (r: &str)
    ensures
        r@ == trim_end_spec(s@),
{
    let len = s.unicode_len();
    let mut j: usize = len;
    assert(s@.take(len as int) =~= s@);
    while j > 0 && white_space(s.get_char(j - 1))
        invariant
            len == s@.len(),
            j <= len,
            trim_end_spec(s@) == trim_end_spec(s@.take(j as int)),
        decreases j,
    {
        assert(s@.take(j as int).drop_last() =~= s@.take(j - 1));
        j = j - 1;
    }
    let r = s.substring_char(0, j);
    assert(r@ =~= s@.take(j as int));
    r
}

/// Trimming the end keeps a prefix of `s` that does not end in white space,
/// and removes only white space.
pub proof fn trim_end_law(s: Seq<char>)
    ensures
        trim_end_spec(s).len() <= s.len(),
        trim_end_spec(s) == s.take(trim_end_spec(s).len() as int),
        forall|i: int| trim_end_spec(s).len() <= i < s.len() ==> is_white_space(#[trigger] s[i]),
        trim_end_spec(s).len() == 0 || !is_white_space(trim_end_spec(s).last()),
    decreases s.len(),
{
    if s.len() > 0 && is_white_space(s.last()) {
        trim_end_law(s.drop_last());
        let r = trim_end_spec(s);
        assert(r == trim_end_spec(s.drop_last()));
        assert(s.drop_last().take(r.len() as int) =~= s.take(r.len() as int));
        assert forall|i: int| r.len() <= i < s.len() implies is_white_space(#[trigger] s[i]) by {
            if i < s.len() - 1 {
                assert(s[i] == s.drop_last()[i]);
            }
        }
    } else {
        assert(s.take(s.len() as int) =~= s);
    }
}

/// The ASCII digit for `d` (which is below ten).
pub open spec fn digit_byte(d: nat) -> u8 {
    (48 + d) as u8
}

/// The decimal representation of `n` as ASCII bytes, most significant digit first.
pub open spec fn decimal_bytes(n: nat) -> Seq<u8>
    decreases n,
{
    if n < 10 {
        seq![digit_byte(n)]
    } else {
        decimal_bytes(n / 10).push(digit_byte(n % 10))
    }
}

/// The number that a string of ASCII digits denotes in decimal.
pub open spec fn decimal_value(s: Seq<u8>) -> nat
    decreases s.len(),
{
    if s.len() == 0 {
        0
    } else {
        decimal_value(s.drop_last()) * 10 + ((s.last() - 48) as nat)
    }
}

/// Appends the decimal digits of `n` to `out`.
pub fn push_decimal(out: &mut Vec<u8>, n: usize)
    ensures
        final(out)@ == old(out)@ + decimal_bytes(n as nat),
    decreases n,
{
    if n >= 10 {
        push_decimal(out, n / 10);
    }
    let d: u8 = (n % 10) as u8;
    out.push(48 + d);
    assert(decimal_bytes(n as nat) == if n < 10 { seq![digit_byte(n as nat)] } else {
        decimal_bytes((n / 10) as nat).push(digit_byte((n % 10) as nat))
    });
    assert(final(out)@ =~= old(out)@ + decimal_bytes(n as nat));
}

/// The decimal representation of `n` (what `usize::to_string` writes), as bytes.
pub fn decimal(n: usize) -> (r: Vec<u8>)
    ensures
        r@ == decimal_bytes(n as nat),
{
    let mut out: Vec<u8> = Vec::new();
    push_decimal(&mut out, n);
    assert(out@ =~= decimal_bytes(n as nat));
    out
}

/// Every number can be read back from its decimal representation, and that
/// representation is made of ASCII digits only.
pub proof fn decimal_round_trip(n: nat)
    ensures
        decimal_value(decimal_bytes(n)) == n,
        forall|i: int| 0 <= i < decimal_bytes(n).len() ==> 48 <= #[trigger] decimal_bytes(n)[i] <= 57,
        decimal_bytes(n).len() >= 1,
    decreases n,
{
    if n >= 10 {
        decimal_round_trip(n / 10);
        let s = decimal_bytes(n);
        assert(s.drop_last() =~= decimal_bytes(n / 10));
        assert(n == (n / 10) * 10 + n % 10) by (nonlinear_arith);
        assert(n % 10 < 10);
        assert(s.last() == (48 + n % 10) as u8);
        assert((s.last() - 48) as nat == n % 10);
        assert(decimal_value(s) == decimal_value(s.drop_last()) * 10 + ((s.last() - 48) as nat));
    } else {
        let s = decimal_bytes(n);
        assert(s.drop_last() =~= Seq::<u8>::empty());
        assert(decimal_value(s.drop_last()) == 0);
        assert(decimal_value(s) == decimal_value(s.drop_last()) * 10 + ((s.last() - 48) as nat));
    }
}


/// A byte that `HeaderValue::to_str` accepts: visible ASCII or a tab.
pub open spec fn is_visible_ascii(b: u8) -> bool {
    (32 <= b && b < 127) || b == 9
}

/// Every byte of `s` is visible ASCII or a tab.
pub open spec fn all_visible_ascii(s: Seq<u8>) -> bool {
    forall|i: int| 0 <= i < s.len() ==> is_visible_ascii(#[trigger] s[i])
}

/// Tests whether every byte of `s` is visible ASCII or a tab.
pub fn visible_ascii(s: &[u8]) -> (b: bool)
    ensures
        b == all_visible_ascii(s@),
{
    let n = s.len();
    let mut i: usize = 0;
    while i < n
        invariant
            n == s@.len(),
            i <= n,
            forall|k: int| 0 <= k < i ==> is_visible_ascii(#[trigger] s@[k]),
        decreases n - i,
    {
        let b = s[i];
        if !((32 <= b && b < 127) || b == 9) {
            return false;
        }
        i = i + 1;
    }
    true
}

/// A sequence of ASCII bytes is valid UTF-8.
pub proof fn ascii_is_valid_utf8(s: Seq<u8>)
    requires
        forall|i: int| 0 <= i < s.len() ==> #[trigger] s[i] < 128,
    ensures
        valid_utf8(s),
    decreases s.len(),
{
    if s.len() > 0 {
        let b = s[0];
        assert(b < 128);
        assert((b & 0x7F) == b) by (bit_vector)
            requires
                b < 128,
        ;
        assert(valid_first_scalar(s));
        let rest = pop_first_scalar(s);
        assert(rest =~= s.skip(1));
        assert forall|i: int| 0 <= i < rest.len() implies #[trigger] rest[i] < 128 by {
            assert(rest[i] == s[i + 1]);
        }
        ascii_is_valid_utf8(rest);
    }
}

/// `std::str::from_utf8`: borrows `bytes` as a string slice when they are valid UTF-8.
#[verifier::external_body]
fn str_from_utf8(bytes: &[u8]) -> (r: Option<&str>)
    ensures
        r is Some <==> valid_utf8(bytes@),
        r matches Some(s) ==> s.spec_bytes() == bytes@,
{
    std::str::from_utf8(bytes).ok()
}

/// Reads visible-ASCII bytes as a string slice.
pub fn visible_ascii_str(bytes: &[u8]) -> (s: &str)
    requires
        all_visible_ascii(bytes@),
    ensures
        s@ == decode_utf8(bytes@),
{
    proof {
        assert forall|i: int| 0 <= i < bytes@.len() implies #[trigger] bytes@[i] < 128 by {
            assert(is_visible_ascii(bytes@[i]));
        }
        ascii_is_valid_utf8(bytes@);
    }
    match str_from_utf8(bytes) {
        Some(s) => {
            proof {
                encode_utf8_decode_utf8(s@);
            }
            s
        },
        None => {
            proof {
                assert(false);
            }
            ""
        },
    }
}

/// The concatenation of `vals`, with `sep` between neighbours.
pub open spec fn join_with(vals: Seq<Seq<u8>>, sep: Seq<u8>) -> Seq<u8>
    decreases vals.len(),
{
    if vals.len() == 0 {
        Seq::empty()
    } else if vals.len() == 1 {
        vals[0]
    } else {
        join_with(vals.drop_last(), sep) + sep + vals.last()
    }
}

/// Joining nothing gives nothing, joining one value gives it unchanged, and
/// appending a value to a non-empty list appends the separator and the value,
/// byte for byte, to the join.
pub proof fn join_with_law(vals: Seq<Seq<u8>>, v: Seq<u8>, sep: Seq<u8>)
    ensures
        join_with(Seq::empty(), sep) == Seq::<u8>::empty(),
        join_with(seq![v], sep) == v,
        vals.len() > 0 ==> join_with(vals.push(v), sep) == join_with(vals, sep) + sep + v,
{
    assert(seq![v].len() == 1);
    if vals.len() > 0 {
        assert(vals.push(v).drop_last() =~= vals);
        assert(vals.push(v).last() == v);
    }
}

/// Concatenates `vals` with `sep` between neighbours.
pub fn join_bytes(vals: &Vec<Vec<u8>>, sep: &[u8]) -> (r: Vec<u8>)
    ensures
        r@ == join_with(vals.deep_view(), sep@),
{
    let ghost v = vals.deep_view();
    let n = vals.len();
    let mut out: Vec<u8> = Vec::new();
    let mut i: usize = 0;
    assert(v.take(0) =~= Seq::<Seq<u8>>::empty());
    while i < n
        invariant
            n == vals@.len(),
            v == vals.deep_view(),
            i <= n,
            out@ == join_with(v.take(i as int), sep@),
        decreases n - i,
    {
        assert(v.take(i + 1).drop_last() =~= v.take(i as int));
        assert(v[i as int] == vals@[i as int]@);
        if i > 0 {
            let mut s = slice_to_vec(sep);
            out.append(&mut s);
        }
        let mut item = slice_to_vec(vals[i].as_slice());
        out.append(&mut item);
        proof {
            if i == 0 {
                assert(v.take(1) =~= seq![v[0]]);
            }
        }
        i = i + 1;
    }
    assert(v.take(n as int) =~= v);
    out
}


/// Tests whether two string slices hold the same characters.
pub fn str_eq(a: &str, b: &str) -> (r: bool)
    ensures
        r == (a@ == b@),
{
    let n = a.unicode_len();
    if n != b.unicode_len() {
        return false;
    }
    let mut i: usize = 0;
    while i < n
        invariant
            n == a@.len(),
            n == b@.len(),
            i <= n,
            forall|k: int| 0 <= k < i ==> a@[k] == b@[k],
        decreases n - i,
    {
        if a.get_char(i) != b.get_char(i) {
            return false;
        }
        i = i + 1;
    }
    assert(a@ =~= b@);
    true
}

} // verus!

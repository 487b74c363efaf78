//! Percent-encoding, base64 and reading error bodies, done by the
//! `urlencoding`, `base64` and `serde_json` crates; the first two are
//! stated here over the UTF-8 bytes of the input.

use vstd::prelude::*;
use vstd::utf8::encode_utf8;

use base64::Engine;

use crate::model::opt_view;
use crate::text::{chars_of, slice_string};

verus! {

/// The bytes `urlencoding` leaves as they are: ASCII letters and digits and
/// `-`, `.`, `_`, `~`.
pub open spec fn is_unreserved(b: u8) -> bool {
    ||| 0x30 <= b <= 0x39
    ||| 0x41 <= b <= 0x5A
    ||| 0x61 <= b <= 0x7A
    ||| b == 0x2D
    ||| b == 0x2E
    ||| b == 0x5F
    ||| b == 0x7E
}

/// An upper-case hexadecimal digit.
pub open spec fn hex_digit(d: int) -> char {
    if d < 10 {
        (0x30 + d) as char
    } else {
        (0x41 + d - 10) as char
    }
}

/// Every byte but the unreserved ones written as `%` and two upper-case
/// hexadecimal digits.
pub open spec fn percent_encode(bytes: Seq<u8>) -> Seq<char>
    decreases bytes.len(),
{
    if bytes.len() == 0 {
        Seq::empty()
    } else {
        let b = bytes[0];
        (if is_unreserved(b) {
            seq![b as char]
        } else {
            seq!['%', hex_digit(b as int / 16), hex_digit(b as int % 16)]
        }) + percent_encode(bytes.drop_first())
    }
}

/// `s` percent-encoded byte by byte.
pub open spec fn url_encoded(s: Seq<char>) -> Seq<char> {
    percent_encode(encode_utf8(s))
}

/// Calls `urlencoding::encode`, which percent-encodes every UTF-8 byte of
/// its input except ASCII letters, digits and `-`, `.`, `_`, `~`, writing
/// the hexadecimal digits in upper case.
#[verifier::external_body]
pub(crate) fn url_encode(s: &str) -> (res: String)
    ensures
        res@ == url_encoded(s@),
{
    urlencoding::encode(s).into_owned()
}

/// A symbol of the standard base64 alphabet (`A-Z`, `a-z`, `0-9`, `+`, `/`).
pub open spec fn base64_symbol(v: int) -> char {
    if v < 26 {
        (0x41 + v) as char
    } else if v < 52 {
        (0x61 + v - 26) as char
    } else if v < 62 {
        (0x30 + v - 52) as char
    } else if v == 62 {
        '+'
    } else {
        '/'
    }
}

/// Standard base64 with `=` padding: every three bytes become four symbols.
pub open spec fn base64_standard(b: Seq<u8>) -> Seq<char>
    decreases b.len(),
{
    if b.len() == 0 {
        Seq::empty()
    } else {
        let b0 = b[0] as int;
        let b1 = if b.len() > 1 { b[1] as int } else { 0 };
        let b2 = if b.len() > 2 { b[2] as int } else { 0 };
        if b.len() == 1 {
            seq![base64_symbol(b0 / 4), base64_symbol((b0 % 4) * 16), '=', '=']
        } else if b.len() == 2 {
            seq![
                base64_symbol(b0 / 4),
                base64_symbol((b0 % 4) * 16 + b1 / 16),
                base64_symbol((b1 % 16) * 4),
                '=',
            ]
        } else {
            seq![
                base64_symbol(b0 / 4),
                base64_symbol((b0 % 4) * 16 + b1 / 16),
                base64_symbol((b1 % 16) * 4 + b2 / 64),
                base64_symbol(b2 % 64),
            ] + base64_standard(b.skip(3))
        }
    }
}

/// Whether `base64` can size its output for `n` input bytes: its
/// `encoded_len` (four symbols for each group of three bytes, four more for
/// a last, shorter group when padding) fits in a `usize`.
pub open spec fn base64_size_fits(n: int) -> bool {
    if n % 3 == 0 {
        (n / 3) * 4 <= usize::MAX
    } else {
        (n / 3) * 4 + 4 <= usize::MAX
    }
}

/// Calls `base64::engine::general_purpose::STANDARD.encode` on the UTF-8
/// bytes of `s`: the standard alphabet, with `=` padding. It panics exactly
/// when `encoded_len` overflows, which the `requires` leaves out.
#[verifier::external_body]
pub(crate) fn base64_encode(s: &str) -> (res: String)
    requires
        base64_size_fits(encode_utf8(s@).len() as int),
    ensures
        res@ == base64_standard(encode_utf8(s@)),
{
    base64::engine::general_purpose::STANDARD.encode(s)
}

// ------------------------------------------------------------ error bodies --

/// What `serde_json` finds under `key` when `body` is read as a JSON value:
/// `None` when the body is not JSON or has no such member; the member's
/// text when it is a JSON string, else the member written out as JSON.
pub uninterp spec fn json_member_text(body: Seq<char>, key: Seq<char>) -> Option<Seq<char>>;

/// What `serde_json` finds under `key` when `body` is read as a JSON value,
/// where that member is a JSON string: its text; `None` otherwise.
pub uninterp spec fn json_member_str(body: Seq<char>, key: Seq<char>) -> Option<Seq<char>>;

/// Calls `serde_json::from_str::<serde_json::Value>` on `body`, then
/// `Value::get(key)`, and `Value::as_str` (else `to_string`) on the member.
/// The contract claims only that the result is the named function of the
/// two strings.
#[verifier::external_body]
pub(crate) fn json_member_text_of(body: &str, key: &str) -> (res: Option<String>)
    ensures
        opt_view(res) == json_member_text(body@, key@),
{
    let v: serde_json::Value = serde_json::from_str(body).ok()?;
    let m = v.get(key)?;
    Some(match m.as_str() {
        Some(t) => t.to_string(),
        None => m.to_string(),
    })
}

/// Calls `serde_json::from_str::<serde_json::Value>` on `body`, then
/// `Value::get(key)` and `Value::as_str`. The contract claims only that the
/// result is the named function of the two strings.
#[verifier::external_body]
pub(crate) fn json_member_str_of(body: &str, key: &str) -> (res: Option<String>)
    ensures
        opt_view(res) == json_member_str(body@, key@),
{
    let v: serde_json::Value = serde_json::from_str(body).ok()?;
    v.get(key)?.as_str().map(|t| t.to_string())
}

/// The first `n` characters of `s` (all of it when shorter).
pub open spec fn first_chars(s: Seq<char>, n: nat) -> Seq<char> {
    if s.len() <= n {
        s
    } else {
        s.take(n as int)
    }
}

pub fn first_chars_of(s: &str, n: usize) -> (res: String)
    ensures
        res@ == first_chars(s@, n as nat),
{
    let v = chars_of(s);
    let k: usize = if v.len() <= n { v.len() } else { n };
    let out = slice_string(s, 0, k);
    proof {
        assert(s@.subrange(0, k as int) =~= first_chars(s@, n as nat));
    }
    out
}

/// The detail shown for a refused request whose error body carries it in a
/// `message` string: that string, else the body's first 160 characters.
pub open spec fn message_detail(body: Seq<char>) -> Seq<char> {
    match json_member_str(body, "message"@) {
        Some(m) => m,
        None => first_chars(body, 160),
    }
}

pub fn message_detail_of(body: &str) -> (res: String)
    ensures
        res@ == message_detail(body@),
{
    match json_member_str_of(body, "message") {
        Some(m) => m,
        None => first_chars_of(body, 160),
    }
}

} // verus!

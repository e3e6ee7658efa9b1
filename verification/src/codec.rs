//! Byte and text codecs that the library takes from outside crates:
//! HMAC-SHA1 (`hmac`, `sha1`), standard Base64 (`base64`) and JSON string
//! literals (`serde_json`).

use base64::Engine as _;
use hmac::Mac as _;
use vstd::prelude::*;

verus! {

#[verifier::external_type_specification]
#[verifier::external_body]
pub struct ExInvalidLength(hmac::digest::InvalidLength);

#[verifier::external_type_specification]
#[verifier::external_body]
pub struct ExJsonError(serde_json::Error);

/// The HMAC-SHA1 tag of `data` under `key`.
pub uninterp spec fn hmac_sha1_tag(key: Seq<u8>, data: Seq<u8>) -> Seq<u8>;

/// HMAC-SHA1 through `Hmac::<Sha1>::new_from_slice`, `update` and
/// `finalize`. The crate's source shows that `new_from_slice` accepts keys
/// of every length (longer keys are hashed first), so the result is always
/// `Ok`; the tag is named, not stated, and is the 20 bytes of a SHA-1 digest.
#[verifier::external_body]
pub(crate) fn hmac_sha1(key: &[u8], data: &[u8]) -> (r: Result<Vec<u8>, hmac::digest::InvalidLength>)
    ensures
        r is Ok,
        r.unwrap()@ == hmac_sha1_tag(key@, data@),
        r.unwrap()@.len() == 20,
{
    let mut mac = match <hmac::Hmac<sha1::Sha1> as hmac::Mac>::new_from_slice(key) {
        Ok(m) => m,
        Err(e) => return Err(e),
    };
    mac.update(data);
    Ok(mac.finalize().into_bytes().to_vec())
}

/// The character of the standard Base64 alphabet for a value below 64.
pub open spec fn base64_char(v: nat) -> char {
    if v < 26 {
        (('A' as u32) + v) as char
    } else if v < 52 {
        (('a' as u32) + (v - 26)) as char
    } else if v < 62 {
        (('0' as u32) + (v - 52)) as char
    } else if v == 62 {
        '+'
    } else {
        '/'
    }
}

/// Standard Base64 with `=` padding: each group of three bytes becomes four
/// characters; a final group of one or two bytes is padded to four.
pub open spec fn base64(bytes: Seq<u8>) -> Seq<char>
    decreases bytes.len(),
{
    if bytes.len() == 0 {
        seq![]
    } else if bytes.len() == 1 {
        let b0 = bytes[0] as nat;
        seq![base64_char(b0 / 4), base64_char((b0 % 4) * 16), '=', '=']
    } else if bytes.len() == 2 {
        let b0 = bytes[0] as nat;
        let b1 = bytes[1] as nat;
        seq![
            base64_char(b0 / 4),
            base64_char((b0 % 4) * 16 + b1 / 16),
            base64_char((b1 % 16) * 4),
            '=',
        ]
    } else {
        let b0 = bytes[0] as nat;
        let b1 = bytes[1] as nat;
        let b2 = bytes[2] as nat;
        seq![
            base64_char(b0 / 4),
            base64_char((b0 % 4) * 16 + b1 / 16),
            base64_char((b1 % 16) * 4 + b2 / 64),
            base64_char(b2 % 64),
        ] + base64(bytes.skip(3))
    }
}

/// The length of the Base64 text of `n` bytes: four characters for every
/// started group of three.
pub proof fn lemma_base64_len(bytes: Seq<u8>)
    ensures
        base64(bytes).len() == 4 * ((bytes.len() + 2) / 3),
    decreases bytes.len(),
{
    if bytes.len() >= 3 {
        lemma_base64_len(bytes.skip(3));
    }
}

/// A character of the standard Base64 alphabet (`A-Z`, `a-z`, `0-9`, `+`, `/`).
pub open spec fn is_base64_alphabet(c: char) -> bool {
    ('A' <= c <= 'Z') || ('a' <= c <= 'z') || ('0' <= c <= '9') || c == '+' || c == '/'
}

/// The shape of the Base64 text of a byte count of the form `3k + 2`: every
/// character but the last is from the alphabet, and the last is the single
/// padding character `=`.
pub proof fn lemma_base64_one_pad(bytes: Seq<u8>)
    requires
        bytes.len() % 3 == 2,
    ensures
        base64(bytes).len() == 4 * ((bytes.len() + 2) / 3),
        base64(bytes).last() == '=',
        forall|i: int| 0 <= i < base64(bytes).len() - 1 ==> is_base64_alphabet(#[trigger] base64(bytes)[i]),
    decreases bytes.len(),
{
    lemma_base64_len(bytes);
    if bytes.len() >= 3 {
        let rest = bytes.skip(3);
        lemma_base64_one_pad(rest);
        let b0 = bytes[0] as nat;
        let b1 = bytes[1] as nat;
        let b2 = bytes[2] as nat;
        let head = seq![
            base64_char(b0 / 4),
            base64_char((b0 % 4) * 16 + b1 / 16),
            base64_char((b1 % 16) * 4 + b2 / 64),
            base64_char(b2 % 64),
        ];
        assert(base64(bytes) == head + base64(rest));
        assert forall|i: int| 0 <= i < base64(bytes).len() - 1 implies is_base64_alphabet(#[trigger] base64(bytes)[i]) by {
            if i >= 4 {
                assert(base64(bytes)[i] == base64(rest)[i - 4]);
            }
        }
    }
}

/// `base64::engine::general_purpose::STANDARD.encode(bytes)`: per the
/// crate, the standard alphabet with `=` padding. The crate panics when the
/// output length overflows `usize`, which the bound on the input excludes.
#[verifier::external_body]
pub(crate) fn base64_encode(bytes: &[u8]) -> (r: String)
    requires
        bytes@.len() <= usize::MAX / 2,
    ensures
        r@ == base64(bytes@),
{
    base64::engine::general_purpose::STANDARD.encode(bytes)
}

/// The JSON escape of one character inside a string literal, as
/// `serde_json` writes it: `"` and `\` are escaped with a backslash, the
/// controls backspace, tab, line feed, form feed and carriage return by
/// their short escapes, the other controls below 0x20 as `\u00` and two
/// lower-case hexadecimal digits; every other character stands for itself.
pub open spec fn json_escape_char(c: char) -> Seq<char> {
    let v = c as u32;
    if c == '"' {
        seq!['\\', '"']
    } else if c == '\\' {
        seq!['\\', '\\']
    } else if v == 0x08 {
        seq!['\\', 'b']
    } else if v == 0x09 {
        seq!['\\', 't']
    } else if v == 0x0a {
        seq!['\\', 'n']
    } else if v == 0x0c {
        seq!['\\', 'f']
    } else if v == 0x0d {
        seq!['\\', 'r']
    } else if v < 0x20 {
        seq!['\\', 'u', '0', '0', hex_lower((v / 16) as nat), hex_lower((v % 16) as nat)]
    } else {
        seq![c]
    }
}

/// Lower-case hexadecimal digit for a value below sixteen.
pub open spec fn hex_lower(d: nat) -> char {
    if d < 10 {
        (('0' as u32) + d) as char
    } else {
        (('a' as u32) + (d - 10)) as char
    }
}

/// The escaped contents of a JSON string literal.
pub open spec fn json_escaped(s: Seq<char>) -> Seq<char>
    decreases s.len(),
{
    if s.len() == 0 {
        seq![]
    } else {
        json_escape_char(s[0]) + json_escaped(s.drop_first())
    }
}

/// The JSON string literal of `s`: the escaped contents between quotes.
pub open spec fn json_string(s: Seq<char>) -> Seq<char> {
    seq!['"'] + json_escaped(s) + seq!['"']
}

/// `serde_json::to_string(s)` for a string: the crate writes the literal
/// into a `Vec<u8>`, which cannot fail, so the result is always `Ok`, and
/// the literal is `"`, the escaped contents, `"`.
#[verifier::external_body]
pub(crate) fn json_string_literal(s: &str) -> (r: Result<String, serde_json::Error>)
    ensures
        r is Ok,
        r.unwrap()@ == json_string(s@),
{
    serde_json::to_string(s)
}

} // verus!

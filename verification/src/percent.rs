//! Percent-encoding of UTF-8 text, as the `percent-encoding` crate does it,
//! and the encode sets used by this library.

use percent_encoding::AsciiSet;
use vstd::prelude::*;
use vstd::string::*;
use vstd::utf8::*;
use crate::text::{digit_char, push_char};

verus! {

/// Upper-case hexadecimal digit for a value below sixteen.
pub open spec fn hex_upper(d: nat) -> char {
    if d < 10 {
        digit_char(d)
    } else {
        (('A' as u32) + (d - 10)) as char
    }
}

/// `%` followed by the two upper-case hexadecimal digits of `b`.
pub open spec fn percent_triplet(b: u8) -> Seq<char> {
    seq!['%', hex_upper((b / 16) as nat), hex_upper((b % 16) as nat)]
}

/// How one byte of the input comes out: an ASCII byte outside `set` stands
/// for itself, every other byte is written as a `%XX` triplet.
pub open spec fn encode_byte(b: u8, set: Set<u8>) -> Seq<char> {
    if b < 128 && !set.contains(b) {
        seq![b as char]
    } else {
        percent_triplet(b)
    }
}

/// Percent-encoding of a byte sequence with the encode set `set`.
pub open spec fn percent_encoded(bytes: Seq<u8>, set: Set<u8>) -> Seq<char>
    decreases bytes.len(),
{
    if bytes.len() == 0 {
        seq![]
    } else {
        encode_byte(bytes[0], set) + percent_encoded(bytes.drop_first(), set)
    }
}

/// Percent-encoding distributes over concatenation of the input.
pub proof fn lemma_percent_encoded_concat(a: Seq<u8>, b: Seq<u8>, set: Set<u8>)
    ensures
        percent_encoded(a + b, set) == percent_encoded(a, set) + percent_encoded(b, set),
    decreases a.len(),
{
    if a.len() == 0 {
        assert(a + b =~= b);
        assert(percent_encoded(a, set) + percent_encoded(b, set) =~= percent_encoded(b, set));
    } else {
        assert((a + b).drop_first() =~= a.drop_first() + b);
        lemma_percent_encoded_concat(a.drop_first(), b, set);
        assert(percent_encoded(a + b, set) =~= encode_byte(a[0], set) + (percent_encoded(
            a.drop_first(),
            set,
        ) + percent_encoded(b, set)));
    }
}

/// Encoding a prefix one byte longer appends the encoding of that byte.
pub proof fn lemma_percent_encoded_step(bytes: Seq<u8>, i: int, set: Set<u8>)
    requires
        0 <= i < bytes.len(),
    ensures
        percent_encoded(bytes.take(i + 1), set) == percent_encoded(bytes.take(i), set)
            + encode_byte(bytes[i], set),
{
    assert(bytes.take(i + 1) =~= bytes.take(i) + seq![bytes[i]]);
    lemma_percent_encoded_concat(bytes.take(i), seq![bytes[i]], set);
    let one = seq![bytes[i]];
    assert(one.drop_first() =~= Seq::<u8>::empty());
    assert(percent_encoded(one.drop_first(), set) =~= Seq::<char>::empty());
    assert(percent_encoded(one, set) =~= encode_byte(bytes[i], set));
}

/// Text made of ASCII characters outside the encode set comes out of
/// percent-encoding unchanged.
pub proof fn lemma_percent_encoded_keeps_ascii(s: Seq<char>, set: Set<u8>)
    requires
        forall|i: int| 0 <= i < s.len() ==> '\0' <= #[trigger] s[i] <= '\u{7f}' && !set.contains(s[i] as u8),
    ensures
        percent_encoded(encode_utf8(s), set) == s,
    decreases s.len(),
{
    if s.len() > 0 {
        let t = s.drop_first();
        assert forall|i: int| 0 <= i < t.len() implies '\0' <= #[trigger] t[i] <= '\u{7f}' && !set.contains(t[i] as u8) by {
            assert(t[i] == s[i + 1]);
        }
        lemma_percent_encoded_keeps_ascii(t, set);
        let c = s[0];
        assert(is_ascii_chars(s)) by {
            assert forall|i: int| 0 <= i < s.len() implies '\0' <= #[trigger] s[i] <= '\u{7f}' by {
            }
        }
        assert(is_ascii_chars(t)) by {
            assert forall|i: int| 0 <= i < t.len() implies '\0' <= #[trigger] t[i] <= '\u{7f}' by {
                assert(t[i] == s[i + 1]);
            }
        }
        is_ascii_chars_encode_utf8(s);
        is_ascii_chars_encode_utf8(t);
        let bytes = encode_utf8(s);
        let head = encode_scalar(c as u32);
        assert(bytes == head + encode_utf8(t));
        assert(head.len() == 1);
        assert(bytes.drop_first() =~= encode_utf8(t));
        assert(bytes[0] == c as u8);
        char_u32_cast(c, c as u32);
        assert(encode_byte(c as u8, set) =~= seq![c]);
        assert(s =~= seq![c] + t);
    }
}

/// The C0 control bytes and DEL.
pub open spec fn controls() -> Set<u8> {
    Set::new(|b: u8| b < 0x20 || b == 0x7f)
}

/// Every ASCII byte that is not a letter or a digit.
pub open spec fn non_alphanumeric_set() -> Set<u8> {
    Set::new(
        |b: u8|
            b < 128 && !((0x30 <= b && b <= 0x39) || (0x41 <= b && b <= 0x5a) || (0x61 <= b && b
                <= 0x7a)),
    )
}

/// Whether `b` is one of the bytes that the signing rules encode besides the
/// controls: space and `"#<>+%&=/?:@[]{},`.
pub open spec fn fragment_extra(b: u8) -> bool {
    b == 0x20 || b == 0x22 || b == 0x23 || b == 0x3c || b == 0x3e || b == 0x2b || b == 0x25 || b
        == 0x26 || b == 0x3d || b == 0x2f || b == 0x3f || b == 0x3a || b == 0x40 || b == 0x5b || b
        == 0x5d || b == 0x7b || b == 0x7d || b == 0x2c
}

/// The encode set of the signing rules: the controls, space and
/// `"#<>+%&=/?:@[]{},`.
pub open spec fn fragment_set() -> Set<u8> {
    Set::new(|b: u8| controls().contains(b) || fragment_extra(b))
}

/// Membership in `fragment_set`.
pub fn fragment_contains(b: u8) -> (r: bool)
    ensures
        r == fragment_set().contains(b),
{
    b < 0x20 || b == 0x7f || b == 0x20 || b == 0x22 || b == 0x23 || b == 0x3c || b == 0x3e || b
        == 0x2b || b == 0x25 || b == 0x26 || b == 0x3d || b == 0x2f || b == 0x3f || b == 0x3a || b
        == 0x40 || b == 0x5b || b == 0x5d || b == 0x7b || b == 0x7d || b == 0x2c
}

#[verifier::external_type_specification]
#[verifier::external_body]
pub struct ExAsciiSet(AsciiSet);

/// The bytes that a `percent_encoding::AsciiSet` holds.
pub uninterp spec fn ascii_set_members(set: AsciiSet) -> Set<u8>;

/// `percent_encoding::NON_ALPHANUMERIC`: the crate defines it as the
/// controls plus every other ASCII byte that is not a letter or a digit.
#[verifier::external_body]
pub(crate) fn non_alphanumeric() -> (r: &'static AsciiSet)
    ensures
        ascii_set_members(*r) == non_alphanumeric_set(),
{
    percent_encoding::NON_ALPHANUMERIC
}

/// `percent_encoding::utf8_percent_encode(s, set)`, rendered with `to_string`:
/// per the crate, each byte of the UTF-8 encoding of `s` that is not ASCII
/// or lies in `set` becomes `%` and two upper-case hexadecimal digits, every
/// other byte stands for itself.
#[verifier::external_body]
pub(crate) fn utf8_percent_encode_with(s: &str, set: &'static AsciiSet) -> (r: String)
    ensures
        r@ == percent_encoded(s.spec_bytes(), ascii_set_members(*set)),
{
    percent_encoding::utf8_percent_encode(s, set).to_string()
}

/// `percent_encoding::percent_encode_byte(b)`: per the crate, `%` followed
/// by the two upper-case hexadecimal digits of `b`.
#[verifier::external_body]
pub(crate) fn percent_encode_byte(b: u8) -> (r: &'static str)
    ensures
        r@ == percent_triplet(b),
{
    percent_encoding::percent_encode_byte(b)
}

/// Percent-encodes the UTF-8 encoding of `s` with `fragment_set`.
/// `percent_encoding::utf8_percent_encode` takes its set by `'static`
/// reference, which a set built at run time cannot give, so the walk over
/// the bytes is done here; each encoded byte comes from the crate's
/// `percent_encode_byte`.
pub fn utf8_percent_encode_fragment(s: &str) -> (r: String)
    ensures
        r@ == percent_encoded(s.spec_bytes(), fragment_set()),
{
    let bytes = s.as_bytes();
    let n = bytes.len();
    let mut out = String::new();
    let mut i: usize = 0;
    assert(bytes@.take(0) =~= Seq::<u8>::empty());
    while i < n
        invariant
            n == bytes@.len(),
            bytes@ == s.spec_bytes(),
            i <= n,
            out@ == percent_encoded(bytes@.take(i as int), fragment_set()),
        decreases n - i,
    {
        let b = bytes[i];
        proof {
            lemma_percent_encoded_step(bytes@, i as int, fragment_set());
        }
        if b < 128 && !fragment_contains(b) {
            push_char(&mut out, b as char);
        } else {
            out.append(percent_encode_byte(b));
        }
        i = i + 1;
    }
    assert(bytes@.take(n as int) =~= bytes@);
    out
}

} // verus!

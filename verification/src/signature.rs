//! Request signing (signature version 1.0, HMAC-SHA1): the encoding of
//! names and values, the string to sign, and the signed parameter set.

use vstd::prelude::*;
use vstd::string::*;
use vstd::utf8::*;
use crate::codec::{base64, base64_encode, hmac_sha1, hmac_sha1_tag, is_base64_alphabet, lemma_base64_one_pad};
use crate::error::SmsError;
use crate::params::{lemma_sorted_listing, query_text, sorted_listing, ParamMap};
use crate::percent::{
    encode_byte, lemma_percent_encoded_keeps_ascii, fragment_set, hex_upper, percent_encoded, percent_triplet,
    utf8_percent_encode_fragment,
};
use crate::text::{push_char, replace_all, replace_all_str};

verus! {

/// The encoding of the signing rules, step by step: percent-encoding of the
/// UTF-8 bytes with `fragment_set`, then `+` becomes `%20`, `*` becomes
/// `%2A` and `%7E` becomes `~`.
pub open spec fn sign_encode(s: Seq<char>) -> Seq<char> {
    replace_all(
        replace_all(
            replace_all(percent_encoded(encode_utf8(s), fragment_set()), seq!['+'], seq!['%', '2', '0']),
            seq!['*'],
            seq!['%', '2', 'A'],
        ),
        seq!['%', '7', 'E'],
        seq!['~'],
    )
}

/// The encode set that `sign_encode` amounts to: `fragment_set` and `*`.
pub open spec fn sign_set() -> Set<u8> {
    fragment_set().insert(0x2a)
}

proof fn lemma_replace_head_mismatch(c: char, x: Seq<char>, pat: Seq<char>, rep: Seq<char>)
    requires
        pat.len() > 0,
        c != pat[0],
    ensures
        replace_all(seq![c] + x, pat, rep) == seq![c] + replace_all(x, pat, rep),
{
    let s = seq![c] + x;
    if s.len() >= pat.len() {
        assert(s.take(pat.len() as int)[0] == c);
    }
    assert(s.drop_first() =~= x);
}

proof fn lemma_replace_head_match(x: Seq<char>, pat: Seq<char>, rep: Seq<char>)
    requires
        pat.len() > 0,
    ensures
        replace_all(pat + x, pat, rep) == rep + replace_all(x, pat, rep),
{
    let s = pat + x;
    assert(s.take(pat.len() as int) =~= pat);
    assert(s.skip(pat.len() as int) =~= x);
}

/// A chunk of encoder output passes through a replacement untouched when
/// none of its characters is the first character of the pattern.
proof fn lemma_replace_passes(u: Seq<char>, x: Seq<char>, pat: Seq<char>, rep: Seq<char>)
    requires
        pat.len() > 0,
        forall|i: int| 0 <= i < u.len() ==> u[i] != pat[0],
    ensures
        replace_all(u + x, pat, rep) == u + replace_all(x, pat, rep),
    decreases u.len(),
{
    if u.len() > 0 {
        let t = u.drop_first();
        lemma_replace_passes(t, x, pat, rep);
        assert(u + x =~= seq![u[0]] + (t + x));
        lemma_replace_head_mismatch(u[0], t + x, pat, rep);
        assert(u + replace_all(x, pat, rep) =~= seq![u[0]] + (t + replace_all(x, pat, rep)));
    } else {
        assert(u + x =~= x);
        assert(u + replace_all(x, pat, rep) =~= replace_all(x, pat, rep));
    }
}

proof fn lemma_hex_upper_range(d: nat)
    requires
        d < 16,
    ensures
        ('0' <= hex_upper(d) <= '9') || ('A' <= hex_upper(d) <= 'F'),
        hex_upper(d) == '7' ==> d == 7,
        hex_upper(d) == 'E' ==> d == 14,
        d == 2 ==> hex_upper(d) == '2',
        d == 10 ==> hex_upper(d) == 'A',
{
}

/// How the three replacements act on the encoding of a single byte.
proof fn lemma_sign_encode_byte(b: u8, x: Seq<char>)
    ensures
        replace_all(
            replace_all(
                replace_all(encode_byte(b, fragment_set()) + x, seq!['+'], seq!['%', '2', '0']),
                seq!['*'],
                seq!['%', '2', 'A'],
            ),
            seq!['%', '7', 'E'],
            seq!['~'],
        ) == encode_byte(b, sign_set()) + replace_all(
            replace_all(
                replace_all(x, seq!['+'], seq!['%', '2', '0']),
                seq!['*'],
                seq!['%', '2', 'A'],
            ),
            seq!['%', '7', 'E'],
            seq!['~'],
        ),
{
    let plus = seq!['+'];
    let p20 = seq!['%', '2', '0'];
    let star = seq!['*'];
    let p2a = seq!['%', '2', 'A'];
    let p7e = seq!['%', '7', 'E'];
    let tilde = seq!['~'];
    let u = encode_byte(b, fragment_set());
    let v = encode_byte(b, sign_set());
    let x1 = replace_all(x, plus, p20);
    let x2 = replace_all(x1, star, p2a);
    lemma_hex_upper_range((b / 16) as nat);
    lemma_hex_upper_range((b % 16) as nat);
    // No `+` in the chunk: `+` is in the encode set.
    lemma_replace_passes(u, x, plus, p20);
    if b == 0x2a {
        assert(u =~= star);
        lemma_replace_head_match(x1, star, p2a);
        assert(v =~= p2a);
        assert(p2a =~= seq!['%'] + seq!['2', 'A']);
        assert(p2a + x2 =~= seq!['%'] + (seq!['2', 'A'] + x2));
        lemma_replace_passes(seq!['2', 'A'], x2, p7e, tilde);
        let t = seq!['%'] + (seq!['2', 'A'] + x2);
        assert(t.take(3) =~= p2a);
        assert(p2a[1] != p7e[1]);
        assert(t.take(3) != p7e);
        assert(t.drop_first() =~= seq!['2', 'A'] + x2);
        assert(p2a + replace_all(x2, p7e, tilde) =~= seq!['%'] + (seq!['2', 'A'] + replace_all(
            x2,
            p7e,
            tilde,
        )));
    } else {
        assert(u =~= v);
        lemma_replace_passes(u, x1, star, p2a);
        if b < 128 && !fragment_set().contains(b) {
            assert(u =~= seq![b as char]);
            assert(u + x2 =~= seq![b as char] + x2);
            lemma_replace_head_mismatch(b as char, x2, p7e, tilde);
        } else {
            let t = percent_triplet(b);
            assert(u =~= t);
            let tail = seq![t[1], t[2]];
            assert(t =~= seq!['%'] + tail);
            assert(t + x2 =~= seq!['%'] + (tail + x2));
            lemma_replace_passes(tail, x2, p7e, tilde);
            let w = seq!['%'] + (tail + x2);
            assert(w.take(3) =~= t);
            assert(t != p7e) by {
                if t =~= p7e {
                    assert(t[1] == '7' && t[2] == 'E');
                }
            }
            assert(w.drop_first() =~= tail + x2);
            assert(t + replace_all(x2, p7e, tilde) =~= seq!['%'] + (tail + replace_all(
                x2,
                p7e,
                tilde,
            )));
        }
    }
}

/// The replacements applied by the signing encoder amount to adding `*` to
/// the encode set: the result is the percent-encoding of the UTF-8 bytes
/// with `sign_set`.
pub proof fn lemma_sign_encode_is_percent_encoding(bytes: Seq<u8>)
    ensures
        replace_all(
            replace_all(
                replace_all(percent_encoded(bytes, fragment_set()), seq!['+'], seq!['%', '2', '0']),
                seq!['*'],
                seq!['%', '2', 'A'],
            ),
            seq!['%', '7', 'E'],
            seq!['~'],
        ) == percent_encoded(bytes, sign_set()),
    decreases bytes.len(),
{
    if bytes.len() > 0 {
        lemma_sign_encode_is_percent_encoding(bytes.drop_first());
        lemma_sign_encode_byte(bytes[0], percent_encoded(bytes.drop_first(), fragment_set()));
    }
}


/// The encode set of the signing rules, byte by byte: the controls
/// (0x00-0x1F and 0x7F), space, `"`, `#`, `<`, `>`, `+`, `%`, `&`, `=`, `/`,
/// `?`, `:`, `@`, `[`, `]`, `{`, `}`, `,` and `*`, and nothing else.
pub proof fn lemma_sign_set_members(b: u8)
    ensures
        sign_set().contains(b) <==> (b <= 0x1f || b == 0x7f || b == 0x20 || b == 0x22 || b == 0x23
            || b == 0x3c || b == 0x3e || b == 0x2b || b == 0x25 || b == 0x26 || b == 0x3d || b == 0x2f
            || b == 0x3f || b == 0x3a || b == 0x40 || b == 0x5b || b == 0x5d || b == 0x7b || b == 0x7d
            || b == 0x2c || b == 0x2a),
{
}

/// An unreserved character of URIs: an ASCII letter or digit, `-`, `_`,
/// `.` or `~`.
pub open spec fn is_unreserved(c: char) -> bool {
    ('A' <= c <= 'Z') || ('a' <= c <= 'z') || ('0' <= c <= '9') || c == '-' || c == '_' || c == '.'
        || c == '~'
}

/// The signing encoder leaves text of unreserved characters unchanged.
pub proof fn lemma_sign_encode_keeps_unreserved(s: Seq<char>)
    requires
        forall|i: int| 0 <= i < s.len() ==> is_unreserved(#[trigger] s[i]),
    ensures
        sign_encode(s) == s,
{
    lemma_sign_encode_is_percent_encoding(encode_utf8(s));
    assert forall|i: int| 0 <= i < s.len() implies '\0' <= #[trigger] s[i] <= '\u{7f}' && !sign_set().contains(s[i] as u8) by {
        assert(is_unreserved(s[i]));
        lemma_sign_set_members(s[i] as u8);
    }
    lemma_percent_encoded_keeps_ascii(s, sign_set());
}

/// The signing encoder writes each ASCII character of its encode set as the
/// `%XX` triplet of its byte.
pub proof fn lemma_sign_encode_reserved(c: char)
    requires
        '\0' <= c <= '\u{7f}',
        sign_set().contains(c as u8),
    ensures
        sign_encode(seq![c]) == percent_triplet(c as u8),
{
    let s = seq![c];
    lemma_sign_encode_is_percent_encoding(encode_utf8(s));
    assert(is_ascii_chars(s));
    is_ascii_chars_encode_utf8(s);
    let bytes = encode_utf8(s);
    assert(bytes =~= seq![c as u8]);
    assert(bytes.drop_first() =~= Seq::<u8>::empty());
    assert(percent_encoded(bytes.drop_first(), sign_set()) =~= Seq::<char>::empty());
    assert(percent_encoded(bytes, sign_set()) =~= percent_triplet(c as u8));
}

/// `sign_encode` as a function value, for listings of parameters.
pub open spec fn sign_encoder() -> spec_fn(Seq<char>) -> Seq<char> {
    |t: Seq<char>| sign_encode(t)
}

/// The string to sign: the HTTP method, the encoded path `/` and the
/// encoded canonical query, joined by `&`.
pub open spec fn string_to_sign(method: Seq<char>, query: Seq<char>) -> Seq<char> {
    method + seq!['&'] + sign_encode(seq!['/']) + seq!['&'] + sign_encode(query)
}

/// The signature: Base64 of the HMAC-SHA1 tag of the string to sign (its
/// UTF-8 bytes), keyed by the UTF-8 bytes of the secret followed by `&`.
pub open spec fn signature_text(secret: Seq<char>, method: Seq<char>, query: Seq<char>) -> Seq<char> {
    base64(
        hmac_sha1_tag(encode_utf8(secret + seq!['&']), encode_utf8(string_to_sign(method, query))),
    )
}

/// The parameters a request carries before it is signed: the business
/// parameters with the common parameters set over them.
pub open spec fn unsigned_params(
    key_id: Seq<char>,
    action: Seq<char>,
    version: Seq<char>,
    business: Map<Seq<char>, Seq<char>>,
    timestamp: Seq<char>,
    nonce: Seq<char>,
) -> Map<Seq<char>, Seq<char>> {
    business.insert("AccessKeyId"@, key_id).insert("Action"@, action).insert("Format"@, "JSON"@).insert(
        "SignatureMethod"@,
        "HMAC-SHA1"@,
    ).insert("SignatureNonce"@, nonce).insert("SignatureVersion"@, "1.0"@).insert(
        "Timestamp"@,
        timestamp,
    ).insert("Version"@, version)
}

/// The signed parameters: the unsigned ones and `Signature`, the signature
/// of `GET` and their canonical listing.
pub open spec fn signed_params(
    key_id: Seq<char>,
    secret: Seq<char>,
    action: Seq<char>,
    version: Seq<char>,
    business: Map<Seq<char>, Seq<char>>,
    timestamp: Seq<char>,
    nonce: Seq<char>,
) -> Map<Seq<char>, Seq<char>> {
    let unsigned = unsigned_params(key_id, action, version, business, timestamp, nonce);
    unsigned.insert(
        "Signature"@,
        signature_text(
            secret,
            "GET"@,
            query_text(sorted_listing(unsigned), sign_encoder()),
        ),
    )
}

/// Whether `s` reads as a random (version 4) UUID in hyphenated lower-case
/// form: 36 characters, hyphens at positions 8, 13, 18 and 23, lower-case
/// hexadecimal digits elsewhere, version digit `4` and variant digit one of
/// `89ab`.
pub open spec fn is_uuid_v4_text(s: Seq<char>) -> bool {
    &&& s.len() == 36
    &&& forall|i: int|
        0 <= i < 36 ==> if i == 8 || i == 13 || i == 18 || i == 23 {
            #[trigger] s[i] == '-'
        } else {
            ('0' <= s[i] <= '9') || ('a' <= s[i] <= 'f')
        }
    &&& s[14] == '4'
    &&& (s[19] == '8' || s[19] == '9' || s[19] == 'a' || s[19] == 'b')
}

/// The ASCII digit at position `i`.
pub open spec fn digit_at(s: Seq<char>, i: int) -> bool {
    '0' <= s[i] <= '9'
}

/// Two ASCII digits at positions `i` and `i + 1` whose value lies in
/// `lo..=hi`.
pub open spec fn two_digit_field(s: Seq<char>, i: int, lo: int, hi: int) -> bool {
    &&& digit_at(s, i)
    &&& digit_at(s, i + 1)
    &&& lo <= (s[i] as int - '0' as int) * 10 + (s[i + 1] as int - '0' as int) <= hi
}

/// A year as `%Y` writes one from 1000 on: four digits, or from 10000 on a
/// `+` and at least five digits.
pub open spec fn is_year_text(y: Seq<char>) -> bool {
    ||| y.len() == 4 && forall|i: int| 0 <= i < 4 ==> digit_at(y, i)
    ||| y.len() >= 6 && y[0] == '+' && forall|i: int| 1 <= i < y.len() ==> digit_at(y, i)
}

/// The shape of a UTC time written with `%Y-%m-%dT%H:%M:%SZ`: the year,
/// then `-MM-DDTHH:MM:SSZ` with month 01-12, day 01-31, hour 00-23,
/// minute 00-59 and second 00-60 (60 for a leap second).
pub open spec fn is_utc_timestamp_text(s: Seq<char>) -> bool {
    let k = s.len() - 16;
    &&& s.len() >= 20
    &&& is_year_text(s.take(k))
    &&& s[k] == '-'
    &&& two_digit_field(s, k + 1, 1, 12)
    &&& s[k + 3] == '-'
    &&& two_digit_field(s, k + 4, 1, 31)
    &&& s[k + 6] == 'T'
    &&& two_digit_field(s, k + 7, 0, 23)
    &&& s[k + 9] == ':'
    &&& two_digit_field(s, k + 10, 0, 59)
    &&& s[k + 12] == ':'
    &&& two_digit_field(s, k + 13, 0, 60)
    &&& s[k + 15] == 'Z'
}

/// `chrono::Utc::now().format(fmt).to_string()`. The time depends on the
/// clock, so only the shape of the text is stated. `Utc::now` panics on a
/// clock before 1970, so the year is at least 1970, which `%Y` writes as
/// four digits up to 9999 and as `+` and the digits beyond; month, day,
/// hour, minute and second are written as two digits each within their
/// ranges (the second reaches 60 only in a leap second). The format is
/// restricted to the one the signing rules use, which the crate accepts
/// (an unsupported format makes `to_string` panic).
#[verifier::external_body]
fn utc_now_formatted(fmt: &str) -> (r: String)
    requires
        fmt@ == "%Y-%m-%dT%H:%M:%SZ"@,
    ensures
        is_utc_timestamp_text(r@),
{
    chrono::Utc::now().format(fmt).to_string()
}

/// `uuid::Uuid::new_v4().to_string()`: random, so only its form is stated;
/// the crate sets the version and variant bits and renders hyphenated
/// lower-case hexadecimal.
#[verifier::external_body]
fn new_v4_string() -> (r: String)
    ensures
        is_uuid_v4_text(r@),
{
    uuid::Uuid::new_v4().to_string()
}

/// Signs requests with an access key.
#[derive(Clone)]
pub struct SignatureBuilder {
    access_key_id: String,
    access_key_secret: String,
}

impl SignatureBuilder {
    /// The access key id.
    pub closed spec fn key_id(&self) -> Seq<char> {
        self.access_key_id@
    }

    /// The access key secret.
    pub closed spec fn key_secret(&self) -> Seq<char> {
        self.access_key_secret@
    }

    /// A builder for the given access key.
    pub fn new(access_key_id: &str, access_key_secret: &str) -> (r: Self)
        ensures
            r.key_id() == access_key_id@,
            r.key_secret() == access_key_secret@,
    {
        SignatureBuilder {
            access_key_id: access_key_id.to_owned(),
            access_key_secret: access_key_secret.to_owned(),
        }
    }

    /// Encodes a name, a value or a query for signing.
    pub fn percent_encode(s: &str) -> (r: String)
        ensures
            r@ == sign_encode(s@),
            r@ == percent_encoded(encode_utf8(s@), sign_set()),
    {
        let e = utf8_percent_encode_fragment(s);
        proof {
            reveal_strlit("+");
            reveal_strlit("%20");
            reveal_strlit("*");
            reveal_strlit("%2A");
            reveal_strlit("%7E");
            reveal_strlit("~");
            assert("+"@ =~= seq!['+']);
            assert("%20"@ =~= seq!['%', '2', '0']);
            assert("*"@ =~= seq!['*']);
            assert("%2A"@ =~= seq!['%', '2', 'A']);
            assert("%7E"@ =~= seq!['%', '7', 'E']);
            assert("~"@ =~= seq!['~']);
            lemma_sign_encode_is_percent_encoding(encode_utf8(s@));
        }
        let a = replace_all_str(e.as_str(), "+", "%20");
        let b = replace_all_str(a.as_str(), "*", "%2A");
        let c = replace_all_str(b.as_str(), "%7E", "~");
        assert(c@ =~= sign_encode(s@));
        c
    }

    /// The signature of a request with the given method and canonical query.
    pub fn calculate_signature(&self, http_method: &str, canonicalized_query_string: &str) -> (r: Result<String, SmsError>)
        ensures
            r is Ok,
            r.unwrap()@ == signature_text(self.key_secret(), http_method@, canonicalized_query_string@),
            hmac_sha1_tag(
                encode_utf8(self.key_secret() + seq!['&']),
                encode_utf8(string_to_sign(http_method@, canonicalized_query_string@)),
            ).len() == 20,
            r.unwrap()@.len() == 28,
            r.unwrap()@[27] == '=',
            forall|i: int| 0 <= i < 27 ==> is_base64_alphabet(#[trigger] r.unwrap()@[i]),
    {
        let mut to_sign = String::new();
        to_sign.append(http_method);
        push_char(&mut to_sign, '&');
        let path = Self::percent_encode("/");
        proof {
            reveal_strlit("/");
            assert("/"@ =~= seq!['/']);
        }
        to_sign.append(path.as_str());
        push_char(&mut to_sign, '&');
        let query = Self::percent_encode(canonicalized_query_string);
        to_sign.append(query.as_str());
        assert(to_sign@ =~= string_to_sign(http_method@, canonicalized_query_string@));
        let mut key = self.access_key_secret.clone();
        push_char(&mut key, '&');
        assert(key@ =~= self.key_secret() + seq!['&']);
        let tag = match hmac_sha1(key.as_str().as_bytes(), to_sign.as_str().as_bytes()) {
            Ok(t) => t,
            Err(e) => return Err(SmsError::SignatureError(e.to_string())),
        };
        let signature = base64_encode(tag.as_slice());
        proof {
            lemma_base64_one_pad(tag@);
        }
        Ok(signature)
    }

    /// The canonical query of `params`: each name and value encoded for
    /// signing, as `name=value`, joined by `&` in name order.
    fn canonicalized_query_string(params: &ParamMap) -> (r: String)
        ensures
            r@ == query_text(params@, sign_encoder()),
    {
        let n = params.len();
        let mut out = String::new();
        let mut i: usize = 0;
        while i < n
            invariant
                n == params@.len(),
                i <= n,
                out@ == query_text(params@.take(i as int), sign_encoder()),
            decreases n - i,
        {
            let (k, v) = params.entry(i);
            let ghost prev = params@.take(i as int);
            let ghost next = params@.take(i + 1);
            assert(next.drop_last() =~= prev);
            assert(next.last() == params@[i as int]);
            if i > 0 {
                push_char(&mut out, '&');
            }
            let ek = Self::percent_encode(k);
            out.append(ek.as_str());
            push_char(&mut out, '=');
            let ev = Self::percent_encode(v);
            out.append(ev.as_str());
            proof {
                if i == 0 {
                    assert(prev =~= Seq::<(Seq<char>, Seq<char>)>::empty());
                    assert(out@ =~= query_text(next, sign_encoder()));
                } else {
                    assert(out@ =~= query_text(next, sign_encoder()));
                }
            }
            i = i + 1;
        }
        assert(params@.take(n as int) =~= params@);
        out
    }

    /// Signs `business_params` with a given timestamp and nonce: sets the
    /// common parameters over them, computes the signature of `GET` and the
    /// canonical query, and adds it as `Signature`.
    pub fn build_params_at(
        &self,
        action: &str,
        version: &str,
        business_params: ParamMap,
        timestamp: String,
        nonce: String,
    ) -> (r: Result<ParamMap, SmsError>)
        requires
            business_params.wf(),
        ensures
            r is Ok,
            r.unwrap().wf(),
            r.unwrap().as_map() == signed_params(
                self.key_id(),
                self.key_secret(),
                action@,
                version@,
                business_params.as_map(),
                timestamp@,
                nonce@,
            ),
    {
        let ghost business = business_params.as_map();
        let mut params = business_params;
        params.insert("AccessKeyId".to_owned(), self.access_key_id.clone());
        params.insert("Action".to_owned(), action.to_owned());
        params.insert("Format".to_owned(), "JSON".to_owned());
        params.insert("SignatureMethod".to_owned(), "HMAC-SHA1".to_owned());
        params.insert("SignatureNonce".to_owned(), nonce);
        params.insert("SignatureVersion".to_owned(), "1.0".to_owned());
        params.insert("Timestamp".to_owned(), timestamp);
        params.insert("Version".to_owned(), version.to_owned());
        let ghost unsigned = params.as_map();
        assert(unsigned == unsigned_params(self.key_id(), action@, version@, business, timestamp@, nonce@));
        let canonicalized = Self::canonicalized_query_string(&params);
        proof {
            lemma_sorted_listing(params@);
        }
        let signature = match self.calculate_signature("GET", canonicalized.as_str()) {
            Ok(s) => s,
            Err(e) => return Err(e),
        };
        params.insert("Signature".to_owned(), signature);
        Ok(params)
    }

    /// Signs `business_params` with the current time and a fresh random
    /// nonce (see `build_params_at`).
    pub fn build_params(&self, action: &str, version: &str, business_params: ParamMap) -> (r: Result<ParamMap, SmsError>)
        requires
            business_params.wf(),
        ensures
            r is Ok,
            r.unwrap().wf(),
            exists|timestamp: Seq<char>, nonce: Seq<char>|
                is_utc_timestamp_text(timestamp) && is_uuid_v4_text(nonce) && r.unwrap().as_map() == signed_params(
                    self.key_id(),
                    self.key_secret(),
                    action@,
                    version@,
                    business_params.as_map(),
                    timestamp,
                    nonce,
                ),
    {
        let timestamp = utc_now_formatted("%Y-%m-%dT%H:%M:%SZ");
        let nonce = new_v4_string();
        let ghost ts = timestamp@;
        let ghost nc = nonce@;
        let r = self.build_params_at(action, version, business_params, timestamp, nonce);
        assert(is_utc_timestamp_text(ts) && is_uuid_v4_text(nc) && r.unwrap().as_map() == signed_params(
            self.key_id(),
            self.key_secret(),
            action@,
            version@,
            business_params.as_map(),
            ts,
            nc,
        ));
        r
    }
}

} // verus!

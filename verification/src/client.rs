//! The decisions of the client around the two service calls: checking a
//! request, its business parameters, the signed request URL, and what a
//! reply of the service amounts to.

use vstd::prelude::*;
use vstd::string::*;
use vstd::utf8::*;
use crate::error::{is_api_error, SmsError};
use crate::params::{lemma_sorted_listing, query_text, sorted_listing, ParamMap};
use crate::percent::{
    encode_byte, hex_upper, lemma_percent_encoded_keeps_ascii, non_alphanumeric, non_alphanumeric_set,
    percent_encoded, percent_triplet, utf8_percent_encode_with,
};
use crate::signature::{is_utc_timestamp_text, is_uuid_v4_text, signed_params, SignatureBuilder};
use crate::text::{chars_of, decimal, decimal_string, digit_char, push_char, str_eq};
use crate::types::{
    check_passed, signature_name, template_code, template_json, CheckSmsRequest, CheckSmsResponse,
    CodeGenerationMode, ErrorResponse, SendSmsRequest, SendSmsResponse,
};

verus! {

/// The service endpoint.
pub const API_ENDPOINT: &'static str = "https://dypnsapi.aliyuncs.com/";

/// The API version sent with every request.
pub const API_VERSION: &'static str = "2017-05-25";

/// Every character is an ASCII digit.
pub open spec fn all_ascii_digits(s: Seq<char>) -> bool {
    forall|i: int| 0 <= i < s.len() ==> '0' <= #[trigger] s[i] <= '9'
}

/// A mobile number that the client accepts: eleven ASCII digits.
pub open spec fn mobile_ok(mobile: Seq<char>) -> bool {
    all_ascii_digits(mobile) && mobile.len() == 11
}

/// The error for a rejected mobile number: `MobileNumberIllegal` when it
/// holds anything but ASCII digits, else `InvalidParameter` for the length.
pub open spec fn is_mobile_error(mobile: Seq<char>, e: SmsError) -> bool {
    if !all_ascii_digits(mobile) {
        e matches SmsError::MobileNumberIllegal
    } else {
        e matches SmsError::InvalidParameter(m) && m@ == "手机号必须是 11 位"@
    }
}

/// The mobile numbers the client accepts are exactly the strings of eleven
/// characters, each an ASCII digit.
pub proof fn lemma_accepted_mobile_shape(mobile: Seq<char>)
    ensures
        mobile_ok(mobile) <==> (mobile.len() == 11 && forall|i: int| 0 <= i < mobile.len() ==> '0' <= #[trigger] mobile[i] <= '9'),
{
}

/// Checks a mobile number: only ASCII digits, and eleven of them.
pub fn validate_mobile(mobile: &str) -> (r: Result<(), SmsError>)
    ensures
        r is Ok <==> mobile_ok(mobile@),
        r matches Err(e) ==> is_mobile_error(mobile@, e),
{
    let cs = chars_of(mobile);
    let n = cs.len();
    let mut i: usize = 0;
    while i < n
        invariant
            n == cs@.len(),
            cs@ == mobile@,
            i <= n,
            forall|j: int| 0 <= j < i ==> '0' <= #[trigger] cs@[j] <= '9',
        decreases n - i,
    {
        let c = cs[i];
        if !(c >= '0' && c <= '9') {
            return Err(SmsError::MobileNumberIllegal);
        }
        i = i + 1;
    }
    proof {
        assert(is_ascii_chars(mobile@));
        is_ascii_chars_encode_utf8(mobile@);
    }
    if mobile.len() != 11 {
        return Err(SmsError::InvalidParameter("手机号必须是 11 位".to_owned()));
    }
    Ok(())
}

/// The code and validity of the template parameters of a mode.
pub open spec fn mode_template(mode: CodeGenerationMode) -> (Seq<char>, u32) {
    match mode {
        CodeGenerationMode::Dynamic(m) => ("##code##"@, m),
        CodeGenerationMode::Custom(p) => (p.code@, p.min),
    }
}

/// The business parameters of a send request.
pub open spec fn send_params_map(request: SendSmsRequest) -> Map<Seq<char>, Seq<char>> {
    let base = Map::<Seq<char>, Seq<char>>::empty().insert("PhoneNumber"@, request.mobile@).insert(
        "Scheme"@,
        request.scheme@,
    );
    let with_sign = match request.signature {
        Some(s) => base.insert("SignName"@, signature_name(s)),
        None => base,
    };
    let with_template = match request.template {
        Some(t) => with_sign.insert("TemplateCode"@, template_code(t)),
        None => with_sign,
    };
    let (code, min) = mode_template(request.code_generation_mode);
    let with_param = with_template.insert("TemplateParam"@, template_json(code, min));
    let with_length = match request.code_length {
        Some(l) => with_param.insert("CodeLength"@, decimal(l as nat)),
        None => with_param,
    };
    match request.valid_time {
        Some(t) => with_length.insert("ValidTime"@, decimal(t as nat)),
        None => with_length,
    }
}

/// Which business parameters a send request carries: the mobile number,
/// the scheme and the template parameters always; the signature name
/// exactly when a signature is set; the template code exactly when a
/// template is set; the code length and the validity each exactly when it
/// is set, in decimal, whatever the other optional fields hold.
pub proof fn lemma_send_params_fields(request: SendSmsRequest)
    ensures
        send_params_map(request).contains_key("PhoneNumber"@),
        send_params_map(request)["PhoneNumber"@] == request.mobile@,
        send_params_map(request).contains_key("Scheme"@),
        send_params_map(request)["Scheme"@] == request.scheme@,
        send_params_map(request).contains_key("TemplateParam"@),
        send_params_map(request).contains_key("SignName"@) <==> request.signature is Some,
        send_params_map(request).contains_key("TemplateCode"@) <==> request.template is Some,
        send_params_map(request).contains_key("CodeLength"@) <==> request.code_length is Some,
        request.code_length matches Some(l) ==> send_params_map(request)["CodeLength"@] == decimal(l as nat),
        send_params_map(request).contains_key("ValidTime"@) <==> request.valid_time is Some,
        request.valid_time matches Some(t) ==> send_params_map(request)["ValidTime"@] == decimal(t as nat),
        send_params_map(request).dom().len() == 3 + (if request.signature is Some { 1int } else { 0 }) + (if request.template is Some { 1int } else { 0 }) + (if request.code_length is Some { 1int } else { 0 }) + (if request.valid_time is Some { 1int } else { 0 }),
{
    reveal_strlit("PhoneNumber");
    reveal_strlit("Scheme");
    reveal_strlit("SignName");
    reveal_strlit("TemplateCode");
    reveal_strlit("TemplateParam");
    reveal_strlit("CodeLength");
    reveal_strlit("ValidTime");
    assert("PhoneNumber"@.len() == 11);
    assert("Scheme"@.len() == 6);
    assert("SignName"@.len() == 8);
    assert("TemplateCode"@.len() == 12);
    assert("TemplateParam"@.len() == 13);
    assert("CodeLength"@.len() == 10);
    assert("ValidTime"@.len() == 9);
}

/// The business parameters of a send request, after the mobile number is
/// checked.
pub fn send_business_params(request: SendSmsRequest) -> (r: Result<ParamMap, SmsError>)
    ensures
        !mobile_ok(request.mobile@) ==> (r matches Err(e) && is_mobile_error(request.mobile@, e)),
        mobile_ok(request.mobile@) ==> r is Ok && r.unwrap().wf() && r.unwrap().as_map()
            == send_params_map(request),
{
    match validate_mobile(request.mobile.as_str()) {
        Ok(()) => {},
        Err(e) => return Err(e),
    }
    let ghost req = request;
    let mut params = ParamMap::new();
    params.insert("PhoneNumber".to_owned(), request.mobile);
    params.insert("Scheme".to_owned(), request.scheme);
    if let Some(signature) = request.signature {
        params.insert("SignName".to_owned(), signature.as_str().to_owned());
    }
    if let Some(template) = request.template {
        params.insert("TemplateCode".to_owned(), template.code().to_owned());
    }
    let template_params = request.code_generation_mode.into_template_params();
    let json = match template_params.to_json() {
        Ok(j) => j,
        Err(e) => {
            let mut msg = "模板参数序列化失败: ".to_owned();
            msg.append(e.to_string().as_str());
            return Err(SmsError::InvalidParameter(msg));
        },
    };
    params.insert("TemplateParam".to_owned(), json);
    if let Some(code_length) = request.code_length {
        params.insert("CodeLength".to_owned(), decimal_string(code_length as u32));
    }
    if let Some(valid_time) = request.valid_time {
        params.insert("ValidTime".to_owned(), decimal_string(valid_time));
    }
    assert(params.as_map() =~= send_params_map(req));
    Ok(params)
}


/// The business parameters of a check request.
pub open spec fn check_params_map(request: CheckSmsRequest) -> Map<Seq<char>, Seq<char>> {
    Map::<Seq<char>, Seq<char>>::empty().insert("PhoneNumber"@, request.mobile@).insert(
        "VerifyCode"@,
        request.code@,
    ).insert("Scheme"@, request.scheme@)
}

/// A check request that the client accepts: a good mobile number and a
/// non-empty code.
pub open spec fn check_request_ok(request: CheckSmsRequest) -> bool {
    mobile_ok(request.mobile@) && request.code@.len() > 0
}

/// The error for a rejected check request: the mobile number's error, else
/// `InvalidParameter` for the empty code.
pub open spec fn is_check_request_error(request: CheckSmsRequest, e: SmsError) -> bool {
    if !mobile_ok(request.mobile@) {
        is_mobile_error(request.mobile@, e)
    } else {
        e matches SmsError::InvalidParameter(m) && m@ == "验证码不能为空"@
    }
}

/// The business parameters of a check request, after the request is checked.
pub fn check_business_params(request: CheckSmsRequest) -> (r: Result<ParamMap, SmsError>)
    ensures
        !check_request_ok(request) ==> (r matches Err(e) && is_check_request_error(request, e)),
        check_request_ok(request) ==> r is Ok && r.unwrap().wf() && r.unwrap().as_map()
            == check_params_map(request),
{
    match validate_mobile(request.mobile.as_str()) {
        Ok(()) => {},
        Err(e) => return Err(e),
    }
    if request.code.as_str().is_empty() {
        return Err(SmsError::InvalidParameter("验证码不能为空".to_owned()));
    }
    let ghost req = request;
    let mut params = ParamMap::new();
    params.insert("PhoneNumber".to_owned(), request.mobile);
    params.insert("VerifyCode".to_owned(), request.code);
    params.insert("Scheme".to_owned(), request.scheme);
    assert(params.as_map() =~= check_params_map(req));
    Ok(params)
}

/// Percent-encoding of the UTF-8 text with every ASCII byte but letters and
/// digits encoded, as a function value.
pub open spec fn url_encoder() -> spec_fn(Seq<char>) -> Seq<char> {
    |t: Seq<char>| percent_encoded(encode_utf8(t), non_alphanumeric_set())
}

/// An ASCII letter or digit.
pub open spec fn is_ascii_alphanumeric(c: char) -> bool {
    ('A' <= c <= 'Z') || ('a' <= c <= 'z') || ('0' <= c <= '9')
}

/// The URL encoder leaves text of ASCII letters and digits unchanged.
pub proof fn lemma_url_encoder_keeps_alphanumeric(s: Seq<char>)
    requires
        forall|i: int| 0 <= i < s.len() ==> is_ascii_alphanumeric(#[trigger] s[i]),
    ensures
        (url_encoder())(s) == s,
{
    assert forall|i: int| 0 <= i < s.len() implies '\0' <= #[trigger] s[i] <= '\u{7f}'
        && !non_alphanumeric_set().contains(s[i] as u8) by {
        assert(is_ascii_alphanumeric(s[i]));
    }
    lemma_percent_encoded_keeps_ascii(s, non_alphanumeric_set());
}

/// The URL encoder writes every other ASCII character (`+`, `/`, `=`,
/// `-`, space, the controls, ...) as the `%XX` triplet of its byte.
pub proof fn lemma_url_encoder_encodes_other_ascii(c: char)
    requires
        '\0' <= c <= '\u{7f}',
        !is_ascii_alphanumeric(c),
    ensures
        (url_encoder())(seq![c]) == percent_triplet(c as u8),
{
    let s = seq![c];
    assert(is_ascii_chars(s));
    is_ascii_chars_encode_utf8(s);
    let bytes = encode_utf8(s);
    assert(bytes =~= seq![c as u8]);
    assert(non_alphanumeric_set().contains(c as u8));
    assert(bytes.drop_first() =~= Seq::<u8>::empty());
    assert(percent_encoded(bytes.drop_first(), non_alphanumeric_set()) =~= Seq::<char>::empty());
    assert(percent_encoded(bytes, non_alphanumeric_set()) =~= percent_triplet(c as u8));
}

proof fn lemma_non_alphanumeric_output(bytes: Seq<u8>)
    ensures
        forall|i: int| 0 <= i < percent_encoded(bytes, non_alphanumeric_set()).len() ==> {
            let c = #[trigger] percent_encoded(bytes, non_alphanumeric_set())[i];
            is_ascii_alphanumeric(c) || c == '%'
        },
    decreases bytes.len(),
{
    if bytes.len() > 0 {
        lemma_non_alphanumeric_output(bytes.drop_first());
        let b = bytes[0];
        let u = encode_byte(b, non_alphanumeric_set());
        let rest = percent_encoded(bytes.drop_first(), non_alphanumeric_set());
        let all = percent_encoded(bytes, non_alphanumeric_set());
        assert(all == u + rest);
        assert forall|i: int| 0 <= i < u.len() implies is_ascii_alphanumeric(#[trigger] u[i]) || u[i] == '%' by {
            if !(b < 128 && !non_alphanumeric_set().contains(b)) {
                let hi = (b / 16) as nat;
                let lo = (b % 16) as nat;
                assert(hex_upper(hi) == if hi < 10 { digit_char(hi) } else { (('A' as u32) + (hi - 10)) as char });
                assert(hex_upper(lo) == if lo < 10 { digit_char(lo) } else { (('A' as u32) + (lo - 10)) as char });
            }
        }
        assert forall|i: int| 0 <= i < all.len() implies {
            let c = #[trigger] all[i];
            is_ascii_alphanumeric(c) || c == '%'
        } by {
            if i < u.len() {
                assert(all[i] == u[i]);
            } else {
                assert(all[i] == rest[i - u.len()]);
            }
        }
    }
}

/// The URL encoder's output consists of ASCII letters, digits and `%` only:
/// no `+`, `/`, `=` or other character that a URL query would read
/// differently is left raw.
pub proof fn lemma_url_encoder_output(s: Seq<char>)
    ensures
        forall|i: int| 0 <= i < (url_encoder())(s).len() ==> {
            let c = #[trigger] (url_encoder())(s)[i];
            is_ascii_alphanumeric(c) || c == '%'
        },
{
    lemma_non_alphanumeric_output(encode_utf8(s));
}

/// The query string of a request: the signed parameters as `name=value`,
/// both encoded with `url_encoder`, joined by `&` in name order.
pub fn build_query_string(params: &ParamMap) -> (r: String)
    ensures
        r@ == query_text(params@, url_encoder()),
{
    let set = non_alphanumeric();
    let n = params.len();
    let mut out = String::new();
    let mut i: usize = 0;
    while i < n
        invariant
            n == params@.len(),
            i <= n,
            crate::percent::ascii_set_members(*set) == non_alphanumeric_set(),
            out@ == query_text(params@.take(i as int), url_encoder()),
        decreases n - i,
    {
        let (k, v) = params.entry(i);
        let ghost prev = params@.take(i as int);
        let ghost next = params@.take(i + 1);
        assert(next.drop_last() =~= prev);
        assert(next.last() == params@[i as int]);
        if i > 0 {
            push_char(&mut out, '&');
        }
        let ek = utf8_percent_encode_with(k, set);
        out.append(ek.as_str());
        push_char(&mut out, '=');
        let ev = utf8_percent_encode_with(v, set);
        out.append(ev.as_str());
        proof {
            if i == 0 {
                assert(prev =~= Seq::<(Seq<char>, Seq<char>)>::empty());
            }
            assert(out@ =~= query_text(next, url_encoder()));
        }
        i = i + 1;
    }
    assert(params@.take(n as int) =~= params@);
    out
}

/// The URL of a request with the given parameters: the endpoint, `?` and
/// the query string of their listing in name order.
pub open spec fn request_url_text(params: Map<Seq<char>, Seq<char>>) -> Seq<char> {
    API_ENDPOINT@ + seq!['?'] + query_text(sorted_listing(params), url_encoder())
}

/// The URL of a request with the given signed parameters.
pub fn request_url(params: &ParamMap) -> (r: String)
    requires
        params.wf(),
    ensures
        r@ == request_url_text(params.as_map()),
{
    let query = build_query_string(params);
    let mut url = API_ENDPOINT.to_owned();
    push_char(&mut url, '?');
    url.append(query.as_str());
    proof {
        lemma_sorted_listing(params@);
    }
    url
}

/// The URL that sends a verification code, signed with the given timestamp
/// and nonce.
pub fn send_request_url_at(
    signer: &SignatureBuilder,
    request: SendSmsRequest,
    timestamp: String,
    nonce: String,
) -> (r: Result<String, SmsError>)
    ensures
        !mobile_ok(request.mobile@) ==> (r matches Err(e) && is_mobile_error(request.mobile@, e)),
        mobile_ok(request.mobile@) ==> r is Ok && r.unwrap()@ == request_url_text(
            signed_params(
                signer.key_id(),
                signer.key_secret(),
                "SendSmsVerifyCode"@,
                API_VERSION@,
                send_params_map(request),
                timestamp@,
                nonce@,
            ),
        ),
{
    let params = match send_business_params(request) {
        Ok(p) => p,
        Err(e) => return Err(e),
    };
    let signed = match signer.build_params_at("SendSmsVerifyCode", API_VERSION, params, timestamp, nonce) {
        Ok(p) => p,
        Err(e) => return Err(e),
    };
    Ok(request_url(&signed))
}

/// The URL that sends a verification code, signed with the current time
/// and a fresh random nonce.
pub fn send_request_url(signer: &SignatureBuilder, request: SendSmsRequest) -> (r: Result<String, SmsError>)
    ensures
        !mobile_ok(request.mobile@) ==> (r matches Err(e) && is_mobile_error(request.mobile@, e)),
        mobile_ok(request.mobile@) ==> r is Ok && exists|timestamp: Seq<char>, nonce: Seq<char>|
            is_utc_timestamp_text(timestamp) && is_uuid_v4_text(nonce) && r.unwrap()@ == request_url_text(
                signed_params(
                    signer.key_id(),
                    signer.key_secret(),
                    "SendSmsVerifyCode"@,
                    API_VERSION@,
                    send_params_map(request),
                    timestamp,
                    nonce,
                ),
            ),
{
    let params = match send_business_params(request) {
        Ok(p) => p,
        Err(e) => return Err(e),
    };
    let signed = match signer.build_params("SendSmsVerifyCode", API_VERSION, params) {
        Ok(p) => p,
        Err(e) => return Err(e),
    };
    Ok(request_url(&signed))
}

/// The URL that checks a verification code, signed with the given
/// timestamp and nonce.
pub fn check_request_url_at(
    signer: &SignatureBuilder,
    request: CheckSmsRequest,
    timestamp: String,
    nonce: String,
) -> (r: Result<String, SmsError>)
    ensures
        !check_request_ok(request) ==> (r matches Err(e) && is_check_request_error(request, e)),
        check_request_ok(request) ==> r is Ok && r.unwrap()@ == request_url_text(
            signed_params(
                signer.key_id(),
                signer.key_secret(),
                "CheckSmsVerifyCode"@,
                API_VERSION@,
                check_params_map(request),
                timestamp@,
                nonce@,
            ),
        ),
{
    let params = match check_business_params(request) {
        Ok(p) => p,
        Err(e) => return Err(e),
    };
    let signed = match signer.build_params_at("CheckSmsVerifyCode", API_VERSION, params, timestamp, nonce) {
        Ok(p) => p,
        Err(e) => return Err(e),
    };
    Ok(request_url(&signed))
}

/// The URL that checks a verification code, signed with the current time
/// and a fresh random nonce.
pub fn check_request_url(signer: &SignatureBuilder, request: CheckSmsRequest) -> (r: Result<String, SmsError>)
    ensures
        !check_request_ok(request) ==> (r matches Err(e) && is_check_request_error(request, e)),
        check_request_ok(request) ==> r is Ok && exists|timestamp: Seq<char>, nonce: Seq<char>|
            is_utc_timestamp_text(timestamp) && is_uuid_v4_text(nonce) && r.unwrap()@ == request_url_text(
                signed_params(
                    signer.key_id(),
                    signer.key_secret(),
                    "CheckSmsVerifyCode"@,
                    API_VERSION@,
                    check_params_map(request),
                    timestamp,
                    nonce,
                ),
            ),
{
    let params = match check_business_params(request) {
        Ok(p) => p,
        Err(e) => return Err(e),
    };
    let signed = match signer.build_params("CheckSmsVerifyCode", API_VERSION, params) {
        Ok(p) => p,
        Err(e) => return Err(e),
    };
    Ok(request_url(&signed))
}

/// A reply code and success flag that stand for a failed call.
pub open spec fn reply_failed(code: Seq<char>, success: bool) -> bool {
    !success || code != "OK"@
}

/// The reply read as an error reply stands for a failed call.
pub open spec fn error_reply_failed(error_reply: Option<ErrorResponse>) -> bool {
    match error_reply {
        Some(e) => reply_failed(e.code@, e.success),
        None => false,
    }
}

fn is_ok_code(code: &str) -> (r: bool)
    ensures
        r == (code@ == "OK"@),
{
    str_eq(code, "OK")
}

fn invalid_response(read_error: &str, reply_text: &str) -> (r: SmsError)
    ensures
        r matches SmsError::InvalidResponse(m) && m@ == read_error@ + ": "@ + reply_text@,
{
    let mut m = read_error.to_owned();
    m.append(": ");
    m.append(reply_text);
    SmsError::InvalidResponse(m)
}

/// What the reply to a send request amounts to. `error_reply` is the reply
/// read as an error reply (`None` when it does not read as one), `reply` the
/// reply read as a send reply or the reader's message, `reply_text` the text
/// of the reply.
pub fn evaluate_send_reply(
    error_reply: Option<ErrorResponse>,
    reply: Result<SendSmsResponse, String>,
    reply_text: &str,
) -> (r: Result<SendSmsResponse, SmsError>)
    ensures
        error_reply_failed(error_reply) ==> (r matches Err(e) && is_api_error(
            e,
            error_reply->Some_0.code@,
            error_reply->Some_0.message,
        )),
        !error_reply_failed(error_reply) ==> match reply {
            Err(msg) => r matches Err(SmsError::InvalidResponse(m)) && m@ == msg@ + ": "@
                + reply_text@,
            Ok(d) => if reply_failed(d.code@, d.success) {
                r matches Err(e) && is_api_error(e, d.code@, d.message)
            } else {
                r == Ok::<SendSmsResponse, SmsError>(d)
            },
        },
{
    if let Some(e) = error_reply {
        if !e.success || !is_ok_code(e.code.as_str()) {
            return Err(SmsError::from_api_code(e.code.as_str(), e.message));
        }
    }
    let data = match reply {
        Ok(d) => d,
        Err(msg) => return Err(invalid_response(msg.as_str(), reply_text)),
    };
    if !is_ok_code(data.code.as_str()) || !data.success {
        return Err(SmsError::from_api_code(data.code.as_str(), data.message));
    }
    Ok(data)
}

/// The error for a check reply whose result is not `PASS`:
/// `VerificationFailed` naming the result, or `UNKNOWN` when there is none.
pub open spec fn is_not_passed_error(d: CheckSmsResponse, e: SmsError) -> bool {
    e matches SmsError::VerificationFailed(m) && m@ == "验证失败: "@ + match d.model {
        Some(model) => model.verify_result@,
        None => "UNKNOWN"@,
    }
}

/// What the reply to a check request amounts to (see
/// `evaluate_send_reply`); a successful reply whose result is not `PASS`
/// is a `VerificationFailed` error.
pub fn evaluate_check_reply(
    error_reply: Option<ErrorResponse>,
    reply: Result<CheckSmsResponse, String>,
    reply_text: &str,
) -> (r: Result<CheckSmsResponse, SmsError>)
    ensures
        error_reply_failed(error_reply) ==> (r matches Err(e) && is_api_error(
            e,
            error_reply->Some_0.code@,
            error_reply->Some_0.message,
        )),
        !error_reply_failed(error_reply) ==> match reply {
            Err(msg) => r matches Err(SmsError::InvalidResponse(m)) && m@ == msg@ + ": "@
                + reply_text@,
            Ok(d) => if reply_failed(d.code@, d.success) {
                r matches Err(e) && is_api_error(e, d.code@, d.message)
            } else if !check_passed(d) {
                r matches Err(e) && is_not_passed_error(d, e)
            } else {
                r == Ok::<CheckSmsResponse, SmsError>(d)
            },
        },
{
    if let Some(e) = error_reply {
        if !e.success || !is_ok_code(e.code.as_str()) {
            return Err(SmsError::from_api_code(e.code.as_str(), e.message));
        }
    }
    let data = match reply {
        Ok(d) => d,
        Err(msg) => return Err(invalid_response(msg.as_str(), reply_text)),
    };
    if !is_ok_code(data.code.as_str()) || !data.success {
        return Err(SmsError::from_api_code(data.code.as_str(), data.message));
    }
    if !data.is_pass() {
        let mut m = "验证失败: ".to_owned();
        match data.verify_result() {
            Some(v) => m.append(v),
            None => m.append("UNKNOWN"),
        }
        return Err(SmsError::VerificationFailed(m));
    }
    Ok(data)
}

} // verus!

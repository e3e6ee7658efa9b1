use aliyun_dypns::client::{
    build_query_string, check_business_params, check_request_url, check_request_url_at,
    evaluate_check_reply, evaluate_send_reply, send_business_params, send_request_url,
    send_request_url_at, validate_mobile, API_ENDPOINT, API_VERSION,
};
use aliyun_dypns::{
    CheckSmsModel, CheckSmsRequest, CheckSmsResponse, CodeGenerationMode, ErrorResponse,
    ParamMap, SendSmsModel, SendSmsRequest, SendSmsResponse, SignatureBuilder, SmsError,
    TemplateParams,
};

const TS: &str = "2024-01-02T03:04:05Z";
const NONCE: &str = "123e4567-e89b-42d3-a456-426614174000";

#[test]
fn constants() {
    assert_eq!(API_ENDPOINT, "https://dypnsapi.aliyuncs.com/");
    assert_eq!(API_VERSION, "2017-05-25");
}

#[test]
fn mobile_checks() {
    assert!(validate_mobile("13800138000").is_ok());
    assert!(matches!(validate_mobile("138-0013-8000"), Err(SmsError::MobileNumberIllegal)));
    assert!(matches!(validate_mobile("138****8000"), Err(SmsError::MobileNumberIllegal)));
    assert!(matches!(validate_mobile("１３８"), Err(SmsError::MobileNumberIllegal)));
    match validate_mobile("1380013800") {
        Err(SmsError::InvalidParameter(m)) => assert_eq!(m, "手机号必须是 11 位"),
        other => panic!("unexpected {:?}", other),
    }
    match validate_mobile("") {
        Err(SmsError::InvalidParameter(m)) => assert_eq!(m, "手机号必须是 11 位"),
        other => panic!("unexpected {:?}", other),
    }
}

#[test]
fn send_params() {
    let r = SendSmsRequest::new("13800138000", "scheme-1").code_length(6).valid_time(300);
    let p = send_business_params(r).unwrap();
    assert_eq!(p.len(), 7);
    assert_eq!(p.get("PhoneNumber"), Some("13800138000"));
    assert_eq!(p.get("Scheme"), Some("scheme-1"));
    assert_eq!(p.get("SignName"), Some("云渚科技验证平台"));
    assert_eq!(p.get("TemplateCode"), Some("100001"));
    assert_eq!(p.get("TemplateParam"), Some("{\"code\":\"##code##\",\"min\":5}"));
    assert_eq!(p.get("CodeLength"), Some("6"));
    assert_eq!(p.get("ValidTime"), Some("300"));

    let mut bare = SendSmsRequest::new("13800138000", "s")
        .code_generation_mode(CodeGenerationMode::Custom(TemplateParams::with_custom_code("1234", 2)));
    bare.signature = None;
    bare.template = None;
    let p = send_business_params(bare).unwrap();
    assert_eq!(p.len(), 3);
    assert_eq!(p.get("TemplateParam"), Some("{\"code\":\"1234\",\"min\":2}"));
    assert_eq!(p.get("SignName"), None);

    assert!(matches!(
        send_business_params(SendSmsRequest::new("1380013800a", "s")),
        Err(SmsError::MobileNumberIllegal)
    ));
}

#[test]
fn check_params() {
    let p = check_business_params(CheckSmsRequest::new("13800138000", "123456", "scheme-1")).unwrap();
    assert_eq!(p.len(), 3);
    assert_eq!(p.get("VerifyCode"), Some("123456"));
    match check_business_params(CheckSmsRequest::new("13800138000", "", "scheme-1")) {
        Err(SmsError::InvalidParameter(m)) => assert_eq!(m, "验证码不能为空"),
        other => panic!("unexpected {:?}", other),
    }
    assert!(matches!(
        check_business_params(CheckSmsRequest::new("138", "", "s")),
        Err(SmsError::InvalidParameter(_))
    ));
    assert!(matches!(
        check_business_params(CheckSmsRequest::new("x", "1", "s")),
        Err(SmsError::MobileNumberIllegal)
    ));
}

#[test]
fn query_string_encoding() {
    let mut p = ParamMap::new();
    p.insert("k".to_string(), "a b*c~/é!-_.x9".to_string());
    p.insert("A".to_string(), "1".to_string());
    assert_eq!(build_query_string(&p), "A=1&k=a%20b%2Ac%7E%2F%C3%A9%21%2D%5F%2Ex9");
    assert_eq!(build_query_string(&ParamMap::new()), "");
}

#[test]
fn send_url_known_value() {
    let signer = SignatureBuilder::new("testid", "testsecret");
    let r = SendSmsRequest::new("13800138000", "scheme-1").code_length(6).valid_time(300);
    let url = send_request_url_at(&signer, r, TS.to_string(), NONCE.to_string()).unwrap();
    assert_eq!(url, "https://dypnsapi.aliyuncs.com/?AccessKeyId=testid&Action=SendSmsVerifyCode&CodeLength=6&Format=JSON&PhoneNumber=13800138000&Scheme=scheme%2D1&SignName=%E4%BA%91%E6%B8%9A%E7%A7%91%E6%8A%80%E9%AA%8C%E8%AF%81%E5%B9%B3%E5%8F%B0&Signature=1%2F7sWWIhLiuAExShDJk58OUlUeI%3D&SignatureMethod=HMAC%2DSHA1&SignatureNonce=123e4567%2De89b%2D42d3%2Da456%2D426614174000&SignatureVersion=1%2E0&TemplateCode=100001&TemplateParam=%7B%22code%22%3A%22%23%23code%23%23%22%2C%22min%22%3A5%7D&Timestamp=2024%2D01%2D02T03%3A04%3A05Z&ValidTime=300&Version=2017%2D05%2D25");
}

#[test]
fn check_url_known_value() {
    let signer = SignatureBuilder::new("testid", "testsecret");
    let r = CheckSmsRequest::new("13800138000", "123456", "scheme-1");
    let url = check_request_url_at(&signer, r, TS.to_string(), NONCE.to_string()).unwrap();
    assert_eq!(url, "https://dypnsapi.aliyuncs.com/?AccessKeyId=testid&Action=CheckSmsVerifyCode&Format=JSON&PhoneNumber=13800138000&Scheme=scheme%2D1&Signature=hoGqp7TVTKfiYZ%2Fswlj1T3STOPE%3D&SignatureMethod=HMAC%2DSHA1&SignatureNonce=123e4567%2De89b%2D42d3%2Da456%2D426614174000&SignatureVersion=1%2E0&Timestamp=2024%2D01%2D02T03%3A04%3A05Z&VerifyCode=123456&Version=2017%2D05%2D25");
}

#[test]
fn fresh_urls() {
    let signer = SignatureBuilder::new("testid", "testsecret");
    let url = send_request_url(&signer, SendSmsRequest::new("13800138000", "s")).unwrap();
    assert!(url.starts_with("https://dypnsapi.aliyuncs.com/?AccessKeyId=testid&Action=SendSmsVerifyCode&"));
    let url = check_request_url(&signer, CheckSmsRequest::new("13800138000", "1", "s")).unwrap();
    assert!(url.contains("&VerifyCode=1&Version=2017%2D05%2D25"));
    assert!(matches!(
        send_request_url(&signer, SendSmsRequest::new("1", "s")),
        Err(SmsError::InvalidParameter(_))
    ));
    assert!(matches!(
        check_request_url(&signer, CheckSmsRequest::new("13800138000", "", "s")),
        Err(SmsError::InvalidParameter(_))
    ));
}

fn err_reply(code: &str, success: bool) -> ErrorResponse {
    ErrorResponse { code: code.to_string(), message: "msg".to_string(), success }
}

fn send_reply(code: &str, success: bool) -> SendSmsResponse {
    SendSmsResponse {
        code: code.to_string(),
        message: "msg".to_string(),
        success,
        model: Some(SendSmsModel { request_id: "r".to_string(), biz_id: "b".to_string() }),
    }
}

#[test]
fn send_reply_outcomes() {
    let ok = evaluate_send_reply(Some(err_reply("OK", true)), Ok(send_reply("OK", true)), "t").unwrap();
    assert_eq!(ok.biz_id(), Some("b"));
    let ok = evaluate_send_reply(None, Ok(send_reply("OK", true)), "t").unwrap();
    assert_eq!(ok.request_id(), Some("r"));
    assert!(matches!(
        evaluate_send_reply(Some(err_reply("isv.BUSINESS_LIMIT_CONTROL", false)), Ok(send_reply("OK", true)), "t"),
        Err(SmsError::BusinessLimitControl)
    ));
    assert!(matches!(
        evaluate_send_reply(Some(err_reply("FREQUENCY_FAIL", true)), Err("bad".to_string()), "t"),
        Err(SmsError::FrequencyFail)
    ));
    match evaluate_send_reply(Some(err_reply("OK", false)), Ok(send_reply("OK", true)), "t") {
        Err(SmsError::ApiError { code, message }) => {
            assert_eq!(code, "OK");
            assert_eq!(message, "msg");
        }
        other => panic!("unexpected {:?}", other),
    }
    match evaluate_send_reply(None, Err("expected value at line 1".to_string()), "oops") {
        Err(SmsError::InvalidResponse(m)) => assert_eq!(m, "expected value at line 1: oops"),
        other => panic!("unexpected {:?}", other),
    }
    assert!(matches!(
        evaluate_send_reply(None, Ok(send_reply("isv.MOBILE_NUMBER_ILLEGAL", true)), "t"),
        Err(SmsError::MobileNumberIllegal)
    ));
    match evaluate_send_reply(None, Ok(send_reply("OK", false)), "t") {
        Err(SmsError::ApiError { code, .. }) => assert_eq!(code, "OK"),
        other => panic!("unexpected {:?}", other),
    }
}

fn check_reply(code: &str, success: bool, result: Option<&str>) -> CheckSmsResponse {
    CheckSmsResponse {
        code: code.to_string(),
        message: "msg".to_string(),
        success,
        model: result.map(|r| CheckSmsModel { verify_result: r.to_string() }),
    }
}

#[test]
fn check_reply_outcomes() {
    let ok = evaluate_check_reply(None, Ok(check_reply("OK", true, Some("PASS"))), "t").unwrap();
    assert!(ok.is_pass());
    match evaluate_check_reply(None, Ok(check_reply("OK", true, Some("NOT_PASS"))), "t") {
        Err(SmsError::VerificationFailed(m)) => assert_eq!(m, "验证失败: NOT_PASS"),
        other => panic!("unexpected {:?}", other),
    }
    match evaluate_check_reply(None, Ok(check_reply("OK", true, None)), "t") {
        Err(SmsError::VerificationFailed(m)) => assert_eq!(m, "验证失败: UNKNOWN"),
        other => panic!("unexpected {:?}", other),
    }
    match evaluate_check_reply(Some(err_reply("isv.ValidateFail", false)), Ok(check_reply("OK", true, Some("PASS"))), "t") {
        Err(SmsError::VerificationFailed(m)) => assert_eq!(m, "msg"),
        other => panic!("unexpected {:?}", other),
    }
    match evaluate_check_reply(None, Ok(check_reply("INVALID_PARAMETERS", true, None)), "t") {
        Err(SmsError::InvalidParameter(m)) => assert_eq!(m, "msg"),
        other => panic!("unexpected {:?}", other),
    }
    assert!(matches!(
        evaluate_check_reply(None, Ok(check_reply("FUNCTION_NOT_OPENED", false, None)), "t"),
        Err(SmsError::FunctionNotOpened)
    ));
    assert!(matches!(
        evaluate_check_reply(None, Ok(check_reply("MissingVerifyCode", false, None)), "t"),
        Err(SmsError::MissingVerifyCode)
    ));
    match evaluate_check_reply(None, Err("e".to_string()), "body") {
        Err(SmsError::InvalidResponse(m)) => assert_eq!(m, "e: body"),
        other => panic!("unexpected {:?}", other),
    }
}

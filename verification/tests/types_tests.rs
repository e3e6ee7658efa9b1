use aliyun_dypns::{
    CheckSmsModel, CheckSmsRequest, CheckSmsResponse, CodeGenerationMode, SendSmsModel,
    SendSmsRequest, SendSmsResponse, SmsSignature, SmsTemplate, TemplateParams,
};

#[test]
fn signature_names() {
    assert_eq!(SmsSignature::YunZhuVerifyPlatform.as_str(), "云渚科技验证平台");
    assert_eq!(SmsSignature::YunZhuVerifyService.as_str(), "云渚科技验证服务");
    assert_eq!(SmsSignature::SuTongVerifyCode.as_str(), "速通互联验证码");
    assert_eq!(SmsSignature::SuTongVerifyPlatform.as_str(), "速通互联验证平台");
    assert_eq!(SmsSignature::SuTongVerifyService.as_str(), "速通互联验证服务");
    assert_eq!(SmsSignature::default(), SmsSignature::YunZhuVerifyPlatform);
}

#[test]
fn template_codes() {
    assert_eq!(SmsTemplate::LoginRegister.code(), "100001");
    assert_eq!(SmsTemplate::ModifyPhone.code(), "100002");
    assert_eq!(SmsTemplate::ResetPassword.code(), "100003");
    assert_eq!(SmsTemplate::BindNewPhone.code(), "100004");
    assert_eq!(SmsTemplate::VerifyBindPhone.code(), "100005");
    assert_eq!(SmsTemplate::default(), SmsTemplate::LoginRegister);
}

#[test]
fn template_params_constructors() {
    let d = TemplateParams::with_dynamic_code(5);
    assert_eq!(d.code, "##code##");
    assert_eq!(d.min, 5);
    let c = TemplateParams::with_custom_code("123456", 10);
    assert_eq!(c.code, "123456");
    assert_eq!(c.min, 10);
    assert!(TemplateParams::new("123456", 10) == c);
    assert!(TemplateParams::new("123456", 11) != c);
}

#[test]
fn template_params_json() {
    let d = TemplateParams::with_dynamic_code(5);
    assert_eq!(d.to_json().unwrap(), "{\"code\":\"##code##\",\"min\":5}");
    let c = TemplateParams::with_custom_code("a\"b\\c\nd\u{1}é", 4294967295);
    assert_eq!(
        c.to_json().unwrap(),
        "{\"code\":\"a\\\"b\\\\c\\nd\\u0001é\",\"min\":4294967295}"
    );
    let z = TemplateParams::new("", 0);
    assert_eq!(z.to_json().unwrap(), "{\"code\":\"\",\"min\":0}");
}

#[test]
fn code_generation_mode_params() {
    let p = CodeGenerationMode::Dynamic(7).into_template_params();
    assert_eq!(p.code, "##code##");
    assert_eq!(p.min, 7);
    let custom = TemplateParams::with_custom_code("4321", 3);
    let q = CodeGenerationMode::Custom(custom.clone()).into_template_params();
    assert!(q == custom);
    assert!(CodeGenerationMode::default() == CodeGenerationMode::Dynamic(5));
    assert!(CodeGenerationMode::Dynamic(5) != CodeGenerationMode::Custom(TemplateParams::with_dynamic_code(5)));
}

#[test]
fn send_request_builder() {
    let r = SendSmsRequest::new("13800138000", "scheme-1");
    assert_eq!(r.mobile, "13800138000");
    assert_eq!(r.scheme, "scheme-1");
    assert_eq!(r.signature, Some(SmsSignature::YunZhuVerifyPlatform));
    assert_eq!(r.template, Some(SmsTemplate::LoginRegister));
    assert!(r.code_generation_mode == CodeGenerationMode::Dynamic(5));
    assert_eq!(r.code_length, None);
    assert_eq!(r.valid_time, None);

    let r = r
        .signature(SmsSignature::SuTongVerifyCode)
        .template(SmsTemplate::ResetPassword)
        .code_generation_mode(CodeGenerationMode::Dynamic(9))
        .code_length(6)
        .valid_time(300);
    assert_eq!(r.mobile, "13800138000");
    assert_eq!(r.scheme, "scheme-1");
    assert_eq!(r.signature, Some(SmsSignature::SuTongVerifyCode));
    assert_eq!(r.template, Some(SmsTemplate::ResetPassword));
    assert!(r.code_generation_mode == CodeGenerationMode::Dynamic(9));
    assert_eq!(r.code_length, Some(6));
    assert_eq!(r.valid_time, Some(300));
}

#[test]
fn check_request_new() {
    let r = CheckSmsRequest::new("13800138000", "123456", "scheme-1");
    assert_eq!(r.mobile, "13800138000");
    assert_eq!(r.code, "123456");
    assert_eq!(r.scheme, "scheme-1");
}

#[test]
fn send_response_accessors() {
    let r = SendSmsResponse {
        code: "OK".to_string(),
        message: "OK".to_string(),
        success: true,
        model: Some(SendSmsModel { request_id: "req-1".to_string(), biz_id: "biz-1".to_string() }),
    };
    assert_eq!(r.request_id(), Some("req-1"));
    assert_eq!(r.biz_id(), Some("biz-1"));
    let empty = SendSmsResponse { model: None, ..r };
    assert_eq!(empty.request_id(), None);
    assert_eq!(empty.biz_id(), None);
}

#[test]
fn check_response_pass() {
    let mk = |v: Option<&str>| CheckSmsResponse {
        code: "OK".to_string(),
        message: "OK".to_string(),
        success: true,
        model: v.map(|s| CheckSmsModel { verify_result: s.to_string() }),
    };
    assert!(mk(Some("PASS")).is_pass());
    assert_eq!(mk(Some("PASS")).verify_result(), Some("PASS"));
    assert!(!mk(Some("NOT_PASS")).is_pass());
    assert!(!mk(Some("UNKNOWN")).is_pass());
    assert!(!mk(Some("pass")).is_pass());
    assert!(!mk(None).is_pass());
    assert_eq!(mk(None).verify_result(), None);
}

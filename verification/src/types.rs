//! Request and reply models: code generation modes, signatures, templates,
//! template parameters, the two requests and the service's replies.

use vstd::prelude::*;
use vstd::string::*;
use crate::codec::{json_string, json_string_literal};
use crate::text::{decimal, push_decimal, str_eq};

verus! {

/// Template parameters: the verification code and its validity in minutes.
#[derive(Debug, Clone)]
pub struct TemplateParams {
    /// The verification code (`##code##` lets the service generate it).
    pub code: String,
    /// Validity in minutes.
    pub min: u32,
}

impl PartialEq for TemplateParams {
    fn eq(&self, other: &Self) -> (r: bool) {
        str_eq(self.code.as_str(), other.code.as_str()) && self.min == other.min
    }
}

impl vstd::std_specs::cmp::PartialEqSpecImpl for TemplateParams {
    open spec fn obeys_eq_spec() -> bool {
        true
    }

    open spec fn eq_spec(&self, other: &Self) -> bool {
        self.code@ == other.code@ && self.min == other.min
    }
}

/// The JSON object of template parameters: `{"code":<code>,"min":<min>}`.
pub open spec fn template_json(code: Seq<char>, min: u32) -> Seq<char> {
    "{\"code\":"@ + json_string(code) + ",\"min\":"@ + decimal(min as nat) + "}"@
}

impl TemplateParams {
    /// Template parameters with the given code and validity.
    pub fn new(code: &str, valid_minutes: u32) -> (r: Self)
        ensures
            r.code@ == code@,
            r.min == valid_minutes,
    {
        TemplateParams { code: code.to_owned(), min: valid_minutes }
    }

    /// Template parameters that let the service generate the code (which it
    /// can then check).
    pub fn with_dynamic_code(valid_minutes: u32) -> (r: Self)
        ensures
            r.code@ == "##code##"@,
            r.min == valid_minutes,
    {
        TemplateParams { code: "##code##".to_owned(), min: valid_minutes }
    }

    /// Template parameters with a code of the caller's own (which the
    /// service cannot check).
    pub fn with_custom_code(code: &str, valid_minutes: u32) -> (r: Self)
        ensures
            r.code@ == code@,
            r.min == valid_minutes,
    {
        TemplateParams { code: code.to_owned(), min: valid_minutes }
    }

    /// The parameters as a compact JSON object.
    pub fn to_json(&self) -> (r: Result<String, serde_json::Error>)
        ensures
            r is Ok,
            r.unwrap()@ == template_json(self.code@, self.min),
    {
        let code = match json_string_literal(self.code.as_str()) {
            Ok(c) => c,
            Err(e) => return Err(e),
        };
        let mut out = "{\"code\":".to_owned();
        out.append(code.as_str());
        out.append(",\"min\":");
        push_decimal(&mut out, self.min);
        out.append("}");
        Ok(out)
    }
}

/// How the verification code is produced.
#[derive(Debug, Clone)]
pub enum CodeGenerationMode {
    /// The service generates the code and can check it; validity in minutes.
    Dynamic(u32),
    /// The caller supplies the code; the service cannot check it.
    Custom(TemplateParams),
}

impl PartialEq for CodeGenerationMode {
    fn eq(&self, other: &Self) -> (r: bool) {
        match (self, other) {
            (CodeGenerationMode::Dynamic(a), CodeGenerationMode::Dynamic(b)) => *a == *b,
            (CodeGenerationMode::Custom(a), CodeGenerationMode::Custom(b)) => a.eq(b),
            _ => false,
        }
    }
}

impl vstd::std_specs::cmp::PartialEqSpecImpl for CodeGenerationMode {
    open spec fn obeys_eq_spec() -> bool {
        true
    }

    open spec fn eq_spec(&self, other: &Self) -> bool {
        match (self, other) {
            (CodeGenerationMode::Dynamic(a), CodeGenerationMode::Dynamic(b)) => a == b,
            (CodeGenerationMode::Custom(a), CodeGenerationMode::Custom(b)) => a.code@ == b.code@
                && a.min == b.min,
            _ => false,
        }
    }
}

impl CodeGenerationMode {
    /// The template parameters of the mode: for `Dynamic(m)` the
    /// placeholder code `##code##` valid for `m` minutes, for `Custom(p)`
    /// the parameters `p`.
    pub fn into_template_params(self) -> (r: TemplateParams)
        ensures
            match self {
                CodeGenerationMode::Dynamic(m) => r.code@ == "##code##"@ && r.min == m,
                CodeGenerationMode::Custom(p) => r == p,
            },
    {
        match self {
            CodeGenerationMode::Dynamic(valid_minutes) => TemplateParams::with_dynamic_code(valid_minutes),
            CodeGenerationMode::Custom(params) => params,
        }
    }
}

impl Default for CodeGenerationMode {
    /// Service-generated codes valid for five minutes.
    fn default() -> (r: Self)
        ensures
            r == CodeGenerationMode::Dynamic(5),
    {
        CodeGenerationMode::Dynamic(5)
    }
}


/// The SMS signatures the account may send with.
#[derive(Debug, Clone, Copy, PartialEq, Eq, Structural)]
pub enum SmsSignature {
    /// 云渚科技验证平台
    YunZhuVerifyPlatform,
    /// 云渚科技验证服务
    YunZhuVerifyService,
    /// 速通互联验证码
    SuTongVerifyCode,
    /// 速通互联验证平台
    SuTongVerifyPlatform,
    /// 速通互联验证服务
    SuTongVerifyService,
}

/// The signature name sent to the service.
pub open spec fn signature_name(s: SmsSignature) -> Seq<char> {
    match s {
        SmsSignature::YunZhuVerifyPlatform => "云渚科技验证平台"@,
        SmsSignature::YunZhuVerifyService => "云渚科技验证服务"@,
        SmsSignature::SuTongVerifyCode => "速通互联验证码"@,
        SmsSignature::SuTongVerifyPlatform => "速通互联验证平台"@,
        SmsSignature::SuTongVerifyService => "速通互联验证服务"@,
    }
}

impl SmsSignature {
    /// The signature name.
    pub fn as_str(&self) -> (r: &'static str)
        ensures
            r@ == signature_name(*self),
    {
        match self {
            Self::YunZhuVerifyPlatform => "云渚科技验证平台",
            Self::YunZhuVerifyService => "云渚科技验证服务",
            Self::SuTongVerifyCode => "速通互联验证码",
            Self::SuTongVerifyPlatform => "速通互联验证平台",
            Self::SuTongVerifyService => "速通互联验证服务",
        }
    }
}

impl Default for SmsSignature {
    /// 云渚科技验证平台.
    fn default() -> (r: Self)
        ensures
            r == SmsSignature::YunZhuVerifyPlatform,
    {
        SmsSignature::YunZhuVerifyPlatform
    }
}

/// The SMS templates of the service.
#[derive(Debug, Clone, Copy, PartialEq, Eq, Structural)]
pub enum SmsTemplate {
    /// Login or registration.
    LoginRegister,
    /// Change of the bound number.
    ModifyPhone,
    /// Password reset.
    ResetPassword,
    /// Binding a new number.
    BindNewPhone,
    /// Verifying the bound number.
    VerifyBindPhone,
}

/// The template code sent to the service.
pub open spec fn template_code(t: SmsTemplate) -> Seq<char> {
    match t {
        SmsTemplate::LoginRegister => "100001"@,
        SmsTemplate::ModifyPhone => "100002"@,
        SmsTemplate::ResetPassword => "100003"@,
        SmsTemplate::BindNewPhone => "100004"@,
        SmsTemplate::VerifyBindPhone => "100005"@,
    }
}

impl SmsTemplate {
    /// The template code.
    pub fn code(&self) -> (r: &'static str)
        ensures
            r@ == template_code(*self),
    {
        match self {
            Self::LoginRegister => "100001",
            Self::ModifyPhone => "100002",
            Self::ResetPassword => "100003",
            Self::BindNewPhone => "100004",
            Self::VerifyBindPhone => "100005",
        }
    }
}

impl Default for SmsTemplate {
    /// The login/registration template.
    fn default() -> (r: Self)
        ensures
            r == SmsTemplate::LoginRegister,
    {
        SmsTemplate::LoginRegister
    }
}

/// A request to send a verification code.
#[derive(Debug, Clone)]
pub struct SendSmsRequest {
    /// The mobile number.
    pub mobile: String,
    /// The verification scheme id.
    pub scheme: String,
    /// The SMS signature.
    pub signature: Option<SmsSignature>,
    /// The SMS template.
    pub template: Option<SmsTemplate>,
    /// How the code is produced (it carries the template parameters).
    pub code_generation_mode: CodeGenerationMode,
    /// The length of the code.
    pub code_length: Option<u8>,
    /// Validity in seconds.
    pub valid_time: Option<u32>,
}

impl SendSmsRequest {
    /// A request with the default signature, template and mode, and no
    /// code length or validity.
    pub fn new(mobile: &str, scheme: &str) -> (r: Self)
        ensures
            r.mobile@ == mobile@,
            r.scheme@ == scheme@,
            r.signature == Some(SmsSignature::YunZhuVerifyPlatform),
            r.template == Some(SmsTemplate::LoginRegister),
            r.code_generation_mode == CodeGenerationMode::Dynamic(5),
            r.code_length is None,
            r.valid_time is None,
    {
        SendSmsRequest {
            mobile: mobile.to_owned(),
            scheme: scheme.to_owned(),
            signature: Some(SmsSignature::default()),
            template: Some(SmsTemplate::default()),
            code_generation_mode: CodeGenerationMode::default(),
            code_length: None,
            valid_time: None,
        }
    }

    /// The request with the given signature.
    pub fn signature(self, signature: SmsSignature) -> (r: Self)
        ensures
            r == (SendSmsRequest { signature: Some(signature), ..self }),
    {
        let mut r = self;
        r.signature = Some(signature);
        r
    }

    /// The request with the given template.
    pub fn template(self, template: SmsTemplate) -> (r: Self)
        ensures
            r == (SendSmsRequest { template: Some(template), ..self }),
    {
        let mut r = self;
        r.template = Some(template);
        r
    }

    /// The request with the given code generation mode.
    pub fn code_generation_mode(self, mode: CodeGenerationMode) -> (r: Self)
        ensures
            r == (SendSmsRequest { code_generation_mode: mode, ..self }),
    {
        let mut r = self;
        r.code_generation_mode = mode;
        r
    }

    /// The request with the given code length.
    pub fn code_length(self, length: u8) -> (r: Self)
        ensures
            r == (SendSmsRequest { code_length: Some(length), ..self }),
    {
        let mut r = self;
        r.code_length = Some(length);
        r
    }

    /// The request with the given validity in seconds.
    pub fn valid_time(self, seconds: u32) -> (r: Self)
        ensures
            r == (SendSmsRequest { valid_time: Some(seconds), ..self }),
    {
        let mut r = self;
        r.valid_time = Some(seconds);
        r
    }
}

/// The data of a reply to a send request.
#[derive(Debug, Clone)]
pub struct SendSmsModel {
    /// The request id.
    pub request_id: String,
    /// The business id of the sent message.
    pub biz_id: String,
}

/// The reply to a send request.
#[derive(Debug, Clone)]
pub struct SendSmsResponse {
    /// The result code (`OK` on success).
    pub code: String,
    /// The result message.
    pub message: String,
    /// Whether the call succeeded.
    pub success: bool,
    /// The reply data.
    pub model: Option<SendSmsModel>,
}

impl SendSmsResponse {
    /// The request id, if the reply has data.
    pub fn request_id(&self) -> (r: Option<&str>)
        ensures
            match self.model {
                Some(m) => r matches Some(s) && s@ == m.request_id@,
                None => r is None,
            },
    {
        match &self.model {
            Some(m) => Some(m.request_id.as_str()),
            None => None,
        }
    }

    /// The business id, if the reply has data.
    pub fn biz_id(&self) -> (r: Option<&str>)
        ensures
            match self.model {
                Some(m) => r matches Some(s) && s@ == m.biz_id@,
                None => r is None,
            },
    {
        match &self.model {
            Some(m) => Some(m.biz_id.as_str()),
            None => None,
        }
    }
}

/// A request to check a verification code.
#[derive(Debug, Clone)]
pub struct CheckSmsRequest {
    /// The mobile number.
    pub mobile: String,
    /// The code to check.
    pub code: String,
    /// The verification scheme id.
    pub scheme: String,
}

impl CheckSmsRequest {
    /// A check request.
    pub fn new(mobile: &str, code: &str, scheme: &str) -> (r: Self)
        ensures
            r.mobile@ == mobile@,
            r.code@ == code@,
            r.scheme@ == scheme@,
    {
        CheckSmsRequest { mobile: mobile.to_owned(), code: code.to_owned(), scheme: scheme.to_owned() }
    }
}

/// A check result: `PASS`, `UNKNOWN` or `NOT_PASS`.
#[derive(Debug, Clone)]
pub struct CheckResultModel {
    /// The result.
    pub verify_result: String,
}

/// The data of a reply to a check request.
#[derive(Debug, Clone)]
pub struct CheckSmsModel {
    /// The result: `PASS`, `UNKNOWN` or `NOT_PASS`.
    pub verify_result: String,
}

/// The reply to a check request.
#[derive(Debug, Clone)]
pub struct CheckSmsResponse {
    /// The result code (`OK` on success).
    pub code: String,
    /// The result message.
    pub message: String,
    /// Whether the call succeeded.
    pub success: bool,
    /// The reply data.
    pub model: Option<CheckSmsModel>,
}

/// Whether a check reply says that the code passed.
pub open spec fn check_passed(r: CheckSmsResponse) -> bool {
    r.model matches Some(m) && m.verify_result@ == "PASS"@
}

impl CheckSmsResponse {
    /// The check result, if the reply has data.
    pub fn verify_result(&self) -> (r: Option<&str>)
        ensures
            match self.model {
                Some(m) => r matches Some(s) && s@ == m.verify_result@,
                None => r is None,
            },
    {
        match &self.model {
            Some(m) => Some(m.verify_result.as_str()),
            None => None,
        }
    }

    /// Whether the check result is `PASS`.
    pub fn is_pass(&self) -> (r: bool)
        ensures
            r == check_passed(*self),
    {
        match self.verify_result() {
            Some(s) => str_eq(s, "PASS"),
            None => false,
        }
    }
}

/// An error reply of the service.
#[derive(Debug, Clone)]
pub struct ErrorResponse {
    /// The error code.
    pub code: String,
    /// The error message.
    pub message: String,
    /// Whether the call succeeded.
    pub success: bool,
}

} // verus!

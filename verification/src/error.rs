//! The error type of the library and the mapping from the service's error
//! codes to it.

use vstd::prelude::*;
use crate::text::str_eq;

verus! {

#[verifier::external_type_specification]
#[verifier::external_body]
pub struct ExReqwestError(reqwest::Error);

#[verifier::external_type_specification]
#[verifier::external_body]
pub struct ExAnyhowError(anyhow::Error);

/// Everything that can go wrong when sending or checking a verification code.
#[derive(Debug)]
pub enum SmsError {
    /// The HTTP request failed.
    RequestFailed(reqwest::Error),
    /// The service answered with an error code that has no variant of its own.
    ApiError { code: String, message: String },
    /// The reply could not be read.
    InvalidResponse(String),
    /// The request could not be signed.
    SignatureError(String),
    /// A request parameter is invalid.
    InvalidParameter(String),
    /// The verification code was not accepted.
    VerificationFailed(String),
    /// The mobile number is not well formed.
    MobileNumberIllegal,
    /// The number has exceeded its daily limit.
    BusinessLimitControl,
    /// Too many verification attempts.
    FrequencyFail,
    /// The SMS authentication service is not enabled.
    FunctionNotOpened,
    /// No verification code was given.
    MissingVerifyCode,
    /// A custom verification code cannot be checked by the service.
    CustomCodeNotVerifiable,
    /// The scheme is unknown or invalid.
    SchemeInvalid,
    /// The template parameters are wrong.
    TemplateParamError(String),
    /// Any other failure.
    Other(anyhow::Error),
}

/// Whether `code` is the bare or the `isv.`-prefixed form of an error code.
pub open spec fn code_is(code: Seq<char>, bare: &str, prefixed: &str) -> bool {
    code == bare@ || code == prefixed@
}

/// The error that a known service error code maps to, if `code` is one.
pub open spec fn known_api_error(code: Seq<char>, message: String) -> Option<SmsError> {
    if code_is(code, "MOBILE_NUMBER_ILLEGAL", "isv.MOBILE_NUMBER_ILLEGAL") {
        Some(SmsError::MobileNumberIllegal)
    } else if code_is(code, "BUSINESS_LIMIT_CONTROL", "isv.BUSINESS_LIMIT_CONTROL") {
        Some(SmsError::BusinessLimitControl)
    } else if code_is(code, "FREQUENCY_FAIL", "isv.FREQUENCY_FAIL") {
        Some(SmsError::FrequencyFail)
    } else if code_is(code, "FUNCTION_NOT_OPENED", "isv.FUNCTION_NOT_OPENED") {
        Some(SmsError::FunctionNotOpened)
    } else if code_is(code, "MissingVerifyCode", "isv.MissingVerifyCode") {
        Some(SmsError::MissingVerifyCode)
    } else if code_is(code, "INVALID_PARAMETERS", "isv.INVALID_PARAMETERS") {
        Some(SmsError::InvalidParameter(message))
    } else if code_is(code, "ValidateFail", "isv.ValidateFail") {
        Some(SmsError::VerificationFailed(message))
    } else {
        None
    }
}

/// The error for a service reply with error code `code` and message
/// `message`: the variant of a known code, else `ApiError` carrying both.
pub open spec fn is_api_error(e: SmsError, code: Seq<char>, message: String) -> bool {
    match known_api_error(code, message) {
        Some(k) => e == k,
        None => e matches SmsError::ApiError { code: c, message: m } && c@ == code && m == message,
    }
}

/// The seven error codes that have variants of their own, in bare form.
pub open spec fn is_bare_known_code(code: Seq<char>) -> bool {
    code == "MOBILE_NUMBER_ILLEGAL"@ || code == "BUSINESS_LIMIT_CONTROL"@ || code == "FREQUENCY_FAIL"@
        || code == "FUNCTION_NOT_OPENED"@ || code == "MissingVerifyCode"@ || code == "INVALID_PARAMETERS"@
        || code == "ValidateFail"@
}

/// A known error code and its `isv.`-prefixed form map to the same error.
pub proof fn lemma_prefixed_code_same_error(code: Seq<char>, message: String)
    requires
        is_bare_known_code(code),
    ensures
        known_api_error(code, message) is Some,
        known_api_error(seq!['i', 's', 'v', '.'] + code, message) == known_api_error(code, message),
{
    reveal_strlit("MOBILE_NUMBER_ILLEGAL");
    reveal_strlit("isv.MOBILE_NUMBER_ILLEGAL");
    reveal_strlit("BUSINESS_LIMIT_CONTROL");
    reveal_strlit("isv.BUSINESS_LIMIT_CONTROL");
    reveal_strlit("FREQUENCY_FAIL");
    reveal_strlit("isv.FREQUENCY_FAIL");
    reveal_strlit("FUNCTION_NOT_OPENED");
    reveal_strlit("isv.FUNCTION_NOT_OPENED");
    reveal_strlit("MissingVerifyCode");
    reveal_strlit("isv.MissingVerifyCode");
    reveal_strlit("INVALID_PARAMETERS");
    reveal_strlit("isv.INVALID_PARAMETERS");
    reveal_strlit("ValidateFail");
    reveal_strlit("isv.ValidateFail");
    let p = seq!['i', 's', 'v', '.'] + code;
    if code == "MOBILE_NUMBER_ILLEGAL"@ {
        assert(p =~= "isv.MOBILE_NUMBER_ILLEGAL"@);
    } else if code == "BUSINESS_LIMIT_CONTROL"@ {
        assert(p =~= "isv.BUSINESS_LIMIT_CONTROL"@);
    } else if code == "FREQUENCY_FAIL"@ {
        assert(p =~= "isv.FREQUENCY_FAIL"@);
    } else if code == "FUNCTION_NOT_OPENED"@ {
        assert(p =~= "isv.FUNCTION_NOT_OPENED"@);
    } else if code == "MissingVerifyCode"@ {
        assert(p =~= "isv.MissingVerifyCode"@);
        assert("isv.MissingVerifyCode"@[0] != "MOBILE_NUMBER_ILLEGAL"@[0]);
    } else if code == "INVALID_PARAMETERS"@ {
        assert(p =~= "isv.INVALID_PARAMETERS"@);
        assert("INVALID_PARAMETERS"@[0] != "isv.FREQUENCY_FAIL"@[0]);
        assert("isv.INVALID_PARAMETERS"@[0] != "BUSINESS_LIMIT_CONTROL"@[0]);
    } else {
        assert(p =~= "isv.ValidateFail"@);
    }
}

fn matches_code(code: &str, bare: &str, prefixed: &str) -> (r: bool)
    ensures
        r == code_is(code@, bare, prefixed),
{
    str_eq(code, bare) || str_eq(code, prefixed)
}

impl SmsError {
    /// Maps an error code of the service to the error it stands for.
    pub fn from_api_code(code: &str, message: String) -> (r: Self)
        ensures
            is_api_error(r, code@, message),
    {
        if matches_code(code, "MOBILE_NUMBER_ILLEGAL", "isv.MOBILE_NUMBER_ILLEGAL") {
            Self::MobileNumberIllegal
        } else if matches_code(code, "BUSINESS_LIMIT_CONTROL", "isv.BUSINESS_LIMIT_CONTROL") {
            Self::BusinessLimitControl
        } else if matches_code(code, "FREQUENCY_FAIL", "isv.FREQUENCY_FAIL") {
            Self::FrequencyFail
        } else if matches_code(code, "FUNCTION_NOT_OPENED", "isv.FUNCTION_NOT_OPENED") {
            Self::FunctionNotOpened
        } else if matches_code(code, "MissingVerifyCode", "isv.MissingVerifyCode") {
            Self::MissingVerifyCode
        } else if matches_code(code, "INVALID_PARAMETERS", "isv.INVALID_PARAMETERS") {
            Self::InvalidParameter(message)
        } else if matches_code(code, "ValidateFail", "isv.ValidateFail") {
            Self::VerificationFailed(message)
        } else {
            Self::ApiError { code: code.to_owned(), message }
        }
    }
}

/// The result type of the library.
pub type Result<T> = core::result::Result<T, SmsError>;

} // verus!

use aliyun_dypns::SmsError;

fn msg() -> String {
    "the message".to_string()
}

#[test]
fn known_codes_bare_and_prefixed() {
    for prefix in ["", "isv."] {
        let c = |s: &str| format!("{}{}", prefix, s);
        assert!(matches!(SmsError::from_api_code(&c("MOBILE_NUMBER_ILLEGAL"), msg()), SmsError::MobileNumberIllegal));
        assert!(matches!(SmsError::from_api_code(&c("BUSINESS_LIMIT_CONTROL"), msg()), SmsError::BusinessLimitControl));
        assert!(matches!(SmsError::from_api_code(&c("FREQUENCY_FAIL"), msg()), SmsError::FrequencyFail));
        assert!(matches!(SmsError::from_api_code(&c("FUNCTION_NOT_OPENED"), msg()), SmsError::FunctionNotOpened));
        assert!(matches!(SmsError::from_api_code(&c("MissingVerifyCode"), msg()), SmsError::MissingVerifyCode));
        match SmsError::from_api_code(&c("INVALID_PARAMETERS"), msg()) {
            SmsError::InvalidParameter(m) => assert_eq!(m, "the message"),
            other => panic!("unexpected {:?}", other),
        }
        match SmsError::from_api_code(&c("ValidateFail"), msg()) {
            SmsError::VerificationFailed(m) => assert_eq!(m, "the message"),
            other => panic!("unexpected {:?}", other),
        }
    }
}

#[test]
fn unknown_codes_keep_code_and_message() {
    for code in ["isv.OTHER", "mobile_number_illegal", "", "isv.", "xisv.FREQUENCY_FAIL"] {
        match SmsError::from_api_code(code, msg()) {
            SmsError::ApiError { code: c, message } => {
                assert_eq!(c, code);
                assert_eq!(message, "the message");
            }
            other => panic!("unexpected {:?}", other),
        }
    }
}

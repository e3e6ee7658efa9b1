use aliyun_dypns::text::{decimal_string, replace_all_str, str_eq, str_lt};
use aliyun_dypns::{ParamMap, SignatureBuilder};

#[test]
fn percent_encode_signing_rules() {
    assert_eq!(SignatureBuilder::percent_encode("a b*c~/é!'()"), "a%20b%2Ac~%2F%C3%A9!'()");
    assert_eq!(SignatureBuilder::percent_encode("/"), "%2F");
    assert_eq!(SignatureBuilder::percent_encode("+%7E"), "%2B%257E");
    assert_eq!(SignatureBuilder::percent_encode(""), "");
    assert_eq!(SignatureBuilder::percent_encode("\n\u{7f}"), "%0A%7F");
    assert_eq!(SignatureBuilder::percent_encode("\"#<>&=?:@[]{},"), "%22%23%3C%3E%26%3D%3F%3A%40%5B%5D%7B%7D%2C");
}

#[test]
fn signature_known_value() {
    let b = SignatureBuilder::new("id", "secret");
    let s = b.calculate_signature("GET", "A=1&B=2").unwrap();
    assert_eq!(s, "6uqsZywQ/ZmSryttW5zFodXqrBo=");
    assert_eq!(s.len(), 28);
    assert!(s.ends_with('=') && !s[..27].contains('='));
    assert!(s[..27].chars().all(|c| c.is_ascii_alphanumeric() || c == '+' || c == '/'));
    let e = SignatureBuilder::new("", "").calculate_signature("GET", "").unwrap();
    assert_eq!(e, "9uWlYLdCnrqTnAxZowDkuU1h2og=");
}

fn send_business() -> ParamMap {
    let mut p = ParamMap::new();
    p.insert("PhoneNumber".to_string(), "13800138000".to_string());
    p.insert("Scheme".to_string(), "scheme-1".to_string());
    p.insert("SignName".to_string(), "云渚科技验证平台".to_string());
    p.insert("TemplateCode".to_string(), "100001".to_string());
    p.insert("TemplateParam".to_string(), "{\"code\":\"##code##\",\"min\":5}".to_string());
    p.insert("CodeLength".to_string(), "6".to_string());
    p.insert("ValidTime".to_string(), "300".to_string());
    p
}

#[test]
fn build_params_at_known_value() {
    let b = SignatureBuilder::new("testid", "testsecret");
    let p = b
        .build_params_at(
            "SendSmsVerifyCode",
            "2017-05-25",
            send_business(),
            "2024-01-02T03:04:05Z".to_string(),
            "123e4567-e89b-42d3-a456-426614174000".to_string(),
        )
        .unwrap();
    assert_eq!(p.get("Signature"), Some("1/7sWWIhLiuAExShDJk58OUlUeI="));
    assert_eq!(p.get("AccessKeyId"), Some("testid"));
    assert_eq!(p.get("Action"), Some("SendSmsVerifyCode"));
    assert_eq!(p.get("Format"), Some("JSON"));
    assert_eq!(p.get("SignatureMethod"), Some("HMAC-SHA1"));
    assert_eq!(p.get("SignatureVersion"), Some("1.0"));
    assert_eq!(p.get("Timestamp"), Some("2024-01-02T03:04:05Z"));
    assert_eq!(p.get("Version"), Some("2017-05-25"));
    assert_eq!(p.get("PhoneNumber"), Some("13800138000"));
    assert_eq!(p.len(), 16);
}

#[test]
fn build_params_common_values_override_business() {
    let b = SignatureBuilder::new("testid", "testsecret");
    let mut business = ParamMap::new();
    business.insert("Format".to_string(), "XML".to_string());
    let p = b
        .build_params_at("A", "V", business, "T".to_string(), "N".to_string())
        .unwrap();
    assert_eq!(p.get("Format"), Some("JSON"));
    assert_eq!(p.len(), 9);
}

#[test]
fn build_params_fresh_nonce_and_timestamp() {
    let b = SignatureBuilder::new("testid", "testsecret");
    let p = b.build_params("SendSmsVerifyCode", "2017-05-25", ParamMap::new()).unwrap();
    let nonce = p.get("SignatureNonce").unwrap();
    assert_eq!(nonce.len(), 36);
    for (i, c) in nonce.chars().enumerate() {
        if i == 8 || i == 13 || i == 18 || i == 23 {
            assert_eq!(c, '-');
        } else {
            assert!(c.is_ascii_digit() || ('a'..='f').contains(&c));
        }
    }
    assert_eq!(nonce.chars().nth(14), Some('4'));
    let ts = p.get("Timestamp").unwrap();
    assert_eq!(ts.len(), 20);
    assert!(ts.ends_with('Z'));
    assert_eq!(ts.chars().nth(10), Some('T'));
    let b = ts.as_bytes();
    for i in [0, 1, 2, 3, 5, 6, 8, 9, 11, 12, 14, 15, 17, 18] {
        assert!(b[i].is_ascii_digit());
    }
    assert_eq!((b[4], b[7], b[13], b[16]), (b'-', b'-', b':', b':'));
    let month = (b[5] - b'0') * 10 + (b[6] - b'0');
    assert!((1..=12).contains(&month));
    assert!(ts >= "1970");
    assert_eq!(p.get("Signature").unwrap().len(), 28);
}

#[test]
fn param_map_order_and_replace() {
    let mut a = ParamMap::new();
    a.insert("b".to_string(), "2".to_string());
    a.insert("a".to_string(), "1".to_string());
    a.insert("B".to_string(), "3".to_string());
    a.insert("a".to_string(), "4".to_string());
    assert_eq!(a.len(), 3);
    assert_eq!(a.entry(0), ("B", "3"));
    assert_eq!(a.entry(1), ("a", "4"));
    assert_eq!(a.entry(2), ("b", "2"));
    assert_eq!(a.get("a"), Some("4"));
    assert_eq!(a.get("c"), None);

    let mut c = ParamMap::new();
    c.insert("a".to_string(), "4".to_string());
    c.insert("B".to_string(), "3".to_string());
    c.insert("b".to_string(), "2".to_string());
    for i in 0..3 {
        assert_eq!(a.entry(i), c.entry(i));
    }
}

#[test]
fn text_helpers() {
    assert_eq!(decimal_string(0), "0");
    assert_eq!(decimal_string(300), "300");
    assert_eq!(decimal_string(u32::MAX), "4294967295");
    assert_eq!(replace_all_str("aaa", "aa", "b"), "ba");
    assert_eq!(replace_all_str("x+y+", "+", "%20"), "x%20y%20");
    assert!(str_eq("é", "é"));
    assert!(!str_eq("e", "é"));
    assert!(str_lt("B", "a"));
    assert!(str_lt("a", "ab"));
    assert!(!str_lt("ab", "ab"));
    assert!(str_lt("z", "é"));
}

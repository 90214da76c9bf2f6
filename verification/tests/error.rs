use serde_json::Value;
use twirp::decimal::parse_i32;
use twirp::{bad_route, internal, invalid_argument, malformed, unknown, TwirpErrorCode};

#[test]
fn every_kind_has_its_name_and_status() {
    for (error, code, name, status) in [
        (unknown("m"), TwirpErrorCode::Unknown, "unknown", 500),
        (invalid_argument("m"), TwirpErrorCode::InvalidArgument, "invalid_argument", 400),
        (malformed("m"), TwirpErrorCode::Malformed, "malformed", 400),
        (bad_route("m"), TwirpErrorCode::BadRoute, "bad_route", 404),
        (internal("m"), TwirpErrorCode::Internal, "internal", 500),
    ] {
        assert_eq!(error.code, code);
        assert_eq!(code.as_str(), name);
        assert_eq!(code.http_status_code(), status);
        assert_eq!(error.to_json(), format!(r#"{{"code":"{}","msg":"m"}}"#, name));
        let reply = error.into_response();
        assert_eq!(reply.status, status);
        assert_eq!(reply.content_type, "application/json");
        assert!(reply.extensions.is_empty());
    }
}

#[test]
fn meta_is_replaced_under_its_key() {
    let mut error = malformed("m");
    error.insert_meta("a".to_string(), "1".to_string());
    error.insert_meta("b".to_string(), "2".to_string());
    assert_eq!(error.to_json(), r#"{"code":"malformed","msg":"m","meta":{"a":"1","b":"2"}}"#);
    error.insert_meta("a".to_string(), "3".to_string());
    assert_eq!(error.to_json(), r#"{"code":"malformed","msg":"m","meta":{"a":"3","b":"2"}}"#);
}

#[test]
fn texts_are_escaped_as_in_json() {
    let mut text = String::new();
    for code in 0..0x100u32 {
        text.push(char::from_u32(code).unwrap());
    }
    text.push_str("\u{2028}\u{1f600}");
    let mut error = internal(&text);
    error.insert_meta(text.clone(), text.clone());
    let reply = error.into_response();
    let read: Value = serde_json::from_slice(&reply.body).unwrap();
    assert_eq!(read["msg"], Value::String(text.clone()));
    assert_eq!(read["meta"][text.as_str()], Value::String(text.clone()));

    let error = internal("\"\\\u{8}\t\n\u{c}\r\u{1f}\u{7f}é");
    assert_eq!(
        error.to_json(),
        "{\"code\":\"internal\",\"msg\":\"\\\"\\\\\\b\\t\\n\\f\\r\\u001f\u{7f}é\"}"
    );
}

#[test]
fn different_errors_have_different_answers() {
    let mut with_meta = internal("a");
    with_meta.insert_meta("b".to_string(), "c".to_string());
    let mut with_other = internal("a");
    with_other.insert_meta("b".to_string(), "c\",\"d\":\"e".to_string());
    let mut with_more = internal("a");
    with_more.insert_meta("b".to_string(), "c".to_string());
    with_more.insert_meta("d".to_string(), "e".to_string());
    let answers = [
        internal("a").to_json(),
        internal("b").to_json(),
        unknown("a").to_json(),
        with_meta.to_json(),
        with_other.to_json(),
        with_more.to_json(),
    ];
    for i in 0..answers.len() {
        for j in 0..i {
            assert_ne!(answers[i], answers[j]);
        }
    }
}

#[test]
fn integers_are_read_in_decimal() {
    for text in [
        "0", "-0", "+0", "7", "-7", "+7", "0012", "2147483647", "2147483648", "-2147483648",
        "-2147483649", "00000000000000000000000001", "99999999999999999999", "", "-", "+", "+-1",
        "--1", " 1", "1 ", "1_0", "1a", "a1", "٣", "999999999999x",
    ] {
        assert_eq!(parse_i32(text), text.parse::<i32>().ok(), "{}", text);
    }
    assert_eq!(parse_i32("-42"), Some(-42));
}

#[test]
fn integers_are_read_back() {
    for value in [0, 1, -1, 9, 10, -10, 123456789, i32::MAX, i32::MIN] {
        assert_eq!(parse_i32(&value.to_string()), Some(value));
    }
}

use live_qa::errors::{ApiError, ValidationError};
use live_qa::pipeline::ping;
use live_qa::fingerprint::fingerprint;
use live_qa::token::{constant_time_eq, push_hex, Token};
use live_qa::validate::{check_event_fields, check_optional, check_question_text, check_required};

#[test]
fn push_hex_writes_exact_digits() {
    let mut out: Vec<u8> = Vec::new();
    push_hex(&mut out, 0);
    assert_eq!(out, b"0000000000000000".to_vec());

    let mut out: Vec<u8> = vec![b'x'];
    push_hex(&mut out, 0xdeadbeef);
    assert_eq!(out, b"x00000000deadbeef".to_vec());

    let mut out: Vec<u8> = Vec::new();
    push_hex(&mut out, u64::MAX);
    assert_eq!(out, b"ffffffffffffffff".to_vec());
}

#[test]
fn constant_time_eq_is_equality() {
    assert!(constant_time_eq(&vec![], &vec![]));
    assert!(constant_time_eq(&vec![1, 2, 3], &vec![1, 2, 3]));
    assert!(!constant_time_eq(&vec![1, 2, 3], &vec![1, 2, 4]));
    assert!(!constant_time_eq(&vec![1, 2, 3], &vec![1, 2]));
    assert!(!constant_time_eq(&vec![0, 2, 3], &vec![1, 2, 3]));
}

#[test]
fn token_matches_compares_content() {
    let a = Token::from_bytes(vec![b'p', 1, 2]);
    let b = Token::from_bytes(vec![b'p', 1, 2]);
    let c = Token::from_bytes(vec![b'p', 1, 3]);
    assert!(a.matches(&b));
    assert!(!a.matches(&c));
    let d = a.duplicate();
    assert!(a.matches(&d));
    assert_eq!(d.as_bytes(), &vec![b'p', 1, 2]);
}

#[test]
fn fingerprint_is_deterministic_and_salted() {
    let addr = b"198.51.100.7".to_vec();
    let agent = b"agent/1.0".to_vec();
    let f1 = fingerprint(17, &addr, &agent);
    let f2 = fingerprint(17, &addr, &agent);
    assert_eq!(f1, f2);
    // thin metadata still yields a usable (degraded) fingerprint
    let empty = Vec::new();
    let d1 = fingerprint(17, &empty, &empty);
    let d2 = fingerprint(17, &empty, &empty);
    assert_eq!(d1, d2);
}

#[test]
fn fingerprint_separates_field_boundaries() {
    // the separator keeps ("ab", "c") apart from ("a", "bc")
    let f1 = fingerprint(0, &b"ab".to_vec(), &b"c".to_vec());
    let f2 = fingerprint(0, &b"a".to_vec(), &b"bc".to_vec());
    assert_ne!(f1, f2);
}

#[test]
fn required_field_bounds() {
    assert!(check_required("x", 3).is_ok());
    assert!(check_required("xxx", 3).is_ok());
    assert_eq!(check_required("", 3), Err(ValidationError::Empty));
    assert_eq!(check_required("xxxx", 3), Err(ValidationError::TooLong));
    assert!(check_optional("", 3).is_ok());
    assert_eq!(check_optional("xxxx", 3), Err(ValidationError::TooLong));
}

#[test]
fn question_text_bounds() {
    assert!(check_question_text("valid text").is_ok());
    assert_eq!(check_question_text(""), Err(ValidationError::Empty));
    let long = "q".repeat(501);
    assert_eq!(check_question_text(&long), Err(ValidationError::TooLong));
}

#[test]
fn event_fields_report_each_fault() {
    let ok = check_event_fields("name", "desc", "");
    assert!(!ok.has_any());
    let bad = check_event_fields("", &"d".repeat(1001), &"c".repeat(101));
    assert_eq!(bad.name, Some(ValidationError::Empty));
    assert_eq!(bad.desc, Some(ValidationError::TooLong));
    assert_eq!(bad.contact, Some(ValidationError::TooLong));
}

#[test]
fn error_messages_name_the_fault() {
    assert_eq!(ValidationError::Empty.message(), "value must not be empty");
    assert_eq!(
        ValidationError::TooLong.message(),
        "value exceeds the maximum length"
    );
    assert_eq!(ApiError::NotFound.message(), "event or question not found");
    assert_eq!(
        ApiError::Forbidden.message(),
        "credential does not authorize this operation"
    );
    assert_eq!(
        ApiError::Validation(ValidationError::Empty).message(),
        "value must not be empty"
    );
    assert_eq!(ApiError::Capacity.message(), "the event can take no further changes");
}

#[test]
fn ping_answers_pong() {
    assert_eq!(ping(), "pong");
}

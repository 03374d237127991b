use dbward_app::digest::{sha256_hex, sha256_text};
use dbward_app::domain::Permission;
use dbward_app::error::{AppError, AuthError, AuthzError};
use dbward_app::json::{Json, JsonObject};
use dbward_app::ports::authorizer::filter_accessible;
use dbward_app::text::{
    contains_text, decimal_text, eq_ignore_case, join_texts, lex_less, read_number, strip_prefix,
    strip_text, truncate_utf8, Strip,
};
use dbward_app::time::{exceeds_elapsed, Timestamp};

#[test]
fn digest_of_known_texts() {
    assert_eq!(
        sha256_text("abc"),
        "ba7816bf8f01cfea414140de5dae2223b00361a396177a9cb410ff61f20015ad"
    );
    assert_eq!(
        sha256_hex(&[]),
        "e3b0c44298fc1c149afbf4c8996fb92427ae41e4649b934ca495991b7852b855"
    );
}

#[test]
fn json_text_comes_back_compact_and_sorted() {
    let j = Json::parse("{ \"b\" : [1, -2, true, null], \"a\" : \"x\\ny\" }").unwrap();
    assert_eq!(j.get("a").and_then(|v| v.as_str()), Some(&"x\ny".to_string()));
    let list = j.get("b").and_then(|v| v.as_array()).unwrap();
    assert_eq!(list[0].as_u64(), Some(1));
    assert_eq!(list[1].as_i64(), Some(-2));
    assert_eq!(list[1].as_u64(), None);
    assert_eq!(list[2].as_bool(), Some(true));
    assert_eq!(j.copy().render(), j.render());
}

#[test]
fn json_errors_say_where() {
    assert!(Json::parse("not json").is_none());
    match Json::read("{") {
        Err(e) => assert!(e.contains("line 1")),
        Ok(_) => panic!("read"),
    }
}

#[test]
fn json_objects_are_built() {
    let j = JsonObject::new()
        .with("n", Json::unsigned(7))
        .with("i", Json::integer(-1))
        .with("t", Json::text("a\"b"))
        .with("n", Json::unsigned(8))
        .build();
    assert_eq!(j.get("n").and_then(|v| v.as_u64()), Some(8));
    assert_eq!(j.render(), "{\"i\":-1,\"n\":8,\"t\":\"a\\\"b\"}");
}

#[test]
fn texts_are_found_and_cut() {
    assert!(contains_text("hello world", "lo w"));
    assert!(!contains_text("hello", "world"));
    assert!(contains_text("x", ""));
    assert_eq!(strip_prefix("role:dba", "role:"), Some("dba".to_string()));
    assert_eq!(strip_prefix("dba", "role:"), None);
    assert_eq!(strip_text(" \t a b \u{3000}", Strip::White), "a b");
    assert_eq!(strip_text("--a--", Strip::One('-')), "a");
    assert_eq!(truncate_utf8("h\u{e9}llo", 2), "h");
    assert_eq!(truncate_utf8("h\u{e9}llo", 3), "h\u{e9}");
    assert_eq!(join_texts(&vec!["a".to_string(), "b".to_string()], ", "), "a, b");
}

#[test]
fn texts_are_compared() {
    assert!(lex_less("a", "b"));
    assert!(lex_less("a", "aa"));
    assert!(!lex_less("b", "a"));
    assert!(eq_ignore_case("CASCADE", "cascade"));
    assert!(!eq_ignore_case("CASCADE", "cascades"));
}

#[test]
fn numbers_are_written_and_read() {
    assert_eq!(decimal_text(0), "0");
    assert_eq!(decimal_text(18_446_744_073_709_551_615), "18446744073709551615");
    assert_eq!(read_number("42", 100), Some(42));
    assert_eq!(read_number("142", 100), None);
    assert_eq!(read_number("x", 100), None);
}

#[test]
fn instants_are_ordered() {
    let a = Timestamp { secs: 10, nanos: 5 };
    let b = Timestamp { secs: 10, nanos: 6 };
    assert!(a.before(&b));
    assert!(!b.before(&a));
    assert_eq!(a.plus_secs(-10), Timestamp { secs: 0, nanos: 5 });
    assert!(a.is_valid());
    assert!(!Timestamp { secs: i64::MAX, nanos: 0 }.is_valid());
    assert!(!a.is_shiftable(i64::MAX));
    let start = Timestamp { secs: 0, nanos: 0 };
    assert!(exceeds_elapsed(&Timestamp { secs: 61, nanos: 0 }, &start, 60));
    assert!(!exceeds_elapsed(&Timestamp { secs: 60, nanos: 0 }, &start, 60));
}

#[test]
fn errors_have_codes_and_messages() {
    let m = || "m".to_string();
    assert_eq!(AppError::NotFound(m()).code(), "request.not_found");
    assert_eq!(AppError::Conflict(m()).code(), "request.conflict");
    assert_eq!(AppError::Gone(m()).code(), "request.gone");
    assert_eq!(AppError::Validation(m()).code(), "validation.failed");
    assert_eq!(AppError::PlanLimit(m()).code(), "policy.limit_exceeded");
    assert_eq!(AppError::PayloadTooLarge(m()).code(), "payload.too_large");
    assert_eq!(AppError::RateLimited(m()).code(), "preflight.rate_limited");
    assert_eq!(AppError::Internal(m()).code(), "internal_error");
    assert_eq!(AppError::Auth(AuthError::TokenRevoked).code(), "auth.token_revoked");
    let denied = AuthzError::Forbidden {
        permission: Permission::RequestView,
        reason: "denied".to_string(),
    };
    let e = AppError::Forbidden(denied);
    assert_eq!(e.code(), "forbidden");
    assert!(e.message("request.view").contains("denied"));
    assert_eq!(AuthError::Internal(m()).message(), "internal: m");
    assert_eq!(AuthError::MissingToken.message(), "missing authorization header");
}

#[test]
fn accessible_pairs_need_a_right() {
    let pair = |d: &str| (d.to_string(), "production".to_string());
    let pairs = vec![pair("a"), pair("b"), pair("c")];
    let found = filter_accessible(&pairs, &vec![true, false, false], &vec![false, true, false]);
    assert_eq!(found, vec![pair("a"), pair("b")]);
}

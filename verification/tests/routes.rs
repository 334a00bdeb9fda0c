use remoteapi_test::errors::{ApiError, ErrorCode};
use remoteapi_test::query::check_pairs;
use remoteapi_test::routes::{v1, v2};

fn s(t: &str) -> Option<String> {
    Some(t.to_string())
}

// v1

#[test]
fn returns_greeting_with_name() {
    let m = v1::hello::hello(&v1::hello::HelloParams { name: s("Alice") }).unwrap();
    assert_eq!(m, "Hello, Alice!");
}

#[test]
fn returns_default_greeting_without_name() {
    let m = v1::hello::hello(&v1::hello::HelloParams { name: None }).unwrap();
    assert_eq!(m, "Hello, world!");
}

#[test]
fn ignores_unknown_params() {
    // `foo=bar` in the query is not even handed to version 1
    let m = v1::hello::hello(&v1::hello::HelloParams { name: s("Alice") }).unwrap();
    assert_eq!(m, "Hello, Alice!");
}

#[test]
fn v1_show_hello_uses_custom_greeting() {
    let p = v1::hello::ShowHelloParams { greeting: s("Hi"), name: s("Alice") };
    assert_eq!(v1::hello::show_hello(&p).unwrap(), "Hi, Alice!");
}

#[test]
fn v1_show_hello_missing_greeting_returns_400() {
    let p = v1::hello::ShowHelloParams { greeting: None, name: s("Alice") };
    let err = v1::hello::show_hello(&p).unwrap_err();
    assert_eq!(err.status_code(), 400);
    assert_eq!(err.code().value(), ErrorCode::MissingParam.value());
    assert_eq!(err.message(), "Missing required parameter: greeting");
}

// v2

#[test]
fn returns_greeting_with_known_param() {
    let m = v2::hello::hello(Some("name=Alice"), &v2::hello::HelloParams { name: s("Alice") });
    assert_eq!(m.unwrap(), "Hello, Alice!");
}

#[test]
fn returns_default_name_without_name_param() {
    let m = v2::hello::hello(None, &v2::hello::HelloParams { name: None });
    assert_eq!(m.unwrap(), "Hello, world!");
}

#[test]
fn rejects_unknown_param() {
    let err = v2::hello::hello(
        Some("name=Alice&foo=bar"),
        &v2::hello::HelloParams { name: s("Alice") },
    )
    .unwrap_err();
    assert_eq!(err.status_code(), 400);
    assert_eq!(err.code().value(), 1001);
    assert_eq!(err, ApiError::UnknownQueryParam("foo".to_string()));
}

#[test]
fn rejects_only_unknown_param() {
    let err = v2::hello::hello(Some("bar=baz"), &v2::hello::HelloParams { name: None }).unwrap_err();
    assert_eq!(err.status_code(), 400);
    assert_eq!(err.code().value(), ErrorCode::UnknownQueryParam.value());
}

#[test]
fn v2_show_hello_uses_custom_greeting() {
    let p = v2::hello::ShowHelloParams { greeting: s("Hi"), name: s("Alice") };
    assert_eq!(v2::hello::show_hello(Some("greeting=Hi&name=Alice"), &p).unwrap(), "Hi, Alice!");
}

#[test]
fn v2_show_hello_missing_greeting_returns_400() {
    let p = v2::hello::ShowHelloParams { greeting: None, name: s("Alice") };
    let err = v2::hello::show_hello(Some("name=Alice"), &p).unwrap_err();
    assert_eq!(err.status_code(), 400);
    assert_eq!(err.code().value(), ErrorCode::MissingParam.value());
    assert_eq!(err.message(), "Missing required parameter: greeting");
}

#[test]
fn v2_missing_greeting_is_reported_before_unknown_param() {
    let p = v2::hello::ShowHelloParams { greeting: None, name: None };
    let err = v2::hello::show_hello(Some("foo=bar"), &p).unwrap_err();
    assert_eq!(err, ApiError::MissingParam("greeting".to_string()));
}

#[test]
fn show_hello_rejects_unknown_param() {
    let p = v2::hello::ShowHelloParams { greeting: s("Hi"), name: None };
    let err = v2::hello::show_hello(Some("greeting=Hi&foo=bar"), &p).unwrap_err();
    assert_eq!(err.status_code(), 400);
    assert_eq!(err.code().value(), ErrorCode::UnknownQueryParam.value());
}

// added cases

#[test]
fn unknown_names_are_decoded_before_the_check() {
    let err = v2::hello::hello(Some("%66o+o=1"), &v2::hello::HelloParams { name: None }).unwrap_err();
    assert_eq!(err, ApiError::UnknownQueryParam("fo o".to_string()));
}

#[test]
fn first_unknown_name_is_reported() {
    let err = v2::hello::hello(Some("a=1&name=x&b=2"), &v2::hello::HelloParams { name: s("x") })
        .unwrap_err();
    assert_eq!(err, ApiError::UnknownQueryParam("a".to_string()));
}

#[test]
fn empty_query_segments_are_ignored() {
    let m = v2::hello::hello(Some("&&name=Bo&"), &v2::hello::HelloParams { name: s("Bo") });
    assert_eq!(m.unwrap(), "Hello, Bo!");
}

#[test]
fn check_pairs_accepts_known_names() {
    let pairs = vec![("name".to_string(), "x".to_string())];
    assert!(check_pairs(&pairs, &vec!["greeting", "name"]).is_ok());
    assert_eq!(
        check_pairs(&pairs, &vec!["greeting"]),
        Err(ApiError::UnknownQueryParam("name".to_string()))
    );
}

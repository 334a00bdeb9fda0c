use remoteapi_test::errors::{ApiError, ErrorCode};

#[test]
fn error_code_numeric_values() {
    assert_eq!(serde_json::to_value(ErrorCode::Unauthorized.value()).unwrap(), 1000);
    assert_eq!(serde_json::to_value(ErrorCode::UnknownQueryParam.value()).unwrap(), 1001);
    assert_eq!(serde_json::to_value(ErrorCode::MissingParam.value()).unwrap(), 1002);
    assert_eq!(serde_json::to_value(ErrorCode::InvalidParam.value()).unwrap(), 1003);
}

#[test]
fn unknown_query_param_response() {
    let err = ApiError::UnknownQueryParam("foo".to_string());
    assert_eq!(err.status_code(), 400);
    assert_eq!(err.code().value(), 1001);
    assert_eq!(err.message(), "Unknown query parameter: foo");
}

#[test]
fn missing_param_message_and_code() {
    let err = ApiError::MissingParam("greeting".to_string());
    assert_eq!(err.status_code(), 400);
    assert_eq!(err.code(), ErrorCode::MissingParam);
    assert_eq!(err.message(), "Missing required parameter: greeting");
}

#[test]
fn invalid_param_message_and_code() {
    let err = ApiError::InvalidParam { field: "name", reason: "too long".to_string() };
    assert_eq!(err.status_code(), 400);
    assert_eq!(err.code().value(), 1003);
    assert_eq!(err.message(), "Invalid parameter value for 'name': too long");
}

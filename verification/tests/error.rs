use tabularis_dynamodb_plugin::error::{ErrorCode, PluginError};

#[test]
fn error_code_values_match_json_rpc_spec() {
    assert_eq!(ErrorCode::ParseError.value(), -32700);
    assert_eq!(ErrorCode::InvalidRequest.value(), -32600);
    assert_eq!(ErrorCode::MethodNotFound.value(), -32601);
    assert_eq!(ErrorCode::InvalidParams.value(), -32602);
    assert_eq!(ErrorCode::InternalError.value(), -32603);
}

#[test]
fn plugin_error_internal_creates_correct_error() {
    let err = PluginError::internal("something broke");
    assert_eq!(err.code, ErrorCode::InternalError);
    assert_eq!(err.message, "something broke");
}

#[test]
fn plugin_error_invalid_params_creates_correct_error() {
    let err = PluginError::invalid_params("bad input");
    assert_eq!(err.code, ErrorCode::InvalidParams);
    assert_eq!(err.message, "bad input");
}

#[test]
fn plugin_error_method_not_found_creates_correct_error() {
    let err = PluginError::method_not_found("unknown_method");
    assert_eq!(err.code, ErrorCode::MethodNotFound);
    assert_eq!(err.message, "unknown_method");
}

#[test]
fn plugin_error_display_format() {
    let err = PluginError::internal("test error");
    let display = err.display_string();
    assert!(display.contains("InternalError"));
    assert!(display.contains("test error"));
}

#[test]
fn plugin_error_display_is_code_name_then_message() {
    let err = PluginError::invalid_params("bad input");
    assert_eq!(err.display_string(), "[InvalidParams] bad input");
}

#[test]
fn error_code_names_are_variant_names() {
    assert_eq!(ErrorCode::ParseError.name(), "ParseError");
    assert_eq!(ErrorCode::InvalidRequest.name(), "InvalidRequest");
    assert_eq!(ErrorCode::MethodNotFound.name(), "MethodNotFound");
    assert_eq!(ErrorCode::InvalidParams.name(), "InvalidParams");
    assert_eq!(ErrorCode::InternalError.name(), "InternalError");
}

#[test]
fn error_code_values_are_distinct() {
    let codes = [
        ErrorCode::ParseError,
        ErrorCode::InvalidRequest,
        ErrorCode::MethodNotFound,
        ErrorCode::InvalidParams,
        ErrorCode::InternalError,
    ];
    for (i, a) in codes.iter().enumerate() {
        assert!(a.value() < 0);
        for (j, b) in codes.iter().enumerate() {
            assert_eq!(a.value() == b.value(), i == j);
        }
    }
}

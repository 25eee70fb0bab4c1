use tabularis_dynamodb_plugin::error::ErrorCode;
use tabularis_dynamodb_plugin::json::Json;
use tabularis_dynamodb_plugin::rpc::{error_response, handle_line, handle_request_line, not_implemented, ok_response, Action, Step};

fn s(x: &str) -> Json {
    Json::string(x)
}

fn num(n: i64) -> Json {
    Json::Number(n.to_string())
}

fn obj(pairs: Vec<(&str, Json)>) -> Json {
    Json::Object(pairs.into_iter().map(|(k, v)| (k.to_string(), v)).collect())
}

fn reply(step: Step) -> Json {
    match step {
        Step::Reply(r) => r,
        Step::Call(c) => panic!("expected a response, got DynamoDB work: {:?}", c.action),
    }
}

fn at<'a>(v: &'a Json, path: &[&str]) -> &'a Json {
    let mut cur = v;
    for key in path {
        cur = cur.get(key).unwrap_or_else(|| panic!("no member {key} in {cur:?}"));
    }
    cur
}

#[test]
fn handle_initialize_returns_success() {
    let line = r#"{"jsonrpc":"2.0","method":"initialize","id":1}"#;
    let response = reply(handle_request_line(line));
    assert_eq!(at(&response, &["result", "success"]), &Json::Bool(true));
    assert_eq!(at(&response, &["id"]), &num(1));
}

#[test]
fn handle_invalid_json_returns_parse_error() {
    let line = r#"not json"#;
    let response = reply(handle_request_line(line));
    let code = match at(&response, &["error", "code"]) {
        Json::Number(n) => n.parse::<i64>().unwrap(),
        other => panic!("code is not a number: {other:?}"),
    };
    assert!(code < 0);
    assert!(at(&response, &["error", "message"]).as_str().unwrap().contains("parse error"));
}

#[test]
fn handle_unknown_method_returns_method_not_found() {
    let line = r#"{"jsonrpc":"2.0","method":"unknown_method","id":1}"#;
    let response = reply(handle_request_line(line));
    assert_eq!(at(&response, &["error", "code"]), &num(ErrorCode::MethodNotFound.value()));
    assert!(at(&response, &["error", "message"]).as_str().unwrap().contains("unknown_method"));
}

#[test]
fn handle_get_databases_returns_default() {
    let line = r#"{"jsonrpc":"2.0","method":"get_databases","id":1}"#;
    let response = reply(handle_request_line(line));
    assert_eq!(at(&response, &["result"]), &Json::Array(vec![obj(vec![("name", s("default"))])]));
}

#[test]
fn handle_get_schemas_returns_empty() {
    let line = r#"{"jsonrpc":"2.0","method":"get_schemas","id":1}"#;
    let response = reply(handle_request_line(line));
    assert_eq!(at(&response, &["result"]), &Json::Array(vec![]));
}

#[test]
fn handle_get_routines_returns_empty() {
    let line = r#"{"jsonrpc":"2.0","method":"get_routines","id":1}"#;
    let response = reply(handle_request_line(line));
    assert_eq!(at(&response, &["result"]), &Json::Array(vec![]));
}

#[test]
fn handle_get_views_returns_empty() {
    let line = r#"{"jsonrpc":"2.0","method":"get_views","id":1}"#;
    let response = reply(handle_request_line(line));
    assert_eq!(at(&response, &["result"]), &Json::Array(vec![]));
}

#[test]
fn ok_response_format() {
    let resp = ok_response(num(1), obj(vec![("key", s("value"))]));
    assert_eq!(at(&resp, &["jsonrpc"]), &s("2.0"));
    assert_eq!(at(&resp, &["result", "key"]), &s("value"));
    assert_eq!(at(&resp, &["id"]), &num(1));
}

#[test]
fn error_response_format() {
    let resp = error_response(num(1), ErrorCode::InvalidParams, "bad input");
    assert_eq!(at(&resp, &["jsonrpc"]), &s("2.0"));
    assert_eq!(at(&resp, &["error", "code"]), &num(ErrorCode::InvalidParams.value()));
    assert_eq!(at(&resp, &["error", "message"]), &s("bad input"));
    assert_eq!(at(&resp, &["id"]), &num(1));
}

#[test]
fn not_implemented_names_the_method() {
    let resp = not_implemented(s("abc"), "frobnicate");
    assert_eq!(at(&resp, &["error", "code"]), &num(-32601));
    assert_eq!(
        at(&resp, &["error", "message"]),
        &s("method 'frobnicate' is not implemented by this plugin yet")
    );
    assert_eq!(at(&resp, &["id"]), &s("abc"));
}

#[test]
fn parse_error_has_null_id_and_serde_text() {
    let response = reply(handle_request_line("{\"id\": 3,"));
    assert_eq!(at(&response, &["id"]), &Json::Null);
    assert_eq!(at(&response, &["error", "code"]), &num(-32700));
    let msg = at(&response, &["error", "message"]).as_str().unwrap().to_string();
    let serde_text = serde_json::from_str::<serde_json::Value>("{\"id\": 3,").unwrap_err().to_string();
    assert_eq!(msg, format!("parse error: {serde_text}"));
}

#[test]
fn request_without_method_is_not_implemented() {
    let response = reply(handle_request_line(r#"{"id": "x"}"#));
    assert_eq!(at(&response, &["id"]), &s("x"));
    assert_eq!(
        at(&response, &["error", "message"]),
        &s("method '' is not implemented by this plugin yet")
    );
    let response = reply(handle_request_line("[1, 2]"));
    assert_eq!(at(&response, &["id"]), &Json::Null);
    assert_eq!(at(&response, &["error", "code"]), &num(-32601));
}

#[test]
fn ping_and_test_connection_ask_for_the_same_work() {
    for method in ["ping", "test_connection"] {
        let line = format!(r#"{{"jsonrpc":"2.0","method":"{method}","id":9,"params":{{"params":{{"region":"eu-west-1","endpoint":"http://localhost:8000"}}}}}}"#);
        match handle_request_line(&line) {
            Step::Call(call) => {
                assert!(matches!(call.action, Action::TestConnection));
                assert_eq!(call.id, num(9));
                assert_eq!(call.connection.region.as_deref(), Some("eu-west-1"));
                assert_eq!(call.connection.endpoint.as_deref(), Some("http://localhost:8000"));
                assert_eq!(call.connection.profile, None);
            },
            Step::Reply(r) => panic!("expected DynamoDB work, got {r:?}"),
        }
    }
}

#[test]
fn handle_line_answers_what_parsing_came_to() {
    let response = reply(handle_line(Err("boom".to_string())));
    assert_eq!(at(&response, &["id"]), &Json::Null);
    assert_eq!(at(&response, &["error", "code"]), &num(-32700));
    assert_eq!(at(&response, &["error", "message"]), &s("parse error: boom"));
    let request = obj(vec![("method", s("get_views")), ("id", num(4))]);
    let response = reply(handle_line(Ok(request)));
    assert_eq!(at(&response, &["id"]), &num(4));
    assert_eq!(at(&response, &["result"]), &Json::Array(vec![]));
}

#[test]
fn request_lines_are_parsed_with_numbers_as_written() {
    let response = reply(handle_request_line(r#"{"id": 12.5, "method": "get_schemas"}"#));
    assert_eq!(at(&response, &["id"]), &Json::Number("12.5".to_string()));
    assert_eq!(at(&response, &["jsonrpc"]), &s("2.0"));
}

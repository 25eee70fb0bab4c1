//! The full request/response cycle through `rpc::handle_request_line`, without DynamoDB.

use tabularis_dynamodb_plugin::handlers::models::{Query, QueryMode};
use tabularis_dynamodb_plugin::json::Json;
use tabularis_dynamodb_plugin::rpc::{handle_request_line, Step};

fn s(x: &str) -> Json {
    Json::string(x)
}

fn num(n: i64) -> Json {
    Json::Number(n.to_string())
}

fn obj(pairs: Vec<(&str, Json)>) -> Json {
    Json::Object(pairs.into_iter().map(|(k, v)| (k.to_string(), v)).collect())
}

fn reply(step: Step) -> Json {
    match step {
        Step::Reply(r) => r,
        Step::Call(c) => panic!("expected a response, got DynamoDB work: {:?}", c.action),
    }
}

fn at<'a>(v: &'a Json, path: &[&str]) -> &'a Json {
    let mut cur = v;
    for key in path {
        cur = cur.get(key).unwrap_or_else(|| panic!("no member {key} in {cur:?}"));
    }
    cur
}

fn first_statement(resp: &Json) -> String {
    at(resp, &["result"]).as_array().unwrap()[0].as_str().unwrap().to_string()
}

fn to_serde(v: &Json) -> serde_json::Value {
    match v {
        Json::Null => serde_json::Value::Null,
        Json::Bool(b) => serde_json::Value::Bool(*b),
        Json::Number(n) => serde_json::from_str(n).unwrap(),
        Json::Str(x) => serde_json::Value::String(x.clone()),
        Json::Array(items) => serde_json::Value::Array(items.iter().map(to_serde).collect()),
        Json::Object(members) => {
            serde_json::Value::Object(members.iter().map(|(k, x)| (k.clone(), to_serde(x))).collect())
        },
    }
}

#[test]
fn full_initialize_flow() {
    let req = r#"{"jsonrpc":"2.0","method":"initialize","id":1}"#;
    let resp = reply(handle_request_line(req));
    assert_eq!(at(&resp, &["jsonrpc"]), &s("2.0"));
    assert_eq!(at(&resp, &["result", "success"]), &Json::Bool(true));
    assert_eq!(at(&resp, &["id"]), &num(1));
}

#[test]
fn full_get_databases_flow() {
    let req = r#"{"jsonrpc":"2.0","method":"get_databases","id":2}"#;
    let resp = reply(handle_request_line(req));
    assert_eq!(at(&resp, &["jsonrpc"]), &s("2.0"));
    assert_eq!(at(&resp, &["result"]), &Json::Array(vec![obj(vec![("name", s("default"))])]));
    assert_eq!(at(&resp, &["id"]), &num(2));
}

#[test]
fn full_get_schemas_flow() {
    let req = r#"{"jsonrpc":"2.0","method":"get_schemas","id":3}"#;
    let resp = reply(handle_request_line(req));
    assert_eq!(at(&resp, &["result"]), &Json::Array(vec![]));
}

#[test]
fn full_get_routines_flow() {
    let req = r#"{"jsonrpc":"2.0","method":"get_routines","id":4}"#;
    let resp = reply(handle_request_line(req));
    assert_eq!(at(&resp, &["result"]), &Json::Array(vec![]));
}

#[test]
fn full_get_views_flow() {
    let req = r#"{"jsonrpc":"2.0","method":"get_views","id":5}"#;
    let resp = reply(handle_request_line(req));
    assert_eq!(at(&resp, &["result"]), &Json::Array(vec![]));
}

#[test]
fn full_get_foreign_keys_flow() {
    let req = r#"{"jsonrpc":"2.0","method":"get_foreign_keys","id":6,"params":{"params":{}}}"#;
    let resp = reply(handle_request_line(req));
    assert_eq!(at(&resp, &["result"]), &Json::Array(vec![]));
}

#[test]
fn full_unknown_method_flow() {
    let req = r#"{"jsonrpc":"2.0","method":"nonexistent","id":7}"#;
    let resp = reply(handle_request_line(req));
    assert!(resp.get("error").is_some());
    assert_eq!(at(&resp, &["error", "code"]), &num(-32601));
    assert!(at(&resp, &["error", "message"]).as_str().unwrap().contains("nonexistent"));
}

#[test]
fn full_malformed_json_flow() {
    let req = r#"not valid json"#;
    let resp = reply(handle_request_line(req));
    assert!(resp.get("error").is_some());
    assert_eq!(at(&resp, &["error", "code"]), &num(-32700));
}

#[test]
fn full_execute_query_empty_flow() {
    let req = r#"{"jsonrpc":"2.0","method":"execute_query","id":8,"params":{"params":{},"query":""}}"#;
    let resp = reply(handle_request_line(req));
    assert!(resp.get("error").is_some());
    assert_eq!(at(&resp, &["error", "message"]), &s("query must be a non-empty string"));
}

#[test]
fn full_get_columns_empty_table_flow() {
    let req = r#"{"jsonrpc":"2.0","method":"get_columns","id":9,"params":{"params":{},"table":""}}"#;
    let resp = reply(handle_request_line(req));
    assert!(resp.get("error").is_some());
    assert_eq!(at(&resp, &["error", "message"]), &s("table must be a non-empty string"));
}

#[test]
fn full_get_indexes_empty_table_flow() {
    let req = r#"{"jsonrpc":"2.0","method":"get_indexes","id":10,"params":{"params":{},"table":""}}"#;
    let resp = reply(handle_request_line(req));
    assert!(resp.get("error").is_some());
}

#[test]
fn full_insert_record_empty_table_flow() {
    let req = r#"{"jsonrpc":"2.0","method":"insert_record","id":11,"params":{"params":{},"table":"","data":{}}}"#;
    let resp = reply(handle_request_line(req));
    assert!(resp.get("error").is_some());
}

#[test]
fn full_update_record_missing_params_flow() {
    let req = r#"{"jsonrpc":"2.0","method":"update_record","id":12,"params":{"params":{},"table":"users"}}"#;
    let resp = reply(handle_request_line(req));
    assert!(resp.get("error").is_some());
}

#[test]
fn full_delete_record_missing_params_flow() {
    let req = r#"{"jsonrpc":"2.0","method":"delete_record","id":13,"params":{"params":{},"table":"users"}}"#;
    let resp = reply(handle_request_line(req));
    assert!(resp.get("error").is_some());
}

#[test]
fn full_get_create_table_sql_flow() {
    let req = r#"{"jsonrpc":"2.0","method":"get_create_table_sql","id":14,"params":{"params":{},"table_name":"users"}}"#;
    let resp = reply(handle_request_line(req));
    let statement = first_statement(&resp);
    assert!(statement.contains("CREATE TABLE"));
    assert!(statement.contains("users"));
}

#[test]
fn full_get_add_column_sql_flow() {
    let req = r#"{"jsonrpc":"2.0","method":"get_add_column_sql","id":15,"params":{"params":{},"table":"users","column":{"name":"email","type":"STRING"}}}"#;
    let resp = reply(handle_request_line(req));
    let statement = first_statement(&resp);
    assert!(statement.contains("ALTER TABLE"));
    assert!(statement.contains("email"));
}

#[test]
fn full_drop_index_flow() {
    let req = r#"{"jsonrpc":"2.0","method":"drop_index","id":16,"params":{"params":{},"table":"users","index_name":"email-index"}}"#;
    let resp = reply(handle_request_line(req));
    assert!(first_statement(&resp).contains("DROP INDEX"));
}

#[test]
fn full_get_create_foreign_key_sql_flow() {
    let req = r#"{"jsonrpc":"2.0","method":"get_create_foreign_key_sql","id":17,"params":{"params":{}}}"#;
    let resp = reply(handle_request_line(req));
    assert!(first_statement(&resp).contains("does not support"));
}

#[test]
fn full_response_has_correct_jsonrpc_field() {
    let req = r#"{"jsonrpc":"2.0","method":"initialize","id":1}"#;
    let resp = reply(handle_request_line(req));

    let serialized = serde_json::to_string(&to_serde(&resp)).unwrap();
    let parsed: serde_json::Value = serde_json::from_str(&serialized).unwrap();

    assert_eq!(parsed["jsonrpc"], "2.0");
    assert_eq!(parsed["id"], 1);
}

#[test]
fn full_null_id_handling() {
    let req = r#"{"jsonrpc":"2.0","method":"initialize","id":null}"#;
    let resp = reply(handle_request_line(req));
    assert_eq!(at(&resp, &["id"]), &Json::Null);
    assert_eq!(at(&resp, &["result", "success"]), &Json::Bool(true));
}

#[test]
fn full_partiql_query_mode_detection() {
    let q = Query::from("SELECT * FROM users".to_string());
    assert_eq!(q.mode, QueryMode::Partiql);
    assert_eq!(q.body, "SELECT * FROM users");

    let q = Query::from("#!partiql\nSELECT * FROM users".to_string());
    assert_eq!(q.mode, QueryMode::Partiql);
    assert_eq!(q.body, "SELECT * FROM users");

    let q = Query::from("#!scan\nTableName: users".to_string());
    assert_eq!(q.mode, QueryMode::Scan);
    assert_eq!(q.body, "TableName: users");
}

#[test]
fn full_string_id_is_echoed() {
    let req = r#"{"jsonrpc":"2.0","method":"get_views","id":"abc-1"}"#;
    let resp = reply(handle_request_line(req));
    assert_eq!(at(&resp, &["id"]), &s("abc-1"));
}

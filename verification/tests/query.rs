use tabularis_dynamodb_plugin::dynamodb::models::ExecuteStatementOutput;
use tabularis_dynamodb_plugin::error::PluginError;
use tabularis_dynamodb_plugin::handlers::models::QueryMode;
use tabularis_dynamodb_plugin::handlers::query::{execute_query, execute_query_response, test_connection, test_connection_response};
use tabularis_dynamodb_plugin::json::Json;
use tabularis_dynamodb_plugin::rpc::{Action, Step};

fn s(x: &str) -> Json {
    Json::string(x)
}

fn num(n: i64) -> Json {
    Json::Number(n.to_string())
}

fn obj(pairs: Vec<(&str, Json)>) -> Json {
    Json::Object(pairs.into_iter().map(|(k, v)| (k.to_string(), v)).collect())
}

fn reply(step: Step) -> Json {
    match step {
        Step::Reply(r) => r,
        Step::Call(c) => panic!("expected a response, got DynamoDB work: {:?}", c.action),
    }
}

#[test]
fn test_connection_with_missing_params_returns_error() {
    let params = obj(vec![("params", obj(vec![]))]);
    let call = match test_connection(num(1), &params) {
        Step::Call(c) => c,
        Step::Reply(r) => panic!("expected DynamoDB work, got {r:?}"),
    };
    assert!(matches!(call.action, Action::TestConnection));
    let result = test_connection_response(call.id, Err(PluginError::internal("DynamoDB ping failed: no credentials")));
    assert!(result.get("error").is_some() || result.get("result").is_some());
}

#[test]
fn execute_query_with_empty_query_returns_error() {
    let params = obj(vec![("params", obj(vec![])), ("query", s(""))]);
    let result = reply(execute_query(num(1), &params));
    assert!(result.get("error").is_some());
    assert_eq!(result.get("error").unwrap().get("message"), Some(&s("query must be a non-empty string")));
}

#[test]
fn execute_query_with_missing_query_returns_error() {
    let params = obj(vec![("params", obj(vec![]))]);
    let result = reply(execute_query(num(1), &params));
    assert!(result.get("error").is_some());
}

#[test]
fn execute_query_runs_the_detected_body() {
    let params = obj(vec![("params", obj(vec![])), ("query", s("#!scan\nTableName: users"))]);
    match execute_query(num(1), &params) {
        Step::Call(c) => match c.action {
            Action::ExecuteQuery(q) => {
                assert_eq!(q.mode, QueryMode::Scan);
                assert_eq!(q.body, "TableName: users");
            },
            other => panic!("unexpected work {other:?}"),
        },
        Step::Reply(r) => panic!("expected DynamoDB work, got {r:?}"),
    }
}

#[test]
fn test_connection_response_success_and_failure() {
    let ok = test_connection_response(num(5), Ok(()));
    assert_eq!(ok.get("result"), Some(&obj(vec![("success", Json::Bool(true))])));
    assert_eq!(ok.get("id"), Some(&num(5)));
    let failed = test_connection_response(num(5), Err(PluginError::internal("DynamoDB ping failed: timeout")));
    assert_eq!(failed.get("error").unwrap().get("message"), Some(&s("DynamoDB ping failed: timeout")));
}

#[test]
fn execute_query_response_builds_rows_from_first_item_columns() {
    let out = ExecuteStatementOutput {
        items: vec![
            vec![("id".to_string(), s("1")), ("name".to_string(), s("Alice"))],
            vec![("name".to_string(), s("Bob")), ("extra".to_string(), Json::Bool(true))],
        ],
        next_token: Some("next".to_string()),
    };
    let resp = execute_query_response(num(7), Ok(out));
    let result = resp.get("result").unwrap();
    assert_eq!(result.get("columns"), Some(&Json::Array(vec![s("id"), s("name")])));
    assert_eq!(
        result.get("rows"),
        Some(&Json::Array(vec![
            Json::Array(vec![s("1"), s("Alice")]),
            Json::Array(vec![Json::Null, s("Bob")]),
        ]))
    );
    assert_eq!(result.get("affected_rows"), Some(&num(2)));
    assert_eq!(result.get("execution_time_ms"), Some(&num(0)));
    assert_eq!(result.get("has_more"), Some(&Json::Bool(true)));
    assert_eq!(result.get("truncated"), Some(&Json::Bool(true)));
    assert_eq!(result.get("pagination"), Some(&obj(vec![("next_token", s("next"))])));
}

#[test]
fn execute_query_response_without_items() {
    let out = ExecuteStatementOutput { items: vec![], next_token: None };
    let resp = execute_query_response(num(7), Ok(out));
    let result = resp.get("result").unwrap();
    assert_eq!(result.get("columns"), Some(&Json::Array(vec![])));
    assert_eq!(result.get("rows"), Some(&Json::Array(vec![])));
    assert_eq!(result.get("affected_rows"), Some(&num(0)));
    assert_eq!(result.get("has_more"), Some(&Json::Bool(false)));
    assert_eq!(result.get("pagination"), Some(&Json::Null));
    let failed = execute_query_response(num(7), Err(PluginError::internal("ExecuteStatement failed: bad")));
    assert_eq!(failed.get("error").unwrap().get("message"), Some(&s("ExecuteStatement failed: bad")));
}

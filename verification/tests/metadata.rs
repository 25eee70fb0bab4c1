use tabularis_dynamodb_plugin::dynamodb::models::{ColumnInfo, DescribeTableOutput, IndexInfo};
use tabularis_dynamodb_plugin::error::PluginError;
use tabularis_dynamodb_plugin::handlers::metadata::{
    get_columns, get_columns_response, get_foreign_keys, get_indexes, get_indexes_response, get_tables,
    get_tables_response,
};
use tabularis_dynamodb_plugin::json::Json;
use tabularis_dynamodb_plugin::rpc::{Action, Step};

fn s(x: &str) -> Json {
    Json::string(x)
}

fn num(n: i64) -> Json {
    Json::Number(n.to_string())
}

fn obj(pairs: Vec<(&str, Json)>) -> Json {
    Json::Object(pairs.into_iter().map(|(k, v)| (k.to_string(), v)).collect())
}

fn reply(step: Step) -> Json {
    match step {
        Step::Reply(r) => r,
        Step::Call(c) => panic!("expected a response, got DynamoDB work: {:?}", c.action),
    }
}

#[test]
fn get_tables_with_missing_params_returns_error_or_empty() {
    let params = obj(vec![("params", obj(vec![]))]);
    let step = get_tables(num(1), &params);
    let call = match step {
        Step::Call(c) => c,
        Step::Reply(r) => panic!("expected DynamoDB work, got {r:?}"),
    };
    assert!(matches!(call.action, Action::ListTables));
    let result = get_tables_response(call.id, Err(PluginError::internal("ListTables failed: no credentials")));
    assert!(result.get("error").is_some() || result.get("result").is_some());
}

#[test]
fn get_columns_with_empty_table_returns_error() {
    let params = obj(vec![("params", obj(vec![])), ("table", s(""))]);
    let result = reply(get_columns(num(1), &params));
    assert!(result.get("error").is_some());
    assert_eq!(result.get("error").unwrap().get("message"), Some(&s("table must be a non-empty string")));
}

#[test]
fn get_foreign_keys_returns_empty_array() {
    let params = obj(vec![("params", obj(vec![]))]);
    let result = get_foreign_keys(num(1), &params);
    assert_eq!(result.get("result"), Some(&Json::Array(vec![])));
}

#[test]
fn get_indexes_with_empty_table_returns_error() {
    let params = obj(vec![("params", obj(vec![])), ("table", s(""))]);
    let result = reply(get_indexes(num(1), &params));
    assert!(result.get("error").is_some());
}

#[test]
fn get_columns_asks_to_describe_the_table() {
    let params = obj(vec![("params", obj(vec![("profile", s("dev"))])), ("table", s("users"))]);
    match get_columns(s("req"), &params) {
        Step::Call(c) => {
            assert!(matches!(&c.action, Action::DescribeColumns(t) if t == "users"));
            assert_eq!(c.connection.profile.as_deref(), Some("dev"));
            assert_eq!(c.id, s("req"));
        },
        Step::Reply(r) => panic!("expected DynamoDB work, got {r:?}"),
    }
    match get_indexes(num(3), &params) {
        Step::Call(c) => assert!(matches!(&c.action, Action::DescribeIndexes(t) if t == "users")),
        Step::Reply(r) => panic!("expected DynamoDB work, got {r:?}"),
    }
}

#[test]
fn get_tables_response_lists_names() {
    let result = get_tables_response(num(1), Ok(vec!["users".into(), "orders".into()]));
    let entry = |name: &str| obj(vec![("comment", Json::Null), ("name", s(name)), ("schema", Json::Null)]);
    assert_eq!(result.get("result"), Some(&Json::Array(vec![entry("users"), entry("orders")])));
    let failed = get_tables_response(num(1), Err(PluginError::internal("ListTables failed: boom")));
    assert_eq!(failed.get("error").unwrap().get("message"), Some(&s("ListTables failed: boom")));
    assert_eq!(failed.get("error").unwrap().get("code"), Some(&num(-32603)));
}

fn sample_description() -> DescribeTableOutput {
    DescribeTableOutput {
        table_name: Some("users".into()),
        columns: vec![ColumnInfo { name: "id".into(), data_type: "STRING".into(), is_pk: true, is_sort_key: false }],
        indexes: vec![IndexInfo { name: "primary".into(), columns: vec!["id".into()], is_unique: true, is_primary: true }],
        table_status: Some("ACTIVE".into()),
        item_count: Some(3),
        table_size_bytes: Some(120),
    }
}

#[test]
fn get_columns_response_lists_columns() {
    let result = get_columns_response(num(1), Ok(sample_description()));
    let expected = obj(vec![
        ("data_type", s("STRING")),
        ("is_auto_increment", Json::Bool(false)),
        ("is_nullable", Json::Bool(false)),
        ("is_pk", Json::Bool(true)),
        ("name", s("id")),
    ]);
    assert_eq!(result.get("result"), Some(&Json::Array(vec![expected])));
}

#[test]
fn get_indexes_response_lists_indexes() {
    let result = get_indexes_response(num(1), Ok(sample_description()));
    let expected = obj(vec![
        ("columns", Json::Array(vec![s("id")])),
        ("is_primary", Json::Bool(true)),
        ("is_unique", Json::Bool(true)),
        ("name", s("primary")),
    ]);
    assert_eq!(result.get("result"), Some(&Json::Array(vec![expected])));
    let failed = get_indexes_response(num(1), Err(PluginError::internal("Table 'x' not found")));
    assert_eq!(failed.get("error").unwrap().get("message"), Some(&s("Table 'x' not found")));
}

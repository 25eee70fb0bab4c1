use tabularis_dynamodb_plugin::dynamodb::models::ExecuteStatementOutput;
use tabularis_dynamodb_plugin::error::PluginError;
use tabularis_dynamodb_plugin::handlers::crud::{delete_record, insert_record, record_change_response, update_record};
use tabularis_dynamodb_plugin::json::Json;
use tabularis_dynamodb_plugin::rpc::{Action, Step};

fn s(x: &str) -> Json {
    Json::string(x)
}

fn num(n: i64) -> Json {
    Json::Number(n.to_string())
}

fn obj(pairs: Vec<(&str, Json)>) -> Json {
    Json::Object(pairs.into_iter().map(|(k, v)| (k.to_string(), v)).collect())
}

fn statement(step: Step) -> String {
    match step {
        Step::Call(c) => match c.action {
            Action::ChangeRecord(sql) => sql,
            other => panic!("unexpected work {other:?}"),
        },
        Step::Reply(r) => panic!("expected DynamoDB work, got {r:?}"),
    }
}

fn error_message(step: Step) -> String {
    match step {
        Step::Reply(r) => r.get("error").unwrap().get("message").unwrap().as_str().unwrap().to_string(),
        Step::Call(c) => panic!("expected an error, got DynamoDB work {:?}", c.action),
    }
}

#[test]
fn insert_record_builds_a_tuple_literal() {
    let params = obj(vec![
        ("table", s("users")),
        ("data", obj(vec![("id", s("a'b")), ("age", num(30)), ("ok", Json::Bool(true)), ("gone", Json::Null)])),
    ]);
    assert_eq!(
        statement(insert_record(num(1), &params)),
        "INSERT INTO \"users\" VALUE {'id': 'a''b', 'age': 30, 'ok': true, 'gone': NULL}"
    );
}

#[test]
fn insert_record_rejects_bad_params() {
    let params = obj(vec![("table", s("")), ("data", obj(vec![]))]);
    assert_eq!(error_message(insert_record(num(1), &params)), "table must be a non-empty string");
    let params = obj(vec![("table", s("users")), ("data", obj(vec![]))]);
    assert_eq!(error_message(insert_record(num(1), &params)), "data must be a non-empty object");
    let params = obj(vec![("table", s("users")), ("data", obj(vec![("tags", Json::Array(vec![]))]))]);
    assert_eq!(error_message(insert_record(num(1), &params)), "values must be strings, numbers, booleans or null");
}

#[test]
fn update_record_builds_statement() {
    let params = obj(vec![
        ("table", s("users")),
        ("pk_col", s("id")),
        ("pk_val", s("u1")),
        ("col_name", s("email")),
        ("new_val", s("new@b.com")),
    ]);
    assert_eq!(
        statement(update_record(num(1), &params)),
        "UPDATE \"users\" SET \"email\" = 'new@b.com' WHERE \"id\" = 'u1'"
    );
    let params = obj(vec![("table", s("users")), ("pk_col", s("id")), ("pk_val", s("u1"))]);
    assert_eq!(error_message(update_record(num(1), &params)), "col_name and new_val are required");
}

#[test]
fn delete_record_builds_statement() {
    let params = obj(vec![("table", s("users")), ("pk_col", s("id")), ("pk_val", num(12))]);
    assert_eq!(statement(delete_record(num(1), &params)), "DELETE FROM \"users\" WHERE \"id\" = 12");
    let params = obj(vec![("table", s("users")), ("pk_col", s("")), ("pk_val", num(12))]);
    assert_eq!(error_message(delete_record(num(1), &params)), "pk_col and pk_val are required");
}

#[test]
fn record_change_response_counts_one_row() {
    let ok = record_change_response(num(1), Ok(ExecuteStatementOutput { items: vec![], next_token: None }));
    assert_eq!(ok.get("result"), Some(&obj(vec![("affected_rows", num(1))])));
    let failed = record_change_response(num(1), Err(PluginError::internal("ExecuteStatement failed: x")));
    assert_eq!(failed.get("error").unwrap().get("code"), Some(&num(-32603)));
}

use tabularis_dynamodb_plugin::handlers::models::{
    dynamo_item_to_row, ColumnResponse, ExecuteQueryResponse, IndexResponse, Query, QueryMode,
};
use tabularis_dynamodb_plugin::json::Json;

fn s(x: &str) -> Json {
    Json::string(x)
}

fn obj(pairs: Vec<(&str, Json)>) -> Json {
    Json::Object(pairs.into_iter().map(|(k, v)| (k.to_string(), v)).collect())
}

#[test]
fn parse_partiql_query_default() {
    let q = Query::from("SELECT * FROM users".to_string());
    assert_eq!(q.mode, QueryMode::Partiql);
    assert_eq!(q.body, "SELECT * FROM users");
}

#[test]
fn parse_partiql_query_explicit() {
    let q = Query::from("#!partiql\nSELECT * FROM users".to_string());
    assert_eq!(q.mode, QueryMode::Partiql);
    assert_eq!(q.body, "SELECT * FROM users");
}

#[test]
fn parse_scan_query() {
    let q = Query::from("#!scan\nTableName: users\nLimit: 100".to_string());
    assert_eq!(q.mode, QueryMode::Scan);
    assert!(q.body.contains("TableName: users"));
}

#[test]
fn parse_query_mode() {
    let q = Query::from("#!query\nTableName: users\nKeyConditionExpression: id = :id".to_string());
    assert_eq!(q.mode, QueryMode::Query);
    assert!(q.body.contains("KeyConditionExpression"));
}

#[test]
fn parse_get_mode() {
    let q = Query::from("#!get\nTableName: users\nKey: {\"id\": {\"S\": \"abc\"}}".to_string());
    assert_eq!(q.mode, QueryMode::Get);
    assert!(q.body.contains("TableName: users"));
}

#[test]
fn parse_query_trims_header_and_body() {
    let q = Query::from("  \n #!scan \t\n\n  TableName: users  ".to_string());
    assert_eq!(q.mode, QueryMode::Scan);
    assert_eq!(q.body, "TableName: users  ");
    let q = Query::parse("#!get");
    assert_eq!(q.mode, QueryMode::Get);
    assert_eq!(q.body, "");
}

#[test]
fn parse_unknown_header_keeps_whole_text() {
    let q = Query::from("  #!delete\nFROM users".to_string());
    assert_eq!(q.mode, QueryMode::Partiql);
    assert_eq!(q.body, "#!delete\nFROM users");
    let q = Query::from("SELECT *\nFROM users\n".to_string());
    assert_eq!(q.mode, QueryMode::Partiql);
    assert_eq!(q.body, "SELECT *\nFROM users\n");
}

#[test]
fn column_response_creates_correctly() {
    let col = ColumnResponse::new("id".into(), "S", true, false);
    assert_eq!(col.name, "id");
    assert_eq!(col.data_type, "STRING");
    assert!(col.is_pk);
    assert!(!col.is_nullable);
    assert!(!col.is_auto_increment);
}

#[test]
fn column_response_handles_number_type() {
    let col = ColumnResponse::new("age".into(), "N", false, false);
    assert_eq!(col.name, "age");
    assert_eq!(col.data_type, "NUMBER");
    assert!(!col.is_pk);
}

#[test]
fn column_response_to_json_has_every_field() {
    let col = ColumnResponse::new("age".into(), "N", true, true);
    assert_eq!(
        col.to_json(),
        obj(vec![
            ("data_type", s("NUMBER")),
            ("is_auto_increment", Json::Bool(false)),
            ("is_nullable", Json::Bool(false)),
            ("is_pk", Json::Bool(true)),
            ("name", s("age")),
        ])
    );
}

#[test]
fn index_response_to_json_has_every_field() {
    let ix = IndexResponse { name: "email-index".into(), columns: vec!["email".into()], is_unique: false, is_primary: false };
    assert_eq!(
        ix.to_json(),
        obj(vec![
            ("columns", Json::Array(vec![s("email")])),
            ("is_primary", Json::Bool(false)),
            ("is_unique", Json::Bool(false)),
            ("name", s("email-index")),
        ])
    );
}

#[test]
fn dynamo_item_to_row_extracts_values() {
    let item = vec![
        ("id".to_string(), obj(vec![("S", s("user1"))])),
        ("name".to_string(), obj(vec![("S", s("Alice"))])),
        ("age".to_string(), obj(vec![("N", s("30"))])),
    ];
    let columns = vec!["id".into(), "name".into(), "age".into()];
    let row = dynamo_item_to_row(&item, &columns);

    assert_eq!(row.len(), 3);
    assert_eq!(row[0], s("user1"));
    assert_eq!(row[1], s("Alice"));
    assert_eq!(row[2], s("30"));
}

#[test]
fn dynamo_item_to_row_handles_missing_columns() {
    let item = vec![];
    let columns = vec!["missing".into()];
    let row = dynamo_item_to_row(&item, &columns);
    assert_eq!(row[0], Json::Null);
}

#[test]
fn dynamo_item_to_row_untyped_values_are_null() {
    let item = vec![("plain".to_string(), s("x")), ("empty".to_string(), obj(vec![]))];
    let columns = vec!["plain".into(), "empty".into()];
    assert_eq!(dynamo_item_to_row(&item, &columns), vec![Json::Null, Json::Null]);
}

#[test]
fn execute_query_response_empty() {
    let resp = ExecuteQueryResponse::empty();
    assert!(resp.columns.is_empty());
    assert!(resp.rows.is_empty());
    assert_eq!(resp.affected_rows, 0);
}

#[test]
fn full_execute_query_response_serialization() {
    let resp = ExecuteQueryResponse {
        columns: vec!["id".into(), "name".into()],
        rows: vec![vec![s("1"), s("Alice")]],
        affected_rows: 1,
        execution_time_ms: 42,
        truncated: false,
        has_more: false,
        pagination: None,
    };

    let serialized = resp.to_json();
    assert_eq!(serialized.get("columns").unwrap().as_array().unwrap()[0], s("id"));
    assert_eq!(serialized.get("rows").unwrap().as_array().unwrap()[0].as_array().unwrap()[0], s("1"));
    assert_eq!(serialized.get("affected_rows"), Some(&Json::Number("1".to_string())));
    assert_eq!(serialized.get("execution_time_ms"), Some(&Json::Number("42".to_string())));
    assert_eq!(serialized.get("pagination"), Some(&Json::Null));
}

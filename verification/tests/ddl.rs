use tabularis_dynamodb_plugin::handlers::ddl::{
    drop_foreign_key, drop_index, get_add_column_sql, get_alter_column_sql, get_create_foreign_key_sql,
    get_create_index_sql, get_create_table_sql,
};
use tabularis_dynamodb_plugin::json::Json;

fn s(x: &str) -> Json {
    Json::string(x)
}

fn num(n: i64) -> Json {
    Json::Number(n.to_string())
}

fn obj(pairs: Vec<(&str, Json)>) -> Json {
    Json::Object(pairs.into_iter().map(|(k, v)| (k.to_string(), v)).collect())
}

fn statements(result: &Json) -> Vec<String> {
    result
        .get("result")
        .unwrap()
        .as_array()
        .unwrap()
        .iter()
        .map(|v| v.as_str().unwrap().to_string())
        .collect()
}

fn error_message(result: &Json) -> String {
    result.get("error").unwrap().get("message").unwrap().as_str().unwrap().to_string()
}

#[test]
fn get_create_table_sql_with_empty_name_returns_error() {
    let params = obj(vec![("params", obj(vec![])), ("table_name", s(""))]);
    let result = get_create_table_sql(num(1), &params);
    assert!(result.get("error").is_some());
}

#[test]
fn get_create_table_sql_generates_statement() {
    let params = obj(vec![("params", obj(vec![])), ("table_name", s("users"))]);
    let result = get_create_table_sql(num(1), &params);
    let statements = statements(&result);
    assert!(statements[0].contains("CREATE TABLE"));
    assert!(statements[0].contains("users"));
}

#[test]
fn get_create_table_sql_exact_statement() {
    let params = obj(vec![("table_name", s("users"))]);
    let result = get_create_table_sql(num(1), &params);
    assert_eq!(statements(&result), vec!["CREATE TABLE \"users\" (id STRING, PRIMARY KEY (id))".to_string()]);
    let missing = get_create_table_sql(num(2), &obj(vec![("table_name", num(5))]));
    assert_eq!(error_message(&missing), "table_name must be a non-empty string");
    assert_eq!(missing.get("id"), Some(&num(2)));
}

#[test]
fn get_add_column_sql_generates_statement() {
    let params = obj(vec![
        ("params", obj(vec![])),
        ("table", s("users")),
        ("column", obj(vec![("name", s("email")), ("type", s("STRING"))])),
    ]);
    let result = get_add_column_sql(num(1), &params);
    let statements = statements(&result);
    assert!(statements[0].contains("ALTER TABLE"));
    assert!(statements[0].contains("email"));
}

#[test]
fn get_add_column_sql_defaults_type_and_requires_names() {
    let params = obj(vec![("table", s("users")), ("column", obj(vec![("name", s("age"))]))]);
    assert_eq!(
        statements(&get_add_column_sql(num(1), &params)),
        vec!["ALTER TABLE \"users\" ADD COLUMN \"age\" STRING".to_string()]
    );
    let params = obj(vec![("table", s("users"))]);
    assert_eq!(error_message(&get_add_column_sql(num(1), &params)), "table and column name are required");
}

#[test]
fn get_alter_column_sql_renames_or_not() {
    let params = obj(vec![
        ("table", s("users")),
        ("old_column", obj(vec![("name", s("mail"))])),
        ("new_column", obj(vec![("name", s("email"))])),
    ]);
    assert_eq!(
        statements(&get_alter_column_sql(num(1), &params)),
        vec!["ALTER TABLE \"users\" MODIFY \"mail\" NAME \"email\"".to_string()]
    );
    let same = obj(vec![
        ("table", s("users")),
        ("old_column", obj(vec![("name", s("mail"))])),
        ("new_column", obj(vec![("name", s("mail"))])),
    ]);
    assert_eq!(statements(&get_alter_column_sql(num(1), &same)), vec!["// No rename needed".to_string()]);
    let no_new = obj(vec![("table", s("users")), ("old_column", obj(vec![("name", s("mail"))]))]);
    assert_eq!(statements(&get_alter_column_sql(num(1), &no_new)), vec!["// No rename needed".to_string()]);
    let no_old = obj(vec![("table", s("users"))]);
    assert_eq!(error_message(&get_alter_column_sql(num(1), &no_old)), "table and old column name are required");
}

#[test]
fn get_create_index_sql_generates_statement() {
    let params = obj(vec![
        ("params", obj(vec![])),
        ("table", s("users")),
        ("columns", Json::Array(vec![s("email")])),
    ]);
    let result = get_create_index_sql(num(1), &params);
    let statements = statements(&result);
    assert!(statements[0].contains("CREATE INDEX"));
}

#[test]
fn get_create_index_sql_quotes_string_columns_only() {
    let params = obj(vec![
        ("table", s("users")),
        ("columns", Json::Array(vec![s("a"), num(3), s("b")])),
    ]);
    assert_eq!(
        statements(&get_create_index_sql(num(1), &params)),
        vec!["CREATE INDEX ON \"users\" (\"a\", \"b\") INCLUDE ALL".to_string()]
    );
    let params = obj(vec![("table", s("users")), ("columns", Json::Array(vec![num(3)]))]);
    assert_eq!(error_message(&get_create_index_sql(num(1), &params)), "table and columns are required");
}

#[test]
fn drop_index_generates_statement() {
    let params = obj(vec![("params", obj(vec![])), ("table", s("users")), ("index_name", s("email-index"))]);
    let result = drop_index(num(1), &params);
    let statements = statements(&result);
    assert!(statements[0].contains("DROP INDEX"));
}

#[test]
fn drop_index_exact_statement_and_error() {
    let params = obj(vec![("table", s("users")), ("index_name", s("email-index"))]);
    assert_eq!(statements(&drop_index(num(1), &params)), vec!["DROP INDEX \"email-index\" ON \"users\"".to_string()]);
    let params = obj(vec![("table", s("users"))]);
    assert_eq!(error_message(&drop_index(num(1), &params)), "table and index_name are required");
}

#[test]
fn get_create_foreign_key_sql_returns_not_supported() {
    let params = obj(vec![("params", obj(vec![]))]);
    let result = get_create_foreign_key_sql(num(1), &params);
    let statements = statements(&result);
    assert!(statements[0].contains("does not support"));
}

#[test]
fn drop_foreign_key_returns_not_supported() {
    let result = drop_foreign_key(num(4), &Json::Null);
    assert_eq!(statements(&result), vec!["// DynamoDB does not support foreign key constraints".to_string()]);
    assert_eq!(result.get("id"), Some(&num(4)));
}

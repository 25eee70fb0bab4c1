use tabularis_dynamodb_plugin::dynamodb::client::{
    describe_table_failed, describe_table_output, execute_statement_failed, extract_indexes, list_tables_failed,
    ping_failed, table_columns, TableListing,
};
use tabularis_dynamodb_plugin::dynamodb::models::{AttributeDefinition, KeyElement, SecondaryIndex, TableDescription};
use tabularis_dynamodb_plugin::error::ErrorCode;

fn key(name: &str, kind: &str) -> KeyElement {
    KeyElement { attribute_name: name.into(), key_type: kind.into() }
}

fn def(name: &str, kind: &str) -> AttributeDefinition {
    AttributeDefinition { attribute_name: name.into(), attribute_type: kind.into() }
}

fn table() -> TableDescription {
    TableDescription {
        table_name: Some("orders".into()),
        attribute_definitions: vec![def("customer", "S"), def("total", "N")],
        key_schema: vec![key("customer", "HASH"), key("placed_at", "RANGE")],
        global_secondary_indexes: vec![SecondaryIndex { index_name: Some("by-total".into()), key_schema: vec![key("total", "HASH")] }],
        local_secondary_indexes: vec![SecondaryIndex { index_name: None, key_schema: vec![key("customer", "HASH"), key("total", "RANGE")] }],
        table_status: Some("ACTIVE".into()),
        item_count: Some(10),
        table_size_bytes: Some(2048),
    }
}

#[test]
fn table_columns_marks_keys_and_adds_key_only_columns() {
    let t = table();
    let cols = table_columns(&t.attribute_definitions, &t.key_schema);
    let summary: Vec<(String, String, bool, bool)> =
        cols.iter().map(|c| (c.name.clone(), c.data_type.clone(), c.is_pk, c.is_sort_key)).collect();
    assert_eq!(
        summary,
        vec![
            ("customer".to_string(), "STRING".to_string(), true, false),
            ("total".to_string(), "NUMBER".to_string(), false, false),
            ("placed_at".to_string(), "STRING".to_string(), false, true),
        ]
    );
}

#[test]
fn table_columns_adds_each_key_only_column_once() {
    let keys = vec![key("pk", "HASH"), key("pk", "RANGE")];
    let cols = table_columns(&vec![], &keys);
    assert_eq!(cols.len(), 1);
    assert_eq!(cols[0].name, "pk");
    assert!(cols[0].is_pk && cols[0].is_sort_key);
}

#[test]
fn extract_indexes_lists_primary_then_secondaries() {
    let ix = extract_indexes(&table());
    let summary: Vec<(String, Vec<String>, bool, bool)> =
        ix.iter().map(|i| (i.name.clone(), i.columns.clone(), i.is_unique, i.is_primary)).collect();
    assert_eq!(
        summary,
        vec![
            ("primary".to_string(), vec!["customer".to_string(), "placed_at".to_string()], true, true),
            ("by-total".to_string(), vec!["total".to_string()], false, false),
            ("unknown".to_string(), vec!["customer".to_string(), "total".to_string()], false, false),
        ]
    );
    let mut keyless = table();
    keyless.key_schema = vec![];
    keyless.global_secondary_indexes = vec![];
    keyless.local_secondary_indexes = vec![];
    assert!(extract_indexes(&keyless).is_empty());
}

#[test]
fn describe_table_output_keeps_status_and_sizes() {
    let out = describe_table_output("orders", Some(table())).unwrap();
    assert_eq!(out.table_name.as_deref(), Some("orders"));
    assert_eq!(out.columns.len(), 3);
    assert_eq!(out.indexes.len(), 3);
    assert_eq!(out.table_status.as_deref(), Some("ACTIVE"));
    assert_eq!(out.item_count, Some(10));
    assert_eq!(out.table_size_bytes, Some(2048));
}

#[test]
fn describe_table_output_without_description_is_not_found() {
    let err = describe_table_output("ghost", None).unwrap_err();
    assert_eq!(err.code, ErrorCode::InternalError);
    assert_eq!(err.message, "Table 'ghost' not found");
}

#[test]
fn failed_calls_name_the_call() {
    assert_eq!(ping_failed("timeout").message, "DynamoDB ping failed: timeout");
    assert_eq!(list_tables_failed("denied").message, "ListTables failed: denied");
    assert_eq!(describe_table_failed("x").message, "DescribeTable failed: x");
    assert_eq!(execute_statement_failed("y").message, "ExecuteStatement failed: y");
    assert_eq!(execute_statement_failed("y").code, ErrorCode::InternalError);
}

#[test]
fn table_listing_collects_pages_in_order() {
    let mut listing = TableListing::new();
    assert!(!listing.finished);
    assert_eq!(listing.next_start, None);
    listing.absorb(vec!["a".into(), "b".into()], Some("b".into()));
    assert!(!listing.finished);
    assert_eq!(listing.next_start.as_deref(), Some("b"));
    listing.absorb(vec!["c".into()], None);
    assert!(listing.finished);
    assert_eq!(listing.names, vec!["a".to_string(), "b".to_string(), "c".to_string()]);
}

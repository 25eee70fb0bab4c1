# tabularis_dynamodb_plugin

A Tabularis database plugin for Amazon DynamoDB. It speaks JSON-RPC 2.0 over stdio:
one request per line on stdin, one response per line on stdout.

## Layout

- `src/` is the library, written in Verus. Every function there carries a contract and is
  proved against it, except two that are trusted: `rpc::parse_line`, which calls
  `serde_json::from_str` and whose contract only names its result (`parsed_line`), and
  `rpc::document_of`, which turns the parsed `serde_json::Value` into the library's
  document and has no contract. The library's modules:
  - `rpc` parses a request line (through serde_json), dispatches the request to its
    handler and builds JSON-RPC responses; handling a line yields either a reply or a
    piece of DynamoDB work (`Step`);
  - `handlers` holds the method handlers (metadata, query execution, record changes, DDL
    snippets) and the shapes of their responses;
  - `dynamodb` holds the models of tables, columns, indexes and items, the conversion of
    DynamoDB results, and the configuration cache with its time to live;
  - `json`, `text`, `error` and `utils` hold the JSON document type, string helpers, the
    error codes and parameter extraction.
- `app/` is the executable: the tokio worker pool over stdin and stdout, the AWS SDK
  calls, and the conversions between the SDK's types and the library's, and of responses
  to serde_json for writing.
- `tests/` runs the library on concrete requests.

## Methods

`initialize`, `ping`, `test_connection`, `get_databases`, `get_schemas`, `get_tables`,
`get_columns`, `get_indexes`, `get_foreign_keys`, `get_routines`, `get_views`,
`execute_query` (the body runs as a PartiQL statement, whichever of the `#!partiql`,
`#!scan`, `#!query` and `#!get` headers it carries),
`insert_record`, `update_record`, `delete_record`, and the DDL snippet methods
`get_create_table_sql`, `get_add_column_sql`, `get_alter_column_sql`,
`get_create_index_sql`, `drop_index`, `get_create_foreign_key_sql`, `drop_foreign_key`.
Any other method is answered with a method-not-found error.

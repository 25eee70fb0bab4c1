//! JSON-RPC dispatch and response helpers.
use vstd::prelude::*;

use crate::dynamodb::pool::{ConnectionParams, ConnectionView};
use crate::error::{error_text, ErrorCode, PluginError};
use crate::handlers::models::{Query, QueryMode};
use crate::handlers::{crud, ddl, metadata, query};
use crate::json::{json_get, json_get_str, or_empty_chars, Json, JsonV};
use crate::text::str_eq;

verus! {

/// The numeric code of an error, as JSON number text.
pub open spec fn code_text(code: ErrorCode) -> Seq<char> {
    match code {
        ErrorCode::ParseError => "-32700"@,
        ErrorCode::InvalidRequest => "-32600"@,
        ErrorCode::MethodNotFound => "-32601"@,
        ErrorCode::InvalidParams => "-32602"@,
        ErrorCode::InternalError => "-32603"@,
    }
}

/// A successful JSON-RPC response; members in the order serde_json keeps them (by name).
pub open spec fn ok_json(id: JsonV, result: JsonV) -> JsonV {
    JsonV::Object(seq![("id"@, id), ("jsonrpc"@, JsonV::Str("2.0"@)), ("result"@, result)])
}

/// A JSON-RPC error response; members in the order serde_json keeps them (by name).
pub open spec fn error_json(id: JsonV, code: ErrorCode, message: Seq<char>) -> JsonV {
    JsonV::Object(
        seq![
            ("error"@, JsonV::Object(seq![("code"@, JsonV::Number(code_text(code))), ("message"@, JsonV::Str(message))])),
            ("id"@, id),
            ("jsonrpc"@, JsonV::Str("2.0"@)),
        ],
    )
}

/// The message for a method that the plugin does not offer.
pub open spec fn not_implemented_message(method: Seq<char>) -> Seq<char> {
    "method '"@ + method + "' is not implemented by this plugin yet"@
}

fn code_number(code: ErrorCode) -> (r: Json)
    ensures
        r@ == JsonV::Number(code_text(code)),
{
    let text = match code {
        ErrorCode::ParseError => "-32700",
        ErrorCode::InvalidRequest => "-32600",
        ErrorCode::MethodNotFound => "-32601",
        ErrorCode::InvalidParams => "-32602",
        ErrorCode::InternalError => "-32603",
    };
    Json::Number(text.to_owned())
}

/// `{"jsonrpc": "2.0", "result": result, "id": id}`.
pub fn ok_response(id: Json, result: Json) -> (r: Json)
    ensures
        r@ == ok_json(id@, result@),
{
    let r = Json::object(vec![
        ("id".to_owned(), id),
        ("jsonrpc".to_owned(), Json::string("2.0")),
        ("result".to_owned(), result),
    ]);
    proof {
        assert(r@->Object_0 =~= ok_json(id@, result@)->Object_0);
    }
    r
}

/// `{"jsonrpc": "2.0", "error": {"code": code, "message": message}, "id": id}`.
pub fn error_response(id: Json, code: ErrorCode, message: &str) -> (r: Json)
    ensures
        r@ == error_json(id@, code, message@),
{
    let err = Json::object(vec![
        ("code".to_owned(), code_number(code)),
        ("message".to_owned(), Json::string(message)),
    ]);
    let r = Json::object(vec![
        ("error".to_owned(), err),
        ("id".to_owned(), id),
        ("jsonrpc".to_owned(), Json::string("2.0")),
    ]);
    proof {
        assert(err@->Object_0 =~= error_json(id@, code, message@)->Object_0[0].1->Object_0);
        assert(r@->Object_0 =~= error_json(id@, code, message@)->Object_0);
    }
    r
}

/// The method-not-found response for `method`.
pub fn not_implemented(id: Json, method: &str) -> (r: Json)
    ensures
        r@ == error_json(id@, ErrorCode::MethodNotFound, not_implemented_message(method@)),
{
    let mut msg = String::from_str("method '");
    msg.append(method);
    msg.append("' is not implemented by this plugin yet");
    error_response(id, ErrorCode::MethodNotFound, msg.as_str())
}


/// The DynamoDB work that a request needs.
#[derive(Debug)]
pub enum Action {
    /// List one table (`ping`, `test_connection`).
    TestConnection,
    /// List all tables (`get_tables`).
    ListTables,
    /// Describe a table for its columns (`get_columns`).
    DescribeColumns(String),
    /// Describe a table for its indexes (`get_indexes`).
    DescribeIndexes(String),
    /// Run a query's body as a PartiQL statement, whichever mode its header names
    /// (`execute_query`).
    ExecuteQuery(Query),
    /// Run a PartiQL statement that changes one record (`insert_record`, `update_record`,
    /// `delete_record`).
    ChangeRecord(String),
}

/// The view of an [`Action`].
pub enum ActionV {
    TestConnection,
    ListTables,
    DescribeColumns(Seq<char>),
    DescribeIndexes(Seq<char>),
    ExecuteQuery(QueryMode, Seq<char>),
    ChangeRecord(Seq<char>),
}

impl View for Action {
    type V = ActionV;

    open spec fn view(&self) -> ActionV {
        match self {
            Action::TestConnection => ActionV::TestConnection,
            Action::ListTables => ActionV::ListTables,
            Action::DescribeColumns(t) => ActionV::DescribeColumns(t@),
            Action::DescribeIndexes(t) => ActionV::DescribeIndexes(t@),
            Action::ExecuteQuery(q) => ActionV::ExecuteQuery(q.mode, q.body@),
            Action::ChangeRecord(s) => ActionV::ChangeRecord(s@),
        }
    }
}

/// A request that needs a DynamoDB client: its id, the connection settings and the work.
#[derive(Debug)]
pub struct ServiceCall {
    pub id: Json,
    pub connection: ConnectionParams,
    pub action: Action,
}

/// What handling a request comes to: a response, or DynamoDB work to do first.
#[derive(Debug)]
pub enum Step {
    Reply(Json),
    Call(ServiceCall),
}

/// The view of a [`Step`].
pub enum StepV {
    Reply(JsonV),
    Call(JsonV, ConnectionView, ActionV),
}

impl View for Step {
    type V = StepV;

    open spec fn view(&self) -> StepV {
        match self {
            Step::Reply(r) => StepV::Reply(r@),
            Step::Call(c) => StepV::Call(c.id@, c.connection@, c.action@),
        }
    }
}

/// The response when no DynamoDB client could be built: an internal error carrying the
/// error's text; `ping`, `test_connection` and `execute_query` answer it with a `null` id,
/// the other handlers with the request's id.
pub open spec fn client_failure_json(id: JsonV, action: ActionV, code: ErrorCode, message: Seq<char>) -> JsonV {
    let text = error_text(code, message);
    match action {
        ActionV::TestConnection => error_json(JsonV::Null, ErrorCode::InternalError, text),
        ActionV::ExecuteQuery(_, _) => error_json(JsonV::Null, ErrorCode::InternalError, text),
        _ => error_json(id, ErrorCode::InternalError, text),
    }
}

impl ServiceCall {
    /// The response when building the DynamoDB client failed (see `client_failure_json`).
    pub fn client_failed(self, err: &PluginError) -> (r: Json)
        ensures
            r@ == client_failure_json(self.id@, self.action@, err.code, err.message@),
    {
        let text = err.display_string();
        match self.action {
            Action::TestConnection => error_response(Json::Null, ErrorCode::InternalError, text.as_str()),
            Action::ExecuteQuery(_) => error_response(Json::Null, ErrorCode::InternalError, text.as_str()),
            _ => error_response(self.id, ErrorCode::InternalError, text.as_str()),
        }
    }
}


/// The step for a method and its parameters: what each handler does, and the
/// method-not-found error for any other method.
pub open spec fn method_step(id: JsonV, method: Seq<char>, params: JsonV) -> StepV {
    if method == "initialize"@ {
        StepV::Reply(ok_json(id, JsonV::Object(seq![("success"@, JsonV::Bool(true))])))
    } else if method == "ping"@ || method == "test_connection"@ {
        query::test_connection_step(id, params)
    } else if method == "get_tables"@ {
        metadata::tables_step(id, params)
    } else if method == "get_columns"@ {
        metadata::describe_step(id, params, true)
    } else if method == "get_databases"@ {
        StepV::Reply(ok_json(id, JsonV::Array(seq![JsonV::Object(seq![("name"@, JsonV::Str("default"@))])])))
    } else if method == "get_schemas"@ || method == "get_routines"@ || method == "get_views"@
        || method == "get_foreign_keys"@ {
        StepV::Reply(ok_json(id, JsonV::Array(Seq::empty())))
    } else if method == "get_indexes"@ {
        metadata::describe_step(id, params, false)
    } else if method == "execute_query"@ {
        query::execute_query_step(id, params)
    } else if method == "insert_record"@ {
        crud::insert_record_step(id, params)
    } else if method == "update_record"@ {
        crud::update_record_step(id, params)
    } else if method == "delete_record"@ {
        crud::delete_record_step(id, params)
    } else {
        ddl_step(id, method, params)
    }
}

/// The step for the DDL methods, and the method-not-found error for any other method.
pub open spec fn ddl_step(id: JsonV, method: Seq<char>, params: JsonV) -> StepV {
    if method == "get_create_table_sql"@ {
        StepV::Reply(ddl::create_table_response(id, params))
    } else if method == "get_add_column_sql"@ {
        StepV::Reply(ddl::add_column_response(id, params))
    } else if method == "get_alter_column_sql"@ {
        StepV::Reply(ddl::alter_column_response(id, params))
    } else if method == "get_create_index_sql"@ {
        StepV::Reply(ddl::create_index_response(id, params))
    } else if method == "get_create_foreign_key_sql"@ {
        StepV::Reply(ddl::no_foreign_keys_json(id))
    } else if method == "drop_index"@ {
        StepV::Reply(ddl::drop_index_response(id, params))
    } else if method == "drop_foreign_key"@ {
        StepV::Reply(ddl::no_foreign_keys_json(id))
    } else {
        StepV::Reply(error_json(id, ErrorCode::MethodNotFound, not_implemented_message(method)))
    }
}

/// The member `key` of a request, `null` when missing.
pub open spec fn member_or_null(request: JsonV, key: Seq<char>) -> JsonV {
    match json_get(request, key) {
        Some(v) => v,
        None => JsonV::Null,
    }
}

/// The step for a parsed request: its `id` and `params` (each `null` when missing) and its
/// string `method` (empty when missing) go to `method_step`.
pub open spec fn request_step(request: JsonV) -> StepV {
    method_step(
        member_or_null(request, "id"@),
        or_empty_chars(json_get_str(request, "method"@)),
        member_or_null(request, "params"@),
    )
}

/// The step for a request line, given what parsing it came to: a parse error is answered
/// with a `null` id.
pub open spec fn line_step(parsed: Result<JsonV, Seq<char>>) -> StepV {
    match parsed {
        Ok(request) => request_step(request),
        Err(msg) => StepV::Reply(error_json(JsonV::Null, ErrorCode::ParseError, "parse error: "@ + msg)),
    }
}

fn member_or_null_of(request: &Json, key: &str) -> (r: Json)
    ensures
        r@ == member_or_null(request@, key@),
{
    match request.get(key) {
        Some(v) => v.duplicate(),
        None => Json::Null,
    }
}

fn ddl_dispatch(id: Json, method: &str, params: &Json) -> (r: Step)
    ensures
        r@ == ddl_step(id@, method@, params@),
{
    if str_eq(method, "get_create_table_sql") {
        Step::Reply(ddl::get_create_table_sql(id, params))
    } else if str_eq(method, "get_add_column_sql") {
        Step::Reply(ddl::get_add_column_sql(id, params))
    } else if str_eq(method, "get_alter_column_sql") {
        Step::Reply(ddl::get_alter_column_sql(id, params))
    } else if str_eq(method, "get_create_index_sql") {
        Step::Reply(ddl::get_create_index_sql(id, params))
    } else if str_eq(method, "get_create_foreign_key_sql") {
        Step::Reply(ddl::get_create_foreign_key_sql(id, params))
    } else if str_eq(method, "drop_index") {
        Step::Reply(ddl::drop_index(id, params))
    } else if str_eq(method, "drop_foreign_key") {
        Step::Reply(ddl::drop_foreign_key(id, params))
    } else {
        Step::Reply(not_implemented(id, method))
    }
}

fn empty_list() -> (r: Json)
    ensures
        r@ == JsonV::Array(Seq::empty()),
{
    let r = Json::array(Vec::new());
    assert(r@->Array_0 =~= Seq::<JsonV>::empty());
    r
}

fn default_database_list() -> (r: Json)
    ensures
        r@ == JsonV::Array(seq![JsonV::Object(seq![("name"@, JsonV::Str("default"@))])]),
{
    let db = Json::object(vec![("name".to_owned(), Json::string("default"))]);
    let r = Json::array(vec![db]);
    proof {
        assert(db@->Object_0 =~= seq![("name"@, JsonV::Str("default"@))]);
        assert(r@->Array_0 =~= seq![JsonV::Object(seq![("name"@, JsonV::Str("default"@))])]);
    }
    r
}

/// Dispatches one method (see `method_step`).
pub fn dispatch(id: Json, method: &str, params: &Json) -> (r: Step)
    ensures
        r@ == method_step(id@, method@, params@),
{
    if str_eq(method, "initialize") {
        Step::Reply(ok_response(id, query::success_json()))
    } else if str_eq(method, "ping") {
        query::ping(id, params)
    } else if str_eq(method, "test_connection") {
        query::test_connection(id, params)
    } else if str_eq(method, "get_tables") {
        metadata::get_tables(id, params)
    } else if str_eq(method, "get_columns") {
        metadata::get_columns(id, params)
    } else if str_eq(method, "get_databases") {
        Step::Reply(ok_response(id, default_database_list()))
    } else if str_eq(method, "get_schemas") || str_eq(method, "get_routines") || str_eq(method, "get_views") {
        Step::Reply(ok_response(id, empty_list()))
    } else if str_eq(method, "get_foreign_keys") {
        Step::Reply(metadata::get_foreign_keys(id, params))
    } else if str_eq(method, "get_indexes") {
        metadata::get_indexes(id, params)
    } else if str_eq(method, "execute_query") {
        query::execute_query(id, params)
    } else if str_eq(method, "insert_record") {
        crud::insert_record(id, params)
    } else if str_eq(method, "update_record") {
        crud::update_record(id, params)
    } else if str_eq(method, "delete_record") {
        crud::delete_record(id, params)
    } else {
        ddl_dispatch(id, method, params)
    }
}

/// Handles one JSON-RPC line, given what parsing it as JSON came to: the request, or the
/// parser's error text (see `line_step`). Never panics: parse errors and unknown methods
/// are answered as JSON-RPC errors.
pub fn handle_line(parsed: Result<Json, String>) -> (r: Step)
    ensures
        r@ == line_step(match parsed { Ok(j) => Ok(j@), Err(e) => Err(e@) }),
{
    match parsed {
        Ok(request) => {
            let id = member_or_null_of(&request, "id");
            let params = member_or_null_of(&request, "params");
            let method = match request.get_str("method") {
                Some(m) => m,
                None => {
                    proof {
                        reveal_strlit("");
                        assert(""@ =~= Seq::<char>::empty());
                    }
                    ""
                },
            };
            proof {
                assert(method@ == or_empty_chars(json_get_str(request@, "method"@)));
            }
            dispatch(id, method, &params)
        },
        Err(msg) => {
            let mut text = String::from_str("parse error: ");
            text.append(msg.as_str());
            Step::Reply(error_response(Json::Null, ErrorCode::ParseError, text.as_str()))
        },
    }
}

/// What parsing a line as JSON comes to, as `serde_json::from_str::<serde_json::Value>`
/// gives it: the document (numbers as their text, object members in the map's order), or
/// the parser's error text.
pub uninterp spec fn parsed_line(text: Seq<char>) -> Result<JsonV, Seq<char>>;

#[verifier::external_type_specification]
#[verifier::external_body]
pub struct ExJsonValue(serde_json::Value);

/// A `serde_json::Value` as the library's document, one value for one value: a number
/// keeps its text; members keep the map's order.
#[verifier::external_body]
fn document_of(v: &serde_json::Value) -> Json {
    match v {
        serde_json::Value::Null => Json::Null,
        serde_json::Value::Bool(b) => Json::Bool(*b),
        serde_json::Value::Number(n) => Json::Number(n.to_string()),
        serde_json::Value::String(t) => Json::Str(t.clone()),
        serde_json::Value::Array(a) => Json::Array(a.iter().map(document_of).collect()),
        serde_json::Value::Object(m) => Json::Object(m.iter().map(|(k, x)| (k.clone(), document_of(x))).collect()),
    }
}

/// Parses a request line with `serde_json::from_str::<serde_json::Value>`: the document
/// (see `parsed_line`), or the text of serde_json's error.
#[verifier::external_body]
fn parse_line(line: &str) -> (r: Result<Json, String>)
    ensures
        match r {
            Ok(j) => parsed_line(line@) == Ok::<JsonV, Seq<char>>(j@),
            Err(e) => parsed_line(line@) == Err::<JsonV, Seq<char>>(e@),
        },
{
    match serde_json::from_str::<serde_json::Value>(line) {
        Ok(v) => Ok(document_of(&v)),
        Err(e) => Err(e.to_string()),
    }
}

/// Handles one JSON-RPC line as read: parses it, then answers as `handle_line` does.
pub fn handle_request_line(line: &str) -> (r: Step)
    ensures
        r@ == line_step(parsed_line(line@)),
{
    let parsed = parse_line(line);
    handle_line(parsed)
}

/// Whether `r` is a JSON-RPC response (a result or an error) that carries `id`.
pub open spec fn responds_to(r: JsonV, id: JsonV) -> bool {
    ||| exists|x: JsonV| r == #[trigger] ok_json(id, x)
    ||| exists|c: ErrorCode, m: Seq<char>| r == #[trigger] error_json(id, c, m)
}

/// Whether `r` answers a request that parsed, for `id`: a result, or an error whose code is
/// not the parse error's.
pub open spec fn answers(r: JsonV, id: JsonV) -> bool {
    ||| exists|x: JsonV| r == #[trigger] ok_json(id, x)
    ||| exists|c: ErrorCode, m: Seq<char>| c != ErrorCode::ParseError && r == #[trigger] error_json(id, c, m)
}

/// Whether a step answers the request `id`: a reply answers it (see `answers`), and DynamoDB
/// work keeps it for the response that follows.
pub open spec fn step_answers(step: StepV, id: JsonV) -> bool {
    match step {
        StepV::Reply(r) => answers(r, id),
        StepV::Call(call_id, _, _) => call_id == id,
    }
}

proof fn lemma_ok_responds(id: JsonV, x: JsonV)
    ensures
        answers(ok_json(id, x), id),
        responds_to(ok_json(id, x), id),
{
    assert(ok_json(id, x) == ok_json(id, x));
}

proof fn lemma_error_responds(id: JsonV, c: ErrorCode, m: Seq<char>)
    ensures
        c != ErrorCode::ParseError ==> answers(error_json(id, c, m), id),
        responds_to(error_json(id, c, m), id),
{
    assert(error_json(id, c, m) == error_json(id, c, m));
}

proof fn lemma_ddl_step_answers(id: JsonV, method: Seq<char>, params: JsonV)
    ensures
        step_answers(ddl_step(id, method, params), id),
{
    reveal(ddl::create_table_response);
    reveal(ddl::add_column_response);
    reveal(ddl::alter_column_response);
    reveal(ddl::create_index_response);
    reveal(ddl::drop_index_response);
    let p = params;
    let table = crate::json::json_str_or_empty(p, "table"@);
    if method == "get_create_table_sql"@ {
        let t = crate::json::json_str_or_empty(p, "table_name"@);
        if t.len() == 0 {
            lemma_error_responds(id, ErrorCode::InvalidParams, "table_name must be a non-empty string"@);
        } else {
            lemma_ok_responds(id, JsonV::Array(seq![JsonV::Str(ddl::create_table_sql(t))]));
        }
    } else if method == "get_add_column_sql"@ {
        let name = or_empty_chars(crate::json::json_get_path_str(p, "column"@, "name"@));
        let column_type = match crate::json::json_get_path_str(p, "column"@, "type"@) {
            Some(t) => t,
            None => "STRING"@,
        };
        if table.len() == 0 || name.len() == 0 {
            lemma_error_responds(id, ErrorCode::InvalidParams, "table and column name are required"@);
        } else {
            lemma_ok_responds(id, JsonV::Array(seq![JsonV::Str(ddl::add_column_sql(table, name, column_type))]));
        }
    } else if method == "get_alter_column_sql"@ {
        let old_name = or_empty_chars(crate::json::json_get_path_str(p, "old_column"@, "name"@));
        let new_name = or_empty_chars(crate::json::json_get_path_str(p, "new_column"@, "name"@));
        if table.len() == 0 || old_name.len() == 0 {
            lemma_error_responds(id, ErrorCode::InvalidParams, "table and old column name are required"@);
        } else if old_name != new_name && new_name.len() != 0 {
            lemma_ok_responds(id, JsonV::Array(seq![JsonV::Str(ddl::rename_column_sql(table, old_name, new_name))]));
        } else {
            lemma_ok_responds(id, JsonV::Array(seq![JsonV::Str("// No rename needed"@)]));
        }
    } else if method == "get_create_index_sql"@ {
        let columns = ddl::index_columns(p);
        if table.len() == 0 || columns.len() == 0 {
            lemma_error_responds(id, ErrorCode::InvalidParams, "table and columns are required"@);
        } else {
            lemma_ok_responds(id, JsonV::Array(seq![JsonV::Str(ddl::create_index_sql(table, columns))]));
        }
    } else if method == "get_create_foreign_key_sql"@ || method == "drop_foreign_key"@ {
        lemma_ok_responds(id, JsonV::Array(seq![JsonV::Str("// DynamoDB does not support foreign key constraints"@)]));
    } else if method == "drop_index"@ {
        let index_name = crate::json::json_str_or_empty(p, "index_name"@);
        if table.len() == 0 || index_name.len() == 0 {
            lemma_error_responds(id, ErrorCode::InvalidParams, "table and index_name are required"@);
        } else {
            lemma_ok_responds(id, JsonV::Array(seq![JsonV::Str(ddl::drop_index_sql(table, index_name))]));
        }
    } else {
        lemma_error_responds(id, ErrorCode::MethodNotFound, not_implemented_message(method));
    }
}

proof fn lemma_describe_answers(id: JsonV, params: JsonV, for_columns: bool)
    ensures
        step_answers(metadata::describe_step(id, params, for_columns), id),
{
    lemma_error_responds(id, ErrorCode::InvalidParams, "table must be a non-empty string"@);
}

proof fn lemma_execute_query_answers(id: JsonV, params: JsonV)
    ensures
        step_answers(query::execute_query_step(id, params), id),
{
    lemma_error_responds(id, ErrorCode::InvalidParams, "query must be a non-empty string"@);
}

proof fn lemma_insert_answers(id: JsonV, params: JsonV)
    ensures
        step_answers(crud::insert_record_step(id, params), id),
{
    lemma_error_responds(id, ErrorCode::InvalidParams, crud::table_message());
    lemma_error_responds(id, ErrorCode::InvalidParams, "data must be a non-empty object"@);
    lemma_error_responds(id, ErrorCode::InvalidParams, crud::value_message());
}

proof fn lemma_update_answers(id: JsonV, params: JsonV)
    ensures
        step_answers(crud::update_record_step(id, params), id),
{
    reveal(crud::update_record_step);
    lemma_error_responds(id, ErrorCode::InvalidParams, crud::table_message());
    lemma_error_responds(id, ErrorCode::InvalidParams, "pk_col and pk_val are required"@);
    lemma_error_responds(id, ErrorCode::InvalidParams, "col_name and new_val are required"@);
}

proof fn lemma_delete_answers(id: JsonV, params: JsonV)
    ensures
        step_answers(crud::delete_record_step(id, params), id),
{
    lemma_error_responds(id, ErrorCode::InvalidParams, crud::table_message());
    lemma_error_responds(id, ErrorCode::InvalidParams, "pk_col and pk_val are required"@);
}

/// Every method step answers the request's `id`.
proof fn lemma_method_step_answers(id: JsonV, method: Seq<char>, params: JsonV)
    ensures
        step_answers(method_step(id, method, params), id),
{
    if method == "initialize"@ {
        lemma_ok_responds(id, JsonV::Object(seq![("success"@, JsonV::Bool(true))]));
    } else if method == "ping"@ || method == "test_connection"@ {
    } else if method == "get_tables"@ {
    } else if method == "get_columns"@ {
        lemma_describe_answers(id, params, true);
    } else if method == "get_databases"@ {
        lemma_ok_responds(id, JsonV::Array(seq![JsonV::Object(seq![("name"@, JsonV::Str("default"@))])]));
    } else if method == "get_schemas"@ || method == "get_routines"@ || method == "get_views"@
        || method == "get_foreign_keys"@ {
        lemma_ok_responds(id, JsonV::Array(Seq::empty()));
    } else if method == "get_indexes"@ {
        lemma_describe_answers(id, params, false);
    } else if method == "execute_query"@ {
        lemma_execute_query_answers(id, params);
    } else if method == "insert_record"@ {
        lemma_insert_answers(id, params);
    } else if method == "update_record"@ {
        lemma_update_answers(id, params);
    } else if method == "delete_record"@ {
        lemma_delete_answers(id, params);
    } else {
        lemma_ddl_step_answers(id, method, params);
    }
}

/// Every request that parses is answered for its own `id` (`null` when it has none):
/// either at once, with a JSON-RPC result or an error other than the parse error, carrying
/// that id, or after DynamoDB work that keeps the id for its response.
pub proof fn lemma_requests_are_answered(request: JsonV)
    ensures
        step_answers(request_step(request), member_or_null(request, "id"@)),
{
    lemma_method_step_answers(
        member_or_null(request, "id"@),
        or_empty_chars(json_get_str(request, "method"@)),
        member_or_null(request, "params"@),
    );
}

/// A line that does not parse is answered with a parse error carrying a `null` id and
/// serde_json's error text.
pub proof fn lemma_unparsable_lines_are_parse_errors(msg: Seq<char>)
    ensures
        line_step(Err(msg)) == StepV::Reply(error_json(JsonV::Null, ErrorCode::ParseError, "parse error: "@ + msg)),
{
}


/// The `code` of a response's `error` member.
pub open spec fn error_code(r: JsonV) -> Option<JsonV> {
    match json_get(r, "error"@) {
        Some(e) => json_get(e, "code"@),
        None => None,
    }
}

/// A successful response carries `"jsonrpc": "2.0"`, its id and its result, and no error.
pub proof fn lemma_ok_shape(id: JsonV, x: JsonV)
    ensures
        json_get(ok_json(id, x), "jsonrpc"@) == Some(JsonV::Str("2.0"@)),
        json_get(ok_json(id, x), "id"@) == Some(id),
        json_get(ok_json(id, x), "result"@) == Some(x),
        json_get(ok_json(id, x), "error"@) is None,
{
    reveal_strlit("id");
    reveal_strlit("jsonrpc");
    reveal_strlit("result");
    reveal_strlit("error");
    let ms = ok_json(id, x)->Object_0;
    assert(ms[0].0 == "id"@ && ms[1].0 == "jsonrpc"@ && ms[2].0 == "result"@);
    assert("id"@.len() == 2 && "jsonrpc"@.len() == 7 && "result"@.len() == 6 && "error"@.len() == 5);
    crate::json::lemma_member_first(ms, 0, "id"@);
    crate::json::lemma_member_first(ms, 1, "jsonrpc"@);
    crate::json::lemma_member_first(ms, 2, "result"@);
    crate::json::lemma_member_missing(ms, "error"@);
}

proof fn lemma_error_shape(id: JsonV, c: ErrorCode, m: Seq<char>)
    ensures
        json_get(error_json(id, c, m), "jsonrpc"@) == Some(JsonV::Str("2.0"@)),
        json_get(error_json(id, c, m), "id"@) == Some(id),
        json_get(error_json(id, c, m), "result"@) is None,
        json_get(error_json(id, c, m), "error"@) is Some,
        error_code(error_json(id, c, m)) == Some(JsonV::Number(code_text(c))),
{
    reveal_strlit("id");
    reveal_strlit("jsonrpc");
    reveal_strlit("result");
    reveal_strlit("error");
    reveal_strlit("code");
    let ms = error_json(id, c, m)->Object_0;
    let inner = ms[0].1->Object_0;
    assert(ms[0].0 == "error"@ && ms[1].0 == "id"@ && ms[2].0 == "jsonrpc"@);
    assert(inner[0].0 == "code"@);
    assert("id"@.len() == 2 && "jsonrpc"@.len() == 7 && "result"@.len() == 6 && "error"@.len() == 5);
    crate::json::lemma_member_first(ms, 0, "error"@);
    crate::json::lemma_member_first(ms, 1, "id"@);
    crate::json::lemma_member_first(ms, 2, "jsonrpc"@);
    crate::json::lemma_member_missing(ms, "result"@);
    crate::json::lemma_member_first(inner, 0, "code"@);
}

proof fn lemma_parse_code_distinct(c: ErrorCode)
    ensures
        (code_text(c) == code_text(ErrorCode::ParseError)) == (c == ErrorCode::ParseError),
{
    reveal_strlit("-32700");
    reveal_strlit("-32600");
    reveal_strlit("-32601");
    reveal_strlit("-32602");
    reveal_strlit("-32603");
    if c != ErrorCode::ParseError {
        assert(code_text(c)[3] != code_text(ErrorCode::ParseError)[3]);
    }
}

/// The id that the answer to a line carries: the request's `id` (`null` when missing), and
/// `null` for a line that did not parse.
pub open spec fn line_id(parsed: Result<JsonV, Seq<char>>) -> JsonV {
    match parsed {
        Ok(request) => member_or_null(request, "id"@),
        Err(_) => JsonV::Null,
    }
}

/// Every line is answered (`handle_line`, `handle_request_line`): a reply is an object with
/// `"jsonrpc": "2.0"`, exactly one of `result` and `error`, and the line's id (see
/// `line_id`); its error code is the parse error's (-32700) exactly when the line did not
/// parse. DynamoDB work comes only from a line that parsed, and keeps its id.
pub proof fn lemma_lines_are_answered(parsed: Result<JsonV, Seq<char>>)
    ensures
        match line_step(parsed) {
            StepV::Reply(r) => {
                &&& json_get(r, "jsonrpc"@) == Some(JsonV::Str("2.0"@))
                &&& (json_get(r, "result"@) is Some) != (json_get(r, "error"@) is Some)
                &&& json_get(r, "id"@) == Some(line_id(parsed))
                &&& (error_code(r) == Some(JsonV::Number(code_text(ErrorCode::ParseError)))) == (parsed is Err)
            },
            StepV::Call(id, _, _) => parsed is Ok && id == line_id(parsed),
        },
{
    match parsed {
        Err(msg) => {
            lemma_error_shape(JsonV::Null, ErrorCode::ParseError, "parse error: "@ + msg);
        },
        Ok(request) => {
            lemma_requests_are_answered(request);
            let id = member_or_null(request, "id"@);
            if let StepV::Reply(r) = line_step(parsed) {
                if exists|x: JsonV| r == #[trigger] ok_json(id, x) {
                    let x = choose|x: JsonV| r == #[trigger] ok_json(id, x);
                    lemma_ok_shape(id, x);
                } else {
                    let (c, m) = choose|c: ErrorCode, m: Seq<char>| c != ErrorCode::ParseError && r == #[trigger] error_json(id, c, m);
                    lemma_error_shape(id, c, m);
                    lemma_parse_code_distinct(c);
                }
            }
        },
    }
}

/// The methods that the plugin offers.
pub open spec fn known_method(m: Seq<char>) -> bool {
    ||| m == "initialize"@ || m == "ping"@ || m == "test_connection"@
    ||| m == "get_tables"@ || m == "get_columns"@ || m == "get_databases"@ || m == "get_schemas"@
    ||| m == "get_routines"@ || m == "get_views"@ || m == "get_foreign_keys"@ || m == "get_indexes"@
    ||| m == "execute_query"@ || m == "insert_record"@ || m == "update_record"@ || m == "delete_record"@
    ||| m == "get_create_table_sql"@ || m == "get_add_column_sql"@ || m == "get_alter_column_sql"@
    ||| m == "get_create_index_sql"@ || m == "get_create_foreign_key_sql"@ || m == "drop_index"@
    ||| m == "drop_foreign_key"@
}

/// A method that the plugin does not offer is answered with a method-not-found error
/// that names it.
pub proof fn lemma_unknown_methods_not_found(id: JsonV, method: Seq<char>, params: JsonV)
    requires
        !known_method(method),
    ensures
        method_step(id, method, params) == StepV::Reply(
            error_json(id, ErrorCode::MethodNotFound, not_implemented_message(method)),
        ),
{
}

/// Each method that a handler serves is dispatched to that handler: the step for the
/// method is exactly the one that the handler's own contract gives.
pub proof fn lemma_methods_reach_handlers(id: JsonV, params: JsonV)
    ensures
        method_step(id, "ping"@, params) == query::test_connection_step(id, params),
        method_step(id, "test_connection"@, params) == query::test_connection_step(id, params),
        method_step(id, "get_tables"@, params) == metadata::tables_step(id, params),
        method_step(id, "get_columns"@, params) == metadata::describe_step(id, params, true),
        method_step(id, "get_indexes"@, params) == metadata::describe_step(id, params, false),
        method_step(id, "get_foreign_keys"@, params) == StepV::Reply(ok_json(id, JsonV::Array(Seq::empty()))),
        method_step(id, "execute_query"@, params) == query::execute_query_step(id, params),
        method_step(id, "insert_record"@, params) == crud::insert_record_step(id, params),
        method_step(id, "update_record"@, params) == crud::update_record_step(id, params),
        method_step(id, "delete_record"@, params) == crud::delete_record_step(id, params),
        method_step(id, "get_create_table_sql"@, params) == StepV::Reply(ddl::create_table_response(id, params)),
        method_step(id, "get_add_column_sql"@, params) == StepV::Reply(ddl::add_column_response(id, params)),
        method_step(id, "get_alter_column_sql"@, params) == StepV::Reply(ddl::alter_column_response(id, params)),
        method_step(id, "get_create_index_sql"@, params) == StepV::Reply(ddl::create_index_response(id, params)),
        method_step(id, "get_create_foreign_key_sql"@, params) == StepV::Reply(ddl::no_foreign_keys_json(id)),
        method_step(id, "drop_index"@, params) == StepV::Reply(ddl::drop_index_response(id, params)),
        method_step(id, "drop_foreign_key"@, params) == StepV::Reply(ddl::no_foreign_keys_json(id)),
{
    reveal_strlit("initialize");
    reveal_strlit("ping");
    reveal_strlit("test_connection");
    reveal_strlit("get_tables");
    reveal_strlit("get_columns");
    reveal_strlit("get_databases");
    reveal_strlit("get_schemas");
    reveal_strlit("get_routines");
    reveal_strlit("get_views");
    reveal_strlit("get_foreign_keys");
    reveal_strlit("get_indexes");
    reveal_strlit("execute_query");
    reveal_strlit("insert_record");
    reveal_strlit("update_record");
    reveal_strlit("delete_record");
    reveal_strlit("get_create_table_sql");
    reveal_strlit("get_add_column_sql");
    reveal_strlit("get_alter_column_sql");
    reveal_strlit("get_create_index_sql");
    reveal_strlit("get_create_foreign_key_sql");
    reveal_strlit("drop_index");
    reveal_strlit("drop_foreign_key");
    assert("initialize"@.len() == 10);
    assert("ping"@.len() == 4);
    assert("test_connection"@.len() == 15);
    assert("get_tables"@.len() == 10);
    assert("get_columns"@.len() == 11);
    assert("get_databases"@.len() == 13);
    assert("get_schemas"@.len() == 11);
    assert("get_routines"@.len() == 12);
    assert("get_views"@.len() == 9);
    assert("get_foreign_keys"@.len() == 16);
    assert("get_indexes"@.len() == 11);
    assert("execute_query"@.len() == 13);
    assert("insert_record"@.len() == 13);
    assert("update_record"@.len() == 13);
    assert("delete_record"@.len() == 13);
    assert("get_create_table_sql"@.len() == 20);
    assert("get_add_column_sql"@.len() == 18);
    assert("get_alter_column_sql"@.len() == 20);
    assert("get_create_index_sql"@.len() == 20);
    assert("get_create_foreign_key_sql"@.len() == 26);
    assert("drop_index"@.len() == 10);
    assert("drop_foreign_key"@.len() == 16);
    assert("get_tables"@[0] != "initialize"@[0]);
    assert("get_schemas"@[4] != "get_columns"@[4]);
    assert("get_indexes"@[4] != "get_columns"@[4]);
    assert("get_indexes"@[4] != "get_schemas"@[4]);
    assert("execute_query"@[0] != "get_databases"@[0]);
    assert("insert_record"@[0] != "get_databases"@[0]);
    assert("insert_record"@[0] != "execute_query"@[0]);
    assert("update_record"@[0] != "get_databases"@[0]);
    assert("update_record"@[0] != "execute_query"@[0]);
    assert("update_record"@[0] != "insert_record"@[0]);
    assert("delete_record"@[0] != "get_databases"@[0]);
    assert("delete_record"@[0] != "execute_query"@[0]);
    assert("delete_record"@[0] != "insert_record"@[0]);
    assert("delete_record"@[0] != "update_record"@[0]);
    assert("get_alter_column_sql"@[4] != "get_create_table_sql"@[4]);
    assert("get_create_index_sql"@[11] != "get_create_table_sql"@[11]);
    assert("get_create_index_sql"@[4] != "get_alter_column_sql"@[4]);
    assert("drop_index"@[0] != "initialize"@[0]);
    assert("drop_index"@[0] != "get_tables"@[0]);
    assert("drop_foreign_key"@[0] != "get_foreign_keys"@[0]);
}

/// `ping` does exactly what `test_connection` does.
pub proof fn lemma_ping_is_test_connection(id: JsonV, params: JsonV)
    ensures
        method_step(id, "ping"@, params) == method_step(id, "test_connection"@, params),
{
    reveal_strlit("ping");
    reveal_strlit("test_connection");
    reveal_strlit("initialize");
    assert("ping"@.len() != "initialize"@.len());
    assert("test_connection"@.len() != "initialize"@.len());
}

/// The responses that follow DynamoDB work answer the request's `id` (with a result, or an
/// error that is not a parse error); when no client could be built, `ping`,
/// `test_connection` and `execute_query` answer with a `null` id instead.
pub proof fn lemma_service_responses_answer(
    id: JsonV,
    action: ActionV,
    code: ErrorCode,
    message: Seq<char>,
    pinged: Result<(), PluginError>,
    listed: Result<Seq<String>, PluginError>,
    described: Result<crate::dynamodb::models::DescribeTableOutput, PluginError>,
    executed: Result<crate::dynamodb::models::ExecuteStatementOutput, PluginError>,
)
    ensures
        answers(
            client_failure_json(id, action, code, message),
            match action {
                ActionV::TestConnection => JsonV::Null,
                ActionV::ExecuteQuery(_, _) => JsonV::Null,
                _ => id,
            },
        ),
        responds_to(query::test_connection_response_json(id, pinged), id),
        responds_to(metadata::tables_response_json(id, listed), id),
        responds_to(metadata::columns_response_json(id, described), id),
        responds_to(metadata::indexes_response_json(id, described), id),
        responds_to(query::execute_query_response_json(id, executed), id),
        responds_to(crud::record_change_response_json(id, executed), id),
{
    let text = error_text(code, message);
    lemma_error_responds(JsonV::Null, ErrorCode::InternalError, text);
    lemma_error_responds(id, ErrorCode::InternalError, text);
    lemma_ok_responds(id, JsonV::Object(seq![("success"@, JsonV::Bool(true))]));
    if let Err(e) = pinged {
        lemma_error_responds(id, ErrorCode::InternalError, e.message@);
    }
    match listed {
        Ok(names) => lemma_ok_responds(id, JsonV::Array(Seq::new(names.len(), |i: int| metadata::table_entry_json(names[i]@)))),
        Err(e) => lemma_error_responds(id, ErrorCode::InternalError, e.message@),
    }
    match described {
        Ok(desc) => {
            lemma_ok_responds(id, JsonV::Array(Seq::new(desc.columns.len() as nat, |i: int| metadata::column_entry_json(desc.columns@[i]))));
            lemma_ok_responds(id, JsonV::Array(Seq::new(desc.indexes.len() as nat, |i: int| metadata::index_entry_json(desc.indexes@[i]))));
        },
        Err(e) => lemma_error_responds(id, ErrorCode::InternalError, e.message@),
    }
    match executed {
        Ok(out) => {
            lemma_ok_responds(id, query::statement_result_json(out));
            lemma_ok_responds(id, JsonV::Object(seq![("affected_rows"@, JsonV::Number(crate::text::decimal_chars(1)))]));
        },
        Err(e) => lemma_error_responds(id, ErrorCode::InternalError, e.message@),
    }
}

}

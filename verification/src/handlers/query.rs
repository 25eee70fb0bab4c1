//! Connection and query execution handlers.
use vstd::prelude::*;

use crate::dynamodb::models::{item_view, ExecuteStatementOutput, Item};
use crate::error::{ErrorCode, PluginError};
use crate::handlers::models::{query_parts, rows_json, strings_json, ExecuteQueryResponse, Query};
use crate::json::{json_get, json_get_str, lookup_member, member_index, Json, JsonV, views};
use crate::rpc::{error_json, error_response, ok_json, ok_response, Action, ActionV, ServiceCall, Step, StepV};
use crate::text::{decimal_chars, string_views};
use crate::utils::extractor::{connection_from, extract_connection, extract_query};

verus! {

/// `test_connection` and `ping`: list one table.
pub open spec fn test_connection_step(id: JsonV, params: JsonV) -> StepV {
    StepV::Call(id, connection_from(params), ActionV::TestConnection)
}

/// Checks the connection: listing one table is DynamoDB work.
pub fn test_connection(id: Json, params: &Json) -> (r: Step)
    ensures
        r@ == test_connection_step(id@, params@),
{
    Step::Call(ServiceCall { id, connection: extract_connection(params), action: Action::TestConnection })
}

/// Same as `test_connection`.
pub fn ping(id: Json, params: &Json) -> (r: Step)
    ensures
        r@ == test_connection_step(id@, params@),
{
    test_connection(id, params)
}

/// `execute_query`: run the non-empty string parameter `query` (see `query_parts`), or
/// answer an invalid-params error.
pub open spec fn execute_query_step(id: JsonV, params: JsonV) -> StepV {
    match json_get_str(params, "query"@) {
        Some(q) => if q.len() > 0 {
            StepV::Call(id, connection_from(params), ActionV::ExecuteQuery(query_parts(q).0, query_parts(q).1))
        } else {
            StepV::Reply(error_json(id, ErrorCode::InvalidParams, "query must be a non-empty string"@))
        },
        None => StepV::Reply(error_json(id, ErrorCode::InvalidParams, "query must be a non-empty string"@)),
    }
}

/// Runs a query: the statement is DynamoDB work.
pub fn execute_query(id: Json, params: &Json) -> (r: Step)
    ensures
        r@ == execute_query_step(id@, params@),
{
    match extract_query(params) {
        Some(q) => {
            if q.as_str().unicode_len() > 0 {
                let query = Query::parse(q.as_str());
                Step::Call(ServiceCall { id, connection: extract_connection(params), action: Action::ExecuteQuery(query) })
            } else {
                Step::Reply(error_response(id, ErrorCode::InvalidParams, "query must be a non-empty string"))
            }
        },
        None => Step::Reply(error_response(id, ErrorCode::InvalidParams, "query must be a non-empty string")),
    }
}

/// The `test_connection` response: success, or the internal error.
pub open spec fn test_connection_response_json(id: JsonV, r: Result<(), PluginError>) -> JsonV {
    match r {
        Ok(_) => ok_json(id, JsonV::Object(seq![("success"@, JsonV::Bool(true))])),
        Err(e) => error_json(id, ErrorCode::InternalError, e.message@),
    }
}

/// `{"success": true}`.
pub fn success_json() -> (r: Json)
    ensures
        r@ == JsonV::Object(seq![("success"@, JsonV::Bool(true))]),
{
    let r = Json::object(vec![("success".to_owned(), Json::Bool(true))]);
    proof {
        assert(r@->Object_0 =~= seq![("success"@, JsonV::Bool(true))]);
    }
    r
}

/// The `test_connection` response once the ping is done.
pub fn test_connection_response(id: Json, r: Result<(), PluginError>) -> (out: Json)
    ensures
        out@ == test_connection_response_json(id@, r),
{
    match r {
        Ok(_) => ok_response(id, success_json()),
        Err(err) => error_response(id, ErrorCode::InternalError, err.message.as_str()),
    }
}

/// The columns of a result: the attribute names of its first item, in the item's order
/// (none when there is no item).
pub open spec fn result_columns(items: Seq<Item>) -> Seq<Seq<char>> {
    if items.len() > 0 {
        Seq::new(items[0].len() as nat, |j: int| items[0]@[j].0@)
    } else {
        Seq::empty()
    }
}

/// An item's value under `column` (the first attribute of that name), or `null`.
pub open spec fn result_cell(item: Item, column: Seq<char>) -> JsonV {
    match member_index(item_view(item), column) {
        Some(k) => item_view(item)[k].1,
        None => JsonV::Null,
    }
}

/// One row per item, one cell per column.
pub open spec fn result_rows(items: Seq<Item>, columns: Seq<Seq<char>>) -> Seq<JsonV> {
    Seq::new(items.len(), |i: int| JsonV::Array(Seq::new(columns.len(), |j: int| result_cell(items[i], columns[j]))))
}

/// What `execute_query` answers for a statement's result: its columns and rows, the number
/// of rows as affected rows, no execution time, and, when the result has a next token,
/// `has_more` and `truncated` set and the token under `pagination.next_token`.
pub open spec fn statement_result_json(out: ExecuteStatementOutput) -> JsonV {
    let columns = result_columns(out.items@);
    let has_more = out.next_token is Some;
    JsonV::Object(
        seq![
            ("affected_rows"@, JsonV::Number(decimal_chars(out.items.len() as nat))),
            ("columns"@, JsonV::Array(Seq::new(columns.len(), |j: int| JsonV::Str(columns[j])))),
            ("execution_time_ms"@, JsonV::Number(decimal_chars(0))),
            ("has_more"@, JsonV::Bool(has_more)),
            ("pagination"@, match out.next_token {
                Some(t) => JsonV::Object(seq![("next_token"@, JsonV::Str(t@))]),
                None => JsonV::Null,
            }),
            ("rows"@, JsonV::Array(result_rows(out.items@, columns))),
            ("truncated"@, JsonV::Bool(has_more)),
        ],
    )
}

/// The `execute_query` response: the result (see `statement_result_json`), or the
/// internal error.
pub open spec fn execute_query_response_json(id: JsonV, r: Result<ExecuteStatementOutput, PluginError>) -> JsonV {
    match r {
        Ok(out) => ok_json(id, statement_result_json(out)),
        Err(e) => error_json(id, ErrorCode::InternalError, e.message@),
    }
}

fn first_item_keys(items: &Vec<Item>) -> (r: Vec<String>)
    ensures
        string_views(r@) == result_columns(items@),
{
    let mut out: Vec<String> = Vec::new();
    if items.len() > 0 {
        let first = &items[0];
        let mut j: usize = 0;
        while j < first.len()
            invariant
                j <= first.len(),
                out.len() == j,
                forall|k: int| 0 <= k < j ==> (#[trigger] out@[k])@ == first@[k].0@,
            decreases first.len() - j,
        {
            out.push(first[j].0.clone());
            j = j + 1;
        }
    }
    proof {
        assert(string_views(out@) =~= result_columns(items@));
    }
    out
}

fn item_row(item: &Item, columns: &Vec<String>) -> (r: Vec<Json>)
    ensures
        views(r@) == Seq::new(columns.len() as nat, |j: int| result_cell(*item, columns@[j]@)),
{
    let mut row: Vec<Json> = Vec::new();
    let mut j: usize = 0;
    while j < columns.len()
        invariant
            j <= columns.len(),
            row.len() == j,
            forall|k: int| 0 <= k < j ==> (#[trigger] row@[k])@ == result_cell(*item, columns@[k]@),
        decreases columns.len() - j,
    {
        let cell = match lookup_member(item, columns[j].as_str()) {
            Some(v) => v.duplicate(),
            None => Json::Null,
        };
        row.push(cell);
        j = j + 1;
    }
    proof {
        assert(views(row@) =~= Seq::new(columns.len() as nat, |j: int| result_cell(*item, columns@[j]@)));
    }
    row
}

fn next_token_json(t: String) -> (r: Json)
    ensures
        r@ == JsonV::Object(seq![("next_token"@, JsonV::Str(t@))]),
{
    let r = Json::object(vec![("next_token".to_owned(), Json::Str(t))]);
    proof {
        assert(r@->Object_0 =~= seq![("next_token"@, JsonV::Str(t@))]);
    }
    r
}

/// The result of a statement as `execute_query` answers it (see `statement_result_json`).
pub fn statement_result(out: ExecuteStatementOutput) -> (r: Json)
    ensures
        r@ == statement_result_json(out),
{
    let ghost out0 = out;
    let columns = first_item_keys(&out.items);
    let ghost cv = string_views(columns@);
    let mut rows: Vec<Vec<Json>> = Vec::new();
    let mut i: usize = 0;
    while i < out.items.len()
        invariant
            i <= out.items.len(),
            rows.len() == i,
            cv == string_views(columns@),
            forall|k: int| 0 <= k < i ==> views((#[trigger] rows@[k])@) == Seq::new(columns.len() as nat, |j: int| result_cell(out.items@[k], columns@[j]@)),
        decreases out.items.len() - i,
    {
        rows.push(item_row(&out.items[i], &columns));
        i = i + 1;
    }
    let affected_rows = rows.len();
    let has_more = out.next_token.is_some();
    let pagination = match out.next_token {
        Some(t) => Some(next_token_json(t)),
        None => None,
    };
    let resp = ExecuteQueryResponse {
        columns,
        rows,
        affected_rows,
        execution_time_ms: 0,
        truncated: has_more,
        has_more,
        pagination,
    };
    let ghost rv = resp;
    let r = resp.to_json();
    proof {
        let cols = result_columns(out0.items@);
        assert(cv =~= cols);
        assert(strings_json(rv.columns@) == JsonV::Array(Seq::new(cols.len(), |j: int| JsonV::Str(cols[j])))) by {
            assert(strings_json(rv.columns@)->Array_0 =~= Seq::new(cols.len(), |j: int| JsonV::Str(cols[j])));
        }
        assert(rows_json(rv.rows@) =~= result_rows(out0.items@, cols)) by {
            assert forall|k: int| 0 <= k < rv.rows@.len() implies #[trigger] rows_json(rv.rows@)[k] == result_rows(out0.items@, cols)[k] by {
                assert(views(rv.rows@[k]@) =~= Seq::new(cols.len(), |j: int| result_cell(out0.items@[k], cols[j])));
            }
        }
        assert(r@->Object_0 =~= statement_result_json(out0)->Object_0);
    }
    r
}

/// The `execute_query` response once the statement has run (or failed).
pub fn execute_query_response(id: Json, r: Result<ExecuteStatementOutput, PluginError>) -> (out: Json)
    ensures
        out@ == execute_query_response_json(id@, r),
{
    match r {
        Ok(result) => ok_response(id, statement_result(result)),
        Err(err) => error_response(id, ErrorCode::InternalError, err.message.as_str()),
    }
}


/// A statement's result answers one row per item that the statement returned, and counts
/// exactly those rows as affected, whatever the items hold; its columns are the attribute
/// names of the first item, in order; more is to come exactly when there is a next token.
pub proof fn lemma_statement_result_counts_rows(out: ExecuteStatementOutput)
    ensures
        json_get(statement_result_json(out), "affected_rows"@) == Some(JsonV::Number(decimal_chars(out.items.len() as nat))),
        json_get(statement_result_json(out), "rows"@) matches Some(JsonV::Array(rows)) && rows.len() == out.items.len(),
        json_get(statement_result_json(out), "columns"@) matches Some(JsonV::Array(cols)) && (out.items.len() > 0 ==> {
            &&& cols.len() == out.items@[0].len()
            &&& forall|j: int| 0 <= j < cols.len() ==> #[trigger] cols[j] == JsonV::Str(out.items@[0]@[j].0@)
        }) && (out.items.len() == 0 ==> cols.len() == 0),
        json_get(statement_result_json(out), "has_more"@) == Some(JsonV::Bool(out.next_token is Some)),
{
    reveal_strlit("affected_rows");
    reveal_strlit("columns");
    reveal_strlit("execution_time_ms");
    reveal_strlit("has_more");
    reveal_strlit("pagination");
    reveal_strlit("rows");
    reveal_strlit("truncated");
    let ms = statement_result_json(out)->Object_0;
    assert("affected_rows"@.len() == 13 && "columns"@.len() == 7 && "execution_time_ms"@.len() == 17);
    assert("has_more"@.len() == 8 && "pagination"@.len() == 10 && "rows"@.len() == 4 && "truncated"@.len() == 9);
    crate::json::lemma_member_first(ms, 0, "affected_rows"@);
    crate::json::lemma_member_first(ms, 1, "columns"@);
    crate::json::lemma_member_first(ms, 3, "has_more"@);
    crate::json::lemma_member_first(ms, 5, "rows"@);
}

}

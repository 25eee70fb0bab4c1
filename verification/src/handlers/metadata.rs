//! Schema metadata: tables, columns, indexes, foreign keys.
use vstd::prelude::*;

use crate::dynamodb::models::{ColumnInfo, DescribeTableOutput, IndexInfo};
use crate::error::{ErrorCode, PluginError};
use crate::handlers::models::{strings_json, strings_to_json, ColumnResponse};
use crate::json::{json_get_str, Json, JsonV, views};
use crate::rpc::{error_json, error_response, ok_json, ok_response, Action, ActionV, ServiceCall, Step, StepV};
use crate::utils::extractor::{connection_from, extract_connection, extract_table};

verus! {

/// `get_tables`: list the tables.
pub open spec fn tables_step(id: JsonV, params: JsonV) -> StepV {
    StepV::Call(id, connection_from(params), ActionV::ListTables)
}

/// Returns the list of tables in DynamoDB: the listing is DynamoDB work.
pub fn get_tables(id: Json, params: &Json) -> (r: Step)
    ensures
        r@ == tables_step(id@, params@),
{
    Step::Call(ServiceCall { id, connection: extract_connection(params), action: Action::ListTables })
}

/// `get_columns` and `get_indexes`: describe the non-empty string parameter `table`, or
/// answer an invalid-params error.
pub open spec fn describe_step(id: JsonV, params: JsonV, for_columns: bool) -> StepV {
    match json_get_str(params, "table"@) {
        Some(t) => if t.len() > 0 {
            StepV::Call(
                id,
                connection_from(params),
                if for_columns { ActionV::DescribeColumns(t) } else { ActionV::DescribeIndexes(t) },
            )
        } else {
            StepV::Reply(error_json(id, ErrorCode::InvalidParams, "table must be a non-empty string"@))
        },
        None => StepV::Reply(error_json(id, ErrorCode::InvalidParams, "table must be a non-empty string"@)),
    }
}

fn describe(id: Json, params: &Json, for_columns: bool) -> (r: Step)
    ensures
        r@ == describe_step(id@, params@, for_columns),
{
    match extract_table(params) {
        Some(tb) => {
            if tb.as_str().unicode_len() > 0 {
                let action = if for_columns { Action::DescribeColumns(tb) } else { Action::DescribeIndexes(tb) };
                Step::Call(ServiceCall { id, connection: extract_connection(params), action })
            } else {
                Step::Reply(error_response(id, ErrorCode::InvalidParams, "table must be a non-empty string"))
            }
        },
        None => Step::Reply(error_response(id, ErrorCode::InvalidParams, "table must be a non-empty string")),
    }
}

/// Returns the columns (attribute definitions) for a given table: a description is
/// DynamoDB work.
pub fn get_columns(id: Json, params: &Json) -> (r: Step)
    ensures
        r@ == describe_step(id@, params@, true),
{
    describe(id, params, true)
}

/// Returns indexes (GSI + LSI) for a given table: a description is DynamoDB work.
pub fn get_indexes(id: Json, params: &Json) -> (r: Step)
    ensures
        r@ == describe_step(id@, params@, false),
{
    describe(id, params, false)
}

/// Returns empty foreign keys (DynamoDB has no FK constraints).
pub fn get_foreign_keys(id: Json, _params: &Json) -> (r: Json)
    ensures
        r@ == ok_json(id@, JsonV::Array(Seq::empty())),
{
    let result = Json::array(Vec::new());
    proof {
        assert(result@->Array_0 =~= Seq::<JsonV>::empty());
    }
    ok_response(id, result)
}

/// A table as `get_tables` lists it.
pub open spec fn table_entry_json(name: Seq<char>) -> JsonV {
    JsonV::Object(seq![("comment"@, JsonV::Null), ("name"@, JsonV::Str(name)), ("schema"@, JsonV::Null)])
}

/// The `get_tables` response: every table name in order, or the internal error.
pub open spec fn tables_response_json(id: JsonV, r: Result<Seq<String>, PluginError>) -> JsonV {
    match r {
        Ok(names) => ok_json(id, JsonV::Array(Seq::new(names.len(), |i: int| table_entry_json(names[i]@)))),
        Err(e) => error_json(id, ErrorCode::InternalError, e.message@),
    }
}

/// The `get_tables` response once the tables have been listed (or the listing failed).
pub fn get_tables_response(id: Json, r: Result<Vec<String>, PluginError>) -> (out: Json)
    ensures
        out@ == tables_response_json(id@, match r { Ok(v) => Ok(v@), Err(e) => Err(e) }),
{
    match r {
        Ok(names) => {
            let mut entries: Vec<Json> = Vec::new();
            let mut i: usize = 0;
            while i < names.len()
                invariant
                    i <= names.len(),
                    entries.len() == i,
                    forall|j: int| 0 <= j < i ==> (#[trigger] entries@[j])@ == table_entry_json(names@[j]@),
                decreases names.len() - i,
            {
                let e = Json::object(vec![
                    ("comment".to_owned(), Json::Null),
                    ("name".to_owned(), Json::string(names[i].as_str())),
                    ("schema".to_owned(), Json::Null),
                ]);
                proof {
                    assert(e@->Object_0 =~= table_entry_json(names@[i as int]@)->Object_0);
                }
                entries.push(e);
                i = i + 1;
            }
            let result = Json::array(entries);
            proof {
                assert(views(entries@) =~= Seq::new(names@.len(), |i: int| table_entry_json(names@[i]@)));
            }
            ok_response(id, result)
        },
        Err(err) => error_response(id, ErrorCode::InternalError, err.message.as_str()),
    }
}

/// A column as `get_columns` lists it: never nullable nor auto-incremented.
pub open spec fn column_entry_json(c: ColumnInfo) -> JsonV {
    JsonV::Object(
        seq![
            ("data_type"@, JsonV::Str(c.data_type@)),
            ("is_auto_increment"@, JsonV::Bool(false)),
            ("is_nullable"@, JsonV::Bool(false)),
            ("is_pk"@, JsonV::Bool(c.is_pk)),
            ("name"@, JsonV::Str(c.name@)),
        ],
    )
}

/// The `get_columns` response: every column of the description in order, or the
/// internal error.
pub open spec fn columns_response_json(id: JsonV, r: Result<DescribeTableOutput, PluginError>) -> JsonV {
    match r {
        Ok(desc) => ok_json(
            id,
            JsonV::Array(Seq::new(desc.columns.len() as nat, |i: int| column_entry_json(desc.columns@[i]))),
        ),
        Err(e) => error_json(id, ErrorCode::InternalError, e.message@),
    }
}

/// The `get_columns` response once the table has been described (or that failed).
pub fn get_columns_response(id: Json, r: Result<DescribeTableOutput, PluginError>) -> (out: Json)
    ensures
        out@ == columns_response_json(id@, r),
{
    match r {
        Ok(desc) => {
            let cols = &desc.columns;
            let mut entries: Vec<Json> = Vec::new();
            let mut i: usize = 0;
            while i < cols.len()
                invariant
                    i <= cols.len(),
                    entries.len() == i,
                    forall|j: int| 0 <= j < i ==> (#[trigger] entries@[j])@ == column_entry_json(cols@[j]),
                decreases cols.len() - i,
            {
                let c = ColumnResponse {
                    name: cols[i].name.clone(),
                    data_type: cols[i].data_type.clone(),
                    is_pk: cols[i].is_pk,
                    is_nullable: false,
                    is_auto_increment: false,
                };
                let e = c.to_json();
                entries.push(e);
                i = i + 1;
            }
            let result = Json::array(entries);
            proof {
                assert(views(entries@) =~= Seq::new(cols.len() as nat, |i: int| column_entry_json(cols@[i])));
            }
            ok_response(id, result)
        },
        Err(err) => error_response(id, ErrorCode::InternalError, err.message.as_str()),
    }
}

/// An index as `get_indexes` lists it.
pub open spec fn index_entry_json(ix: IndexInfo) -> JsonV {
    JsonV::Object(
        seq![
            ("columns"@, strings_json(ix.columns@)),
            ("is_primary"@, JsonV::Bool(ix.is_primary)),
            ("is_unique"@, JsonV::Bool(ix.is_unique)),
            ("name"@, JsonV::Str(ix.name@)),
        ],
    )
}

/// The `get_indexes` response: every index of the description in order, or the internal
/// error.
pub open spec fn indexes_response_json(id: JsonV, r: Result<DescribeTableOutput, PluginError>) -> JsonV {
    match r {
        Ok(desc) => ok_json(
            id,
            JsonV::Array(Seq::new(desc.indexes.len() as nat, |i: int| index_entry_json(desc.indexes@[i]))),
        ),
        Err(e) => error_json(id, ErrorCode::InternalError, e.message@),
    }
}

/// The `get_indexes` response once the table has been described (or that failed).
pub fn get_indexes_response(id: Json, r: Result<DescribeTableOutput, PluginError>) -> (out: Json)
    ensures
        out@ == indexes_response_json(id@, r),
{
    match r {
        Ok(desc) => {
            let ixs = &desc.indexes;
            let mut entries: Vec<Json> = Vec::new();
            let mut i: usize = 0;
            while i < ixs.len()
                invariant
                    i <= ixs.len(),
                    entries.len() == i,
                    forall|j: int| 0 <= j < i ==> (#[trigger] entries@[j])@ == index_entry_json(ixs@[j]),
                decreases ixs.len() - i,
            {
                let e = Json::object(vec![
                    ("columns".to_owned(), strings_to_json(&ixs[i].columns)),
                    ("is_primary".to_owned(), Json::Bool(ixs[i].is_primary)),
                    ("is_unique".to_owned(), Json::Bool(ixs[i].is_unique)),
                    ("name".to_owned(), Json::string(ixs[i].name.as_str())),
                ]);
                proof {
                    assert(e@->Object_0 =~= index_entry_json(ixs@[i as int])->Object_0);
                }
                entries.push(e);
                i = i + 1;
            }
            let result = Json::array(entries);
            proof {
                assert(views(entries@) =~= Seq::new(ixs.len() as nat, |i: int| index_entry_json(ixs@[i])));
            }
            ok_response(id, result)
        },
        Err(err) => error_response(id, ErrorCode::InternalError, err.message.as_str()),
    }
}


proof fn lemma_column_entry_fields(c: ColumnInfo)
    ensures
        crate::json::json_get(column_entry_json(c), "name"@) == Some(JsonV::Str(c.name@)),
        crate::json::json_get(column_entry_json(c), "data_type"@) == Some(JsonV::Str(c.data_type@)),
        crate::json::json_get(column_entry_json(c), "is_pk"@) == Some(JsonV::Bool(c.is_pk)),
{
    reveal_strlit("data_type");
    reveal_strlit("is_auto_increment");
    reveal_strlit("is_nullable");
    reveal_strlit("is_pk");
    reveal_strlit("name");
    assert("data_type"@.len() == 9 && "is_auto_increment"@.len() == 17 && "is_nullable"@.len() == 11);
    assert("is_pk"@.len() == 5 && "name"@.len() == 4);
    let ms = column_entry_json(c)->Object_0;
    crate::json::lemma_member_first(ms, 0, "data_type"@);
    crate::json::lemma_member_first(ms, 3, "is_pk"@);
    crate::json::lemma_member_first(ms, 4, "name"@);
}

/// `get_columns` lists every described column, in order, with its name, its data type and
/// its partition-key flag exactly as the description holds them.
pub proof fn lemma_columns_response_reports_columns(id: JsonV, desc: DescribeTableOutput)
    ensures
        crate::json::json_get(columns_response_json(id, Ok(desc)), "result"@) matches Some(JsonV::Array(es)) && {
            &&& es.len() == desc.columns.len()
            &&& forall|i: int| 0 <= i < es.len() ==> {
                &&& crate::json::json_get(#[trigger] es[i], "name"@) == Some(JsonV::Str(desc.columns@[i].name@))
                &&& crate::json::json_get(es[i], "data_type"@) == Some(JsonV::Str(desc.columns@[i].data_type@))
                &&& crate::json::json_get(es[i], "is_pk"@) == Some(JsonV::Bool(desc.columns@[i].is_pk))
            }
        },
{
    let es = Seq::new(desc.columns.len() as nat, |i: int| column_entry_json(desc.columns@[i]));
    crate::rpc::lemma_ok_shape(id, JsonV::Array(es));
    assert forall|i: int| 0 <= i < es.len() implies {
        &&& crate::json::json_get(#[trigger] es[i], "name"@) == Some(JsonV::Str(desc.columns@[i].name@))
        &&& crate::json::json_get(es[i], "data_type"@) == Some(JsonV::Str(desc.columns@[i].data_type@))
        &&& crate::json::json_get(es[i], "is_pk"@) == Some(JsonV::Bool(desc.columns@[i].is_pk))
    } by {
        lemma_column_entry_fields(desc.columns@[i]);
    }
}

}

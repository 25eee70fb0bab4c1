//! DDL handlers: PartiQL statements for schema changes.
use vstd::prelude::*;

use crate::error::ErrorCode;
use crate::json::{json_get, json_get_path_str, json_str_or_empty, or_empty_chars, Json, JsonV, views};
use crate::rpc::{error_json, error_response, ok_json, ok_response};
use crate::text::{str_eq, string_views};

verus! {

/// A response whose result is the one statement `sql`.
pub open spec fn statement_json(id: JsonV, sql: Seq<char>) -> JsonV {
    ok_json(id, JsonV::Array(seq![JsonV::Str(sql)]))
}

fn statement_response(id: Json, sql: &str) -> (r: Json)
    ensures
        r@ == statement_json(id@, sql@),
{
    let result = Json::array(vec![Json::string(sql)]);
    proof {
        assert(result@->Array_0 =~= seq![JsonV::Str(sql@)]);
    }
    ok_response(id, result)
}

/// `name` in double quotes.
pub open spec fn quoted(name: Seq<char>) -> Seq<char> {
    "\""@ + name + "\""@
}

pub(crate) fn append_quoted(s: &mut String, name: &str)
    ensures
        final(s)@ == old(s)@ + quoted(name@),
{
    s.append("\"");
    s.append(name);
    s.append("\"");
    proof {
        assert(old(s)@ + "\""@ + name@ + "\""@ =~= old(s)@ + quoted(name@));
    }
}

/// The `CREATE TABLE` statement for a table keyed by a string `id`.
pub open spec fn create_table_sql(table: Seq<char>) -> Seq<char> {
    "CREATE TABLE "@ + quoted(table) + " (id STRING, PRIMARY KEY (id))"@
}

/// `get_create_table_sql`: the statement for `table_name`, or an invalid-params error when
/// the name is missing or empty.
#[verifier::opaque]
pub open spec fn create_table_response(id: JsonV, params: JsonV) -> JsonV {
    let table = json_str_or_empty(params, "table_name"@);
    if table.len() == 0 {
        error_json(id, ErrorCode::InvalidParams, "table_name must be a non-empty string"@)
    } else {
        statement_json(id, create_table_sql(table))
    }
}

/// Generate a PartiQL CREATE TABLE statement.
pub fn get_create_table_sql(id: Json, params: &Json) -> (r: Json)
    ensures
        r@ == create_table_response(id@, params@),
{
    proof {
        reveal(create_table_response);
    }
    let table_name = params.str_or_empty("table_name");
    if table_name.unicode_len() == 0 {
        return error_response(id, ErrorCode::InvalidParams, "table_name must be a non-empty string");
    }
    let mut sql = String::from_str("CREATE TABLE ");
    append_quoted(&mut sql, table_name);
    sql.append(" (id STRING, PRIMARY KEY (id))");
    statement_response(id, sql.as_str())
}

/// The `ALTER TABLE ... ADD COLUMN` statement.
pub open spec fn add_column_sql(table: Seq<char>, column: Seq<char>, column_type: Seq<char>) -> Seq<char> {
    "ALTER TABLE "@ + quoted(table) + " ADD COLUMN "@ + quoted(column) + " "@ + column_type
}

/// `get_add_column_sql`: the statement adding `column.name` of type `column.type`
/// (`STRING` when absent) to `table`, or an invalid-params error when the table or the
/// column name is missing or empty.
#[verifier::opaque]
pub open spec fn add_column_response(id: JsonV, params: JsonV) -> JsonV {
    let table = json_str_or_empty(params, "table"@);
    let name = or_empty_chars(json_get_path_str(params, "column"@, "name"@));
    let column_type = match json_get_path_str(params, "column"@, "type"@) {
        Some(t) => t,
        None => "STRING"@,
    };
    if table.len() == 0 || name.len() == 0 {
        error_json(id, ErrorCode::InvalidParams, "table and column name are required"@)
    } else {
        statement_json(id, add_column_sql(table, name, column_type))
    }
}

fn path_str_or_empty<'a>(params: &'a Json, outer: &str, inner: &str) -> (r: &'a str)
    ensures
        r@ == or_empty_chars(json_get_path_str(params@, outer@, inner@)),
{
    match params.get_path_str(outer, inner) {
        Some(s) => s,
        None => {
            proof { reveal_strlit(""); }
            ""
        },
    }
}

/// Generate a PartiQL ALTER TABLE ADD COLUMN statement.
pub fn get_add_column_sql(id: Json, params: &Json) -> (r: Json)
    ensures
        r@ == add_column_response(id@, params@),
{
    proof {
        reveal(add_column_response);
    }
    let table = params.str_or_empty("table");
    let column_name = path_str_or_empty(params, "column", "name");
    let column_type = match params.get_path_str("column", "type") {
        Some(t) => t,
        None => "STRING",
    };
    if table.unicode_len() == 0 || column_name.unicode_len() == 0 {
        return error_response(id, ErrorCode::InvalidParams, "table and column name are required");
    }
    let mut sql = String::from_str("ALTER TABLE ");
    append_quoted(&mut sql, table);
    sql.append(" ADD COLUMN ");
    append_quoted(&mut sql, column_name);
    sql.append(" ");
    sql.append(column_type);
    statement_response(id, sql.as_str())
}

/// The `ALTER TABLE ... MODIFY ... NAME` statement.
pub open spec fn rename_column_sql(table: Seq<char>, old_name: Seq<char>, new_name: Seq<char>) -> Seq<char> {
    "ALTER TABLE "@ + quoted(table) + " MODIFY "@ + quoted(old_name) + " NAME "@ + quoted(new_name)
}

/// `get_alter_column_sql`: an invalid-params error when the table or `old_column.name` is
/// missing or empty; the rename statement when `new_column.name` is a different non-empty
/// name; otherwise the note that no rename is needed.
#[verifier::opaque]
pub open spec fn alter_column_response(id: JsonV, params: JsonV) -> JsonV {
    let table = json_str_or_empty(params, "table"@);
    let old_name = or_empty_chars(json_get_path_str(params, "old_column"@, "name"@));
    let new_name = or_empty_chars(json_get_path_str(params, "new_column"@, "name"@));
    if table.len() == 0 || old_name.len() == 0 {
        error_json(id, ErrorCode::InvalidParams, "table and old column name are required"@)
    } else if old_name != new_name && new_name.len() != 0 {
        statement_json(id, rename_column_sql(table, old_name, new_name))
    } else {
        statement_json(id, "// No rename needed"@)
    }
}

/// Generate a PartiQL ALTER TABLE MODIFY statement.
pub fn get_alter_column_sql(id: Json, params: &Json) -> (r: Json)
    ensures
        r@ == alter_column_response(id@, params@),
{
    proof {
        reveal(alter_column_response);
    }
    let table = params.str_or_empty("table");
    let old_name = path_str_or_empty(params, "old_column", "name");
    let new_name = path_str_or_empty(params, "new_column", "name");
    if table.unicode_len() == 0 || old_name.unicode_len() == 0 {
        return error_response(id, ErrorCode::InvalidParams, "table and old column name are required");
    }
    if !str_eq(old_name, new_name) && old_name.unicode_len() != 0 && new_name.unicode_len() != 0 {
        let mut sql = String::from_str("ALTER TABLE ");
        append_quoted(&mut sql, table);
        sql.append(" MODIFY ");
        append_quoted(&mut sql, old_name);
        sql.append(" NAME ");
        append_quoted(&mut sql, new_name);
        statement_response(id, sql.as_str())
    } else {
        statement_response(id, "// No rename needed")
    }
}

/// The strings among `items`, in order.
pub open spec fn strings_in(items: Seq<JsonV>) -> Seq<Seq<char>>
    decreases items.len(),
{
    if items.len() == 0 {
        Seq::empty()
    } else {
        let prev = strings_in(items.drop_last());
        match items.last() {
            JsonV::Str(s) => prev.push(s),
            _ => prev,
        }
    }
}

/// The string elements of the array `columns` (none when it is missing or not an array).
pub open spec fn index_columns(params: JsonV) -> Seq<Seq<char>> {
    match json_get(params, "columns"@) {
        Some(JsonV::Array(items)) => strings_in(items),
        _ => Seq::empty(),
    }
}

/// The names, each in double quotes, separated by `", "`.
pub open spec fn quoted_list(names: Seq<Seq<char>>) -> Seq<char>
    decreases names.len(),
{
    if names.len() == 0 {
        Seq::empty()
    } else if names.len() == 1 {
        quoted(names[0])
    } else {
        quoted_list(names.drop_last()) + ", "@ + quoted(names.last())
    }
}

/// The `CREATE INDEX` statement over the given columns.
pub open spec fn create_index_sql(table: Seq<char>, columns: Seq<Seq<char>>) -> Seq<char> {
    "CREATE INDEX ON "@ + quoted(table) + " ("@ + quoted_list(columns) + ") INCLUDE ALL"@
}

/// `get_create_index_sql`: the statement over the string elements of `columns`, or an
/// invalid-params error when the table is missing or empty or there is no such column.
#[verifier::opaque]
pub open spec fn create_index_response(id: JsonV, params: JsonV) -> JsonV {
    let table = json_str_or_empty(params, "table"@);
    let columns = index_columns(params);
    if table.len() == 0 || columns.len() == 0 {
        error_json(id, ErrorCode::InvalidParams, "table and columns are required"@)
    } else {
        statement_json(id, create_index_sql(table, columns))
    }
}

fn string_elements(params: &Json) -> (r: Vec<String>)
    ensures
        string_views(r@) == index_columns(params@),
{
    let mut out: Vec<String> = Vec::new();
    match params.get("columns") {
        Some(v) => match v.as_array() {
            Some(items) => {
                let ghost iv = views(items@);
                let mut i: usize = 0;
                while i < items.len()
                    invariant
                        iv == views(items@),
                        i <= items.len(),
                        string_views(out@) == strings_in(iv.take(i as int)),
                    decreases items.len() - i,
                {
                    proof {
                        assert(iv.take(i + 1).drop_last() =~= iv.take(i as int));
                        assert(iv.take(i + 1).last() == items@[i as int]@);
                    }
                    let ghost before = out@;
                    match items[i].as_str() {
                        Some(s) => {
                            out.push(s.to_owned());
                            proof {
                                assert(string_views(out@) =~= string_views(before).push(s@));
                            }
                        },
                        None => {},
                    }
                    i = i + 1;
                }
                proof {
                    assert(iv.take(items.len() as int) =~= iv);
                }
            },
            None => {
                proof {
                    assert(string_views(out@) =~= Seq::<Seq<char>>::empty());
                }
            },
        },
        None => {
            proof {
                assert(string_views(out@) =~= Seq::<Seq<char>>::empty());
            }
        },
    }
    out
}

fn append_quoted_list(sql: &mut String, columns: &Vec<String>)
    ensures
        final(sql)@ == old(sql)@ + quoted_list(string_views(columns@)),
{
    let ghost cv = string_views(columns@);
    let ghost head = sql@;
    let mut i: usize = 0;
    proof {
        assert(cv.take(0) =~= Seq::<Seq<char>>::empty());
        assert(head + Seq::<char>::empty() =~= head);
    }
    while i < columns.len()
        invariant
            cv == string_views(columns@),
            i <= columns.len(),
            sql@ == head + quoted_list(cv.take(i as int)),
        decreases columns.len() - i,
    {
        proof {
            assert(cv.take(i + 1).drop_last() =~= cv.take(i as int));
            assert(cv.take(i + 1).last() == columns@[i as int]@);
        }
        let ghost before = sql@;
        if i > 0 {
            sql.append(", ");
        }
        append_quoted(sql, columns[i].as_str());
        proof {
            let q = quoted(columns@[i as int]@);
            if i == 0 {
                assert(quoted_list(cv.take(1)) == q);
            } else {
                assert(quoted_list(cv.take(i + 1)) == quoted_list(cv.take(i as int)) + ", "@ + q);
                assert(before + ", "@ + q =~= head + (quoted_list(cv.take(i as int)) + ", "@ + q));
            }
        }
        i = i + 1;
    }
    proof {
        assert(cv.take(columns.len() as int) =~= cv);
    }
}

/// Generate a PartiQL CREATE INDEX statement.
pub fn get_create_index_sql(id: Json, params: &Json) -> (r: Json)
    ensures
        r@ == create_index_response(id@, params@),
{
    proof {
        reveal(create_index_response);
    }
    let table = params.str_or_empty("table");
    let columns = string_elements(params);
    if table.unicode_len() == 0 || columns.len() == 0 {
        return error_response(id, ErrorCode::InvalidParams, "table and columns are required");
    }
    let mut sql = String::from_str("CREATE INDEX ON ");
    append_quoted(&mut sql, table);
    sql.append(" (");
    append_quoted_list(&mut sql, &columns);
    sql.append(") INCLUDE ALL");
    statement_response(id, sql.as_str())
}

/// The `DROP INDEX` statement.
pub open spec fn drop_index_sql(table: Seq<char>, index_name: Seq<char>) -> Seq<char> {
    "DROP INDEX "@ + quoted(index_name) + " ON "@ + quoted(table)
}

/// `drop_index`: the statement, or an invalid-params error when the table or the index
/// name is missing or empty.
#[verifier::opaque]
pub open spec fn drop_index_response(id: JsonV, params: JsonV) -> JsonV {
    let table = json_str_or_empty(params, "table"@);
    let index_name = json_str_or_empty(params, "index_name"@);
    if table.len() == 0 || index_name.len() == 0 {
        error_json(id, ErrorCode::InvalidParams, "table and index_name are required"@)
    } else {
        statement_json(id, drop_index_sql(table, index_name))
    }
}

/// Generate a PartiQL DROP INDEX statement.
pub fn drop_index(id: Json, params: &Json) -> (r: Json)
    ensures
        r@ == drop_index_response(id@, params@),
{
    proof {
        reveal(drop_index_response);
    }
    let table = params.str_or_empty("table");
    let index_name = params.str_or_empty("index_name");
    if table.unicode_len() == 0 || index_name.unicode_len() == 0 {
        return error_response(id, ErrorCode::InvalidParams, "table and index_name are required");
    }
    let mut sql = String::from_str("DROP INDEX ");
    append_quoted(&mut sql, index_name);
    sql.append(" ON ");
    append_quoted(&mut sql, table);
    statement_response(id, sql.as_str())
}

/// The note that DynamoDB has no foreign keys.
pub open spec fn no_foreign_keys_json(id: JsonV) -> JsonV {
    statement_json(id, "// DynamoDB does not support foreign key constraints"@)
}

/// Generate a PartiQL CREATE FOREIGN KEY statement (not supported by DynamoDB).
pub fn get_create_foreign_key_sql(id: Json, _params: &Json) -> (r: Json)
    ensures
        r@ == no_foreign_keys_json(id@),
{
    statement_response(id, "// DynamoDB does not support foreign key constraints")
}

/// Drop a foreign key (not supported by DynamoDB).
pub fn drop_foreign_key(id: Json, _params: &Json) -> (r: Json)
    ensures
        r@ == no_foreign_keys_json(id@),
{
    statement_response(id, "// DynamoDB does not support foreign key constraints")
}


/// `get_add_column_sql` answers the one statement
/// `ALTER TABLE "<table>" ADD COLUMN "<column.name>" <column.type>`, with `STRING` as the
/// type only when `column.type` is not a string; an invalid-params error exactly when the
/// table or the column name is missing or empty.
pub proof fn lemma_add_column_carries_type(id: JsonV, params: JsonV)
    ensures
        ({
            let table = json_str_or_empty(params, "table"@);
            let name = or_empty_chars(json_get_path_str(params, "column"@, "name"@));
            let r = add_column_response(id, params);
            &&& (table.len() == 0 || name.len() == 0) ==> r == error_json(id, ErrorCode::InvalidParams, "table and column name are required"@)
            &&& (table.len() > 0 && name.len() > 0) ==> match json_get_path_str(params, "column"@, "type"@) {
                Some(t) => r == ok_json(id, JsonV::Array(seq![JsonV::Str(
                    "ALTER TABLE "@ + quoted(table) + " ADD COLUMN "@ + quoted(name) + " "@ + t)])),
                None => r == ok_json(id, JsonV::Array(seq![JsonV::Str(
                    "ALTER TABLE "@ + quoted(table) + " ADD COLUMN "@ + quoted(name) + " "@ + "STRING"@)])),
            }
        }),
{
    reveal(add_column_response);
}

}

//! Record handlers: one PartiQL statement per inserted, updated or deleted record.
use vstd::prelude::*;

use crate::dynamodb::models::ExecuteStatementOutput;
use crate::error::{ErrorCode, PluginError};
use crate::handlers::ddl::{append_quoted, quoted};
use crate::handlers::models::count_json;
use crate::json::{json_get, json_get_str, json_str_or_empty, Json, JsonV, member_views};
use crate::rpc::{error_json, error_response, ok_json, ok_response, Action, ActionV, ServiceCall, Step, StepV};
use crate::text::{chars_of, decimal_chars};
use crate::utils::extractor::{connection_from, extract_connection};

verus! {

/// `s` with every single quote doubled.
pub open spec fn escape_quotes(s: Seq<char>) -> Seq<char>
    decreases s.len(),
{
    if s.len() == 0 {
        Seq::empty()
    } else {
        escape_quotes(s.drop_last()) + if s.last() == '\'' { seq!['\'', '\''] } else { seq![s.last()] }
    }
}

/// A PartiQL string literal.
pub open spec fn string_literal(s: Seq<char>) -> Seq<char> {
    "'"@ + escape_quotes(s) + "'"@
}

/// The PartiQL literal of a JSON scalar; arrays and objects have none here.
pub open spec fn literal(v: JsonV) -> Option<Seq<char>> {
    match v {
        JsonV::Str(s) => Some(string_literal(s)),
        JsonV::Number(n) => Some(n),
        JsonV::Bool(b) => Some(if b { "true"@ } else { "false"@ }),
        JsonV::Null => Some("NULL"@),
        _ => None,
    }
}

fn append_escaped(out: &mut String, s: &str)
    ensures
        final(out)@ == old(out)@ + escape_quotes(s@),
{
    let v = chars_of(s);
    let ghost head = out@;
    let mut i: usize = 0;
    proof {
        assert(s@.take(0) =~= Seq::<char>::empty());
        assert(head + Seq::<char>::empty() =~= head);
    }
    while i < v.len()
        invariant
            v@ == s@,
            i <= v.len(),
            out@ == head + escape_quotes(s@.take(i as int)),
        decreases v.len() - i,
    {
        proof {
            assert(s@.take(i + 1).drop_last() =~= s@.take(i as int));
            assert(s@.take(i + 1).last() == v@[i as int]);
            reveal_strlit("''");
        }
        let ghost before = out@;
        if v[i] == '\'' {
            out.append("''");
            proof {
                assert("''"@ =~= seq!['\'', '\'']);
            }
        } else {
            let one = s.substring_char(i, i + 1);
            out.append(one);
            proof {
                assert(one@ =~= seq![v@[i as int]]);
            }
        }
        proof {
            let t = s@.take(i + 1);
            let tail = if t.last() == '\'' { seq!['\'', '\''] } else { seq![t.last()] };
            assert(escape_quotes(t) == escape_quotes(s@.take(i as int)) + tail);
            assert(out@ =~= head + escape_quotes(t));
        }
        i = i + 1;
    }
    proof {
        assert(s@.take(v.len() as int) =~= s@);
    }
}

/// Appends the literal of `v`; whether it has one.
fn append_literal(out: &mut String, v: &Json) -> (ok: bool)
    ensures
        ok == (literal(v@) is Some),
        ok ==> final(out)@ == old(out)@ + literal(v@)->0,
{
    match v {
        Json::Str(s) => {
            out.append("'");
            append_escaped(out, s.as_str());
            out.append("'");
            proof {
                assert(old(out)@ + "'"@ + escape_quotes(s@) + "'"@ =~= old(out)@ + string_literal(s@));
            }
            true
        },
        Json::Number(n) => {
            out.append(n.as_str());
            true
        },
        Json::Bool(b) => {
            if *b {
                out.append("true");
            } else {
                out.append("false");
            }
            true
        },
        Json::Null => {
            out.append("NULL");
            true
        },
        _ => false,
    }
}

/// The members of a tuple literal, each `'name': literal`, separated by `", "`; nothing
/// when a value has no literal.
pub open spec fn tuple_members(ms: Seq<(Seq<char>, JsonV)>) -> Option<Seq<char>>
    decreases ms.len(),
{
    if ms.len() == 0 {
        Some(Seq::empty())
    } else {
        match (tuple_members(ms.drop_last()), literal(ms.last().1)) {
            (Some(prev), Some(lit)) => Some(
                (if ms.len() == 1 { prev } else { prev + ", "@ }) + string_literal(ms.last().0) + ": "@ + lit,
            ),
            _ => None,
        }
    }
}

/// The message for a table parameter that is missing or empty.
pub open spec fn table_message() -> Seq<char> {
    "table must be a non-empty string"@
}

/// The message for values without a PartiQL literal.
pub open spec fn value_message() -> Seq<char> {
    "values must be strings, numbers, booleans or null"@
}

/// The insert statement of a record.
pub open spec fn insert_sql(table: Seq<char>, members: Seq<char>) -> Seq<char> {
    "INSERT INTO "@ + quoted(table) + " VALUE {"@ + members + "}"@
}

/// `insert_record`: insert the object `data` into `table`; invalid-params errors for a
/// missing or empty table, for `data` that is not a non-empty object, and for values with
/// no literal.
pub open spec fn insert_record_step(id: JsonV, params: JsonV) -> StepV {
    let table = match json_get_str(params, "table"@) { Some(t) => t, None => Seq::empty() };
    if table.len() == 0 {
        StepV::Reply(error_json(id, ErrorCode::InvalidParams, table_message()))
    } else {
        match json_get(params, "data"@) {
            Some(JsonV::Object(ms)) => if ms.len() == 0 {
                StepV::Reply(error_json(id, ErrorCode::InvalidParams, "data must be a non-empty object"@))
            } else {
                match tuple_members(ms) {
                    Some(members) => StepV::Call(id, connection_from(params), ActionV::ChangeRecord(insert_sql(table, members))),
                    None => StepV::Reply(error_json(id, ErrorCode::InvalidParams, value_message())),
                }
            },
            _ => StepV::Reply(error_json(id, ErrorCode::InvalidParams, "data must be a non-empty object"@)),
        }
    }
}

fn append_tuple_members(out: &mut String, ms: &Vec<(String, Json)>) -> (ok: bool)
    ensures
        ok == (tuple_members(member_views(ms@)) is Some),
        ok ==> final(out)@ == old(out)@ + tuple_members(member_views(ms@))->0,
{
    let ghost mv = member_views(ms@);
    let ghost head = out@;
    let mut i: usize = 0;
    proof {
        assert(mv.take(0) =~= Seq::<(Seq<char>, JsonV)>::empty());
        assert(head + Seq::<char>::empty() =~= head);
    }
    while i < ms.len()
        invariant
            mv == member_views(ms@),
            i <= ms.len(),
            tuple_members(mv.take(i as int)) is Some,
            out@ == head + tuple_members(mv.take(i as int))->0,
        decreases ms.len() - i,
    {
        let ghost t = mv.take(i + 1);
        let ghost prev = tuple_members(mv.take(i as int))->0;
        proof {
            assert(t.drop_last() =~= mv.take(i as int));
            assert(t.last() == (ms@[i as int].0@, ms@[i as int].1@));
        }
        if i > 0 {
            out.append(", ");
        }
        let ghost mid = out@;
        out.append("'");
        append_escaped(out, ms[i].0.as_str());
        out.append("'");
        out.append(": ");
        let ok = append_literal(out, &ms[i].1);
        if !ok {
            proof {
                assert(tuple_members(t) is None);
                lemma_tuple_members_none(mv, i as int + 1);
            }
            return false;
        }
        proof {
            let lit = literal(ms@[i as int].1@)->0;
            assert(tuple_members(t) == Some((if t.len() == 1 { prev } else { prev + ", "@ }) + string_literal(ms@[i as int].0@) + ": "@ + lit));
            assert(out@ =~= head + tuple_members(t)->0);
        }
        i = i + 1;
    }
    proof {
        assert(mv.take(ms.len() as int) =~= mv);
    }
    true
}

proof fn lemma_tuple_members_none(ms: Seq<(Seq<char>, JsonV)>, n: int)
    requires
        0 <= n <= ms.len(),
        tuple_members(ms.take(n)) is None,
    ensures
        tuple_members(ms) is None,
    decreases ms.len() - n,
{
    if n < ms.len() {
        assert(ms.take(n + 1).drop_last() =~= ms.take(n));
        lemma_tuple_members_none(ms, n + 1);
    } else {
        assert(ms.take(n) =~= ms);
    }
}

/// Inserts a record: the statement is DynamoDB work.
#[verifier::rlimit(60)]
pub fn insert_record(id: Json, params: &Json) -> (r: Step)
    ensures
        r@ == insert_record_step(id@, params@),
{
    let table = params.str_or_empty("table");
    if table.unicode_len() == 0 {
        return Step::Reply(error_response(id, ErrorCode::InvalidParams, "table must be a non-empty string"));
    }
    let data = params.get("data");
    match data {
        Some(Json::Object(ms)) => {
            proof {
                assert(member_views(ms@) =~= data.unwrap()@->Object_0);
            }
            if ms.len() == 0 {
                return Step::Reply(error_response(id, ErrorCode::InvalidParams, "data must be a non-empty object"));
            }
            let mut sql = String::from_str("INSERT INTO ");
            append_quoted(&mut sql, table);
            sql.append(" VALUE {");
            let ok = append_tuple_members(&mut sql, ms);
            if !ok {
                return Step::Reply(error_response(id, ErrorCode::InvalidParams, "values must be strings, numbers, booleans or null"));
            }
            sql.append("}");
            Step::Call(ServiceCall { id, connection: extract_connection(params), action: Action::ChangeRecord(sql) })
        },
        _ => Step::Reply(error_response(id, ErrorCode::InvalidParams, "data must be a non-empty object")),
    }
}

/// The condition that picks a record by its key.
pub open spec fn key_condition(pk_col: Seq<char>, pk_lit: Seq<char>) -> Seq<char> {
    " WHERE "@ + quoted(pk_col) + " = "@ + pk_lit
}

/// The key of a record: the non-empty string `pk_col` and the literal of `pk_val`.
pub open spec fn record_key(params: JsonV) -> Option<(Seq<char>, Seq<char>)> {
    match (json_get_str(params, "pk_col"@), json_get(params, "pk_val"@)) {
        (Some(col), Some(v)) => if col.len() > 0 && literal(v) is Some { Some((col, literal(v)->0)) } else { None },
        _ => None,
    }
}

/// The assignment of the new value: `" SET \"col_name\" = <literal of new_val>"`, when
/// `col_name` is a non-empty string and `new_val` has a literal.
pub open spec fn assignment(params: JsonV) -> Option<Seq<char>> {
    match (json_get_str(params, "col_name"@), json_get(params, "new_val"@)) {
        (Some(col), Some(v)) => if col.len() > 0 && literal(v) is Some {
            Some(" SET "@ + quoted(col) + " = "@ + literal(v)->0)
        } else {
            None
        },
        _ => None,
    }
}

/// The update statement of a record.
pub open spec fn update_sql(table: Seq<char>, set: Seq<char>, pk_col: Seq<char>, pk_lit: Seq<char>) -> Seq<char> {
    "UPDATE "@ + quoted(table) + set + key_condition(pk_col, pk_lit)
}

/// `update_record`: set `col_name` to `new_val` in the record of `table` whose `pk_col` is
/// `pk_val`; invalid-params errors when the table, the key or the new value is missing or
/// unusable.
#[verifier::opaque]
pub open spec fn update_record_step(id: JsonV, params: JsonV) -> StepV {
    let table = match json_get_str(params, "table"@) { Some(t) => t, None => Seq::empty() };
    if table.len() == 0 {
        StepV::Reply(error_json(id, ErrorCode::InvalidParams, table_message()))
    } else {
        match record_key(params) {
            None => StepV::Reply(error_json(id, ErrorCode::InvalidParams, "pk_col and pk_val are required"@)),
            Some((pk_col, pk_lit)) => match assignment(params) {
                Some(set) => StepV::Call(id, connection_from(params), ActionV::ChangeRecord(update_sql(table, set, pk_col, pk_lit))),
                None => StepV::Reply(error_json(id, ErrorCode::InvalidParams, "col_name and new_val are required"@)),
            },
        }
    }
}

fn append_assignment(out: &mut String, params: &Json) -> (ok: bool)
    ensures
        ok == (assignment(params@) is Some),
        ok ==> final(out)@ == old(out)@ + assignment(params@)->0,
{
    match (params.get_str("col_name"), params.get("new_val")) {
        (Some(col), Some(v)) => {
            if col.unicode_len() == 0 {
                return false;
            }
            let mut set = String::from_str(" SET ");
            append_quoted(&mut set, col);
            set.append(" = ");
            if !append_literal(&mut set, v) {
                return false;
            }
            out.append(set.as_str());
            true
        },
        _ => false,
    }
}

/// Appends `" WHERE \"pk_col\" = <literal>"` when the key parameters are usable.
fn append_key_condition(out: &mut String, params: &Json) -> (ok: bool)
    ensures
        ok == (record_key(params@) is Some),
        match record_key(params@) {
            Some((col, lit)) => final(out)@ == old(out)@ + key_condition(col, lit),
            None => true,
        },
{
    let pk_col = params.get_str("pk_col");
    let pk_val = params.get("pk_val");
    match (pk_col, pk_val) {
        (Some(col), Some(v)) => {
            if col.unicode_len() == 0 {
                return false;
            }
            let mut tail = String::from_str(" WHERE ");
            append_quoted(&mut tail, col);
            tail.append(" = ");
            let ok = append_literal(&mut tail, v);
            if !ok {
                return false;
            }
            out.append(tail.as_str());
            proof {
                assert(old(out)@ + tail@ =~= old(out)@ + key_condition(col@, literal(v@)->0));
            }
            true
        },
        _ => false,
    }
}

proof fn lemma_update_call(id: JsonV, params: JsonV, table: Seq<char>, set: Seq<char>, kc: Seq<char>, kl: Seq<char>)
    requires
        json_str_or_empty(params, "table"@) == table,
        table.len() > 0,
        record_key(params) == Some((kc, kl)),
        assignment(params) == Some(set),
    ensures
        update_record_step(id, params) == StepV::Call(id, connection_from(params), ActionV::ChangeRecord(update_sql(table, set, kc, kl))),
{
    reveal(update_record_step);
}

proof fn lemma_update_reply(id: JsonV, params: JsonV)
    ensures
        json_str_or_empty(params, "table"@).len() == 0 ==> update_record_step(id, params) == StepV::Reply(error_json(id, ErrorCode::InvalidParams, table_message())),
        json_str_or_empty(params, "table"@).len() > 0 && record_key(params) is None ==> update_record_step(id, params) == StepV::Reply(error_json(id, ErrorCode::InvalidParams, "pk_col and pk_val are required"@)),
        json_str_or_empty(params, "table"@).len() > 0 && record_key(params) is Some && assignment(params) is None ==> update_record_step(id, params) == StepV::Reply(error_json(id, ErrorCode::InvalidParams, "col_name and new_val are required"@)),
{
    reveal(update_record_step);
}

/// Updates one column of a record: the statement is DynamoDB work.
#[verifier::rlimit(100)]
pub fn update_record(id: Json, params: &Json) -> (r: Step)
    ensures
        r@ == update_record_step(id@, params@),
{
    proof {
        lemma_update_reply(id@, params@);
    }
    let table = params.str_or_empty("table");
    if table.unicode_len() == 0 {
        return Step::Reply(error_response(id, ErrorCode::InvalidParams, "table must be a non-empty string"));
    }
    let mut condition = String::new();
    if !append_key_condition(&mut condition, params) {
        return Step::Reply(error_response(id, ErrorCode::InvalidParams, "pk_col and pk_val are required"));
    }
    let mut sql = String::from_str("UPDATE ");
    append_quoted(&mut sql, table);
    if !append_assignment(&mut sql, params) {
        return Step::Reply(error_response(id, ErrorCode::InvalidParams, "col_name and new_val are required"));
    }
    sql.append(condition.as_str());
    let ghost key = record_key(params@)->0;
    let ghost kc = key.0;
    let ghost kl = key.1;
    let ghost set = assignment(params@)->0;
    proof {
        assert(condition@ =~= key_condition(kc, kl)) by {
            assert(Seq::<char>::empty() + key_condition(kc, kl) =~= key_condition(kc, kl));
        }
        assert(sql@ =~= update_sql(table@, set, kc, kl));
        lemma_update_call(id@, params@, table@, set, kc, kl);
    }
    let connection = extract_connection(params);
    let action = Action::ChangeRecord(sql);
    assert(action@ == ActionV::ChangeRecord(update_sql(table@, set, kc, kl)));
    let call = ServiceCall { id, connection, action };
    Step::Call(call)
}

/// The delete statement of a record.
pub open spec fn delete_sql(table: Seq<char>, pk_col: Seq<char>, pk_lit: Seq<char>) -> Seq<char> {
    "DELETE FROM "@ + quoted(table) + key_condition(pk_col, pk_lit)
}

/// `delete_record`: delete the record of `table` whose `pk_col` is `pk_val`;
/// invalid-params errors when the table or the key is missing or unusable.
pub open spec fn delete_record_step(id: JsonV, params: JsonV) -> StepV {
    let table = match json_get_str(params, "table"@) { Some(t) => t, None => Seq::empty() };
    if table.len() == 0 {
        StepV::Reply(error_json(id, ErrorCode::InvalidParams, table_message()))
    } else {
        match record_key(params) {
            None => StepV::Reply(error_json(id, ErrorCode::InvalidParams, "pk_col and pk_val are required"@)),
            Some((pk_col, pk_lit)) => StepV::Call(id, connection_from(params), ActionV::ChangeRecord(delete_sql(table, pk_col, pk_lit))),
        }
    }
}

/// Deletes a record: the statement is DynamoDB work.
#[verifier::rlimit(60)]
pub fn delete_record(id: Json, params: &Json) -> (r: Step)
    ensures
        r@ == delete_record_step(id@, params@),
{
    let table = params.str_or_empty("table");
    if table.unicode_len() == 0 {
        return Step::Reply(error_response(id, ErrorCode::InvalidParams, "table must be a non-empty string"));
    }
    let mut sql = String::from_str("DELETE FROM ");
    append_quoted(&mut sql, table);
    if !append_key_condition(&mut sql, params) {
        return Step::Reply(error_response(id, ErrorCode::InvalidParams, "pk_col and pk_val are required"));
    }
    Step::Call(ServiceCall { id, connection: extract_connection(params), action: Action::ChangeRecord(sql) })
}

/// The response to a record change: one affected row, or the internal error.
pub open spec fn record_change_response_json(id: JsonV, r: Result<ExecuteStatementOutput, PluginError>) -> JsonV {
    match r {
        Ok(_) => ok_json(id, JsonV::Object(seq![("affected_rows"@, JsonV::Number(decimal_chars(1)))])),
        Err(e) => error_json(id, ErrorCode::InternalError, e.message@),
    }
}

/// The response once a record change has run (or failed).
pub fn record_change_response(id: Json, r: Result<ExecuteStatementOutput, PluginError>) -> (out: Json)
    ensures
        out@ == record_change_response_json(id@, r),
{
    match r {
        Ok(_) => {
            let result = Json::object(vec![("affected_rows".to_owned(), count_json(1))]);
            proof {
                assert(result@->Object_0 =~= seq![("affected_rows"@, JsonV::Number(decimal_chars(1)))]);
            }
            ok_response(id, result)
        },
        Err(err) => error_response(id, ErrorCode::InternalError, err.message.as_str()),
    }
}

}

//! Query modes, and the shapes of the handlers' responses.
use vstd::prelude::*;

use crate::dynamodb::models::{attribute_type_name, readable_type, item_view, Item};
use crate::json::{Json, JsonV, lookup_member, member_index, views};
use crate::text::{
    decimal, decimal_chars, is_white_space, lemma_leading_ws_exact, lemma_trailing_ws_exact,
    split_once, split_once_chars, str_eq, trim, trim_chars, trim_start,
    trim_start_chars,
};

verus! {

/// How the body of a query is run.
#[derive(Debug, Clone, Copy, PartialEq, Eq, Structural)]
pub enum QueryMode {
    Partiql,
    Scan,
    Query,
    Get,
}

/// The mode and body of a query text. Leading white space is dropped; when the first line,
/// trimmed, is one of `#!partiql`, `#!scan`, `#!query`, `#!get`, that line selects the mode
/// and the rest (less its leading white space) is the body; otherwise the whole text is a
/// PartiQL body.
pub open spec fn query_parts(text: Seq<char>) -> (QueryMode, Seq<char>) {
    let query = trim_start_chars(text);
    let (header, body) = match split_once_chars(query, '\n') {
        Some(parts) => parts,
        None => (query, Seq::empty()),
    };
    let h = trim_chars(header);
    if h == "#!partiql"@ {
        (QueryMode::Partiql, trim_start_chars(body))
    } else if h == "#!scan"@ {
        (QueryMode::Scan, trim_start_chars(body))
    } else if h == "#!query"@ {
        (QueryMode::Query, trim_start_chars(body))
    } else if h == "#!get"@ {
        (QueryMode::Get, trim_start_chars(body))
    } else {
        (QueryMode::Partiql, query)
    }
}

proof fn lemma_header_line(h: Seq<char>, body: Seq<char>)
    requires
        h.len() > 0,
        !is_white_space(h[0]),
        !is_white_space(h.last()),
        forall|i: int| 0 <= i < h.len() ==> h[i] != '\n',
    ensures
        trim_start_chars(h + seq!['\n'] + body) == h + seq!['\n'] + body,
        split_once_chars(h + seq!['\n'] + body, '\n') == Some((h, body)),
        trim_chars(h) == h,
{
    let q = h + seq!['\n'] + body;
    assert(q[0] == h[0]);
    lemma_leading_ws_exact(q, 0);
    assert(q.skip(0) =~= q);
    let n = h.len() as int;
    assert(q[n] == '\n');
    let w = choose|i: int| 0 <= i < q.len() && q[i] == '\n' && forall|j: int| 0 <= j < i ==> q[j] != '\n';
    assert forall|j: int| 0 <= j < n implies q[j] != '\n' by {
        assert(q[j] == h[j]);
    }
    assert(0 <= n < q.len() && q[n] == '\n' && forall|j: int| 0 <= j < n ==> q[j] != '\n');
    assert(w == n) by {
        if w < n {
            assert(q[w] == h[w]);
        } else if w > n {
            assert(q[n] != '\n');
        }
    }
    assert(q.take(n) =~= h);
    assert(q.skip(n + 1) =~= body);
    lemma_leading_ws_exact(h, 0);
    assert(h.skip(0) =~= h);
    lemma_trailing_ws_exact(h, 0);
    assert(h.take(h.len() as int) =~= h);
}

proof fn lemma_partiql_header(body: Seq<char>)
    ensures
        query_parts("#!partiql"@ + seq!['\n'] + body) == (QueryMode::Partiql, trim_start_chars(body)),
{
    let h = "#!partiql"@;
    assert(h.len() > 0 && !is_white_space(h[0]) && !is_white_space(h.last()) && forall|i: int| 0 <= i < h.len() ==> h[i] != '\n') by {
        reveal_strlit("#!partiql");
    }
    lemma_header_line(h, body);
}

proof fn lemma_scan_header(body: Seq<char>)
    ensures
        query_parts("#!scan"@ + seq!['\n'] + body) == (QueryMode::Scan, trim_start_chars(body)),
{
    let h = "#!scan"@;
    assert(h.len() > 0 && !is_white_space(h[0]) && !is_white_space(h.last()) && forall|i: int| 0 <= i < h.len() ==> h[i] != '\n') by {
        reveal_strlit("#!scan");
    }
    assert(h != "#!partiql"@) by {
        reveal_strlit("#!scan");
        reveal_strlit("#!partiql");
        assert(h.len() != "#!partiql"@.len() || h[2] != "#!partiql"@[2]);
    }
    lemma_header_line(h, body);
}

proof fn lemma_query_header(body: Seq<char>)
    ensures
        query_parts("#!query"@ + seq!['\n'] + body) == (QueryMode::Query, trim_start_chars(body)),
{
    let h = "#!query"@;
    assert(h.len() > 0 && !is_white_space(h[0]) && !is_white_space(h.last()) && forall|i: int| 0 <= i < h.len() ==> h[i] != '\n') by {
        reveal_strlit("#!query");
    }
    assert(h != "#!partiql"@) by {
        reveal_strlit("#!query");
        reveal_strlit("#!partiql");
        assert(h.len() != "#!partiql"@.len() || h[2] != "#!partiql"@[2]);
    }
    assert(h != "#!scan"@) by {
        reveal_strlit("#!query");
        reveal_strlit("#!scan");
        assert(h.len() != "#!scan"@.len() || h[2] != "#!scan"@[2]);
    }
    lemma_header_line(h, body);
}

proof fn lemma_get_header(body: Seq<char>)
    ensures
        query_parts("#!get"@ + seq!['\n'] + body) == (QueryMode::Get, trim_start_chars(body)),
{
    let h = "#!get"@;
    assert(h.len() > 0 && !is_white_space(h[0]) && !is_white_space(h.last()) && forall|i: int| 0 <= i < h.len() ==> h[i] != '\n') by {
        reveal_strlit("#!get");
    }
    assert(h != "#!partiql"@) by {
        reveal_strlit("#!get");
        reveal_strlit("#!partiql");
        assert(h.len() != "#!partiql"@.len() || h[2] != "#!partiql"@[2]);
    }
    assert(h != "#!scan"@) by {
        reveal_strlit("#!get");
        reveal_strlit("#!scan");
        assert(h.len() != "#!scan"@.len() || h[2] != "#!scan"@[2]);
    }
    assert(h != "#!query"@) by {
        reveal_strlit("#!get");
        reveal_strlit("#!query");
        assert(h.len() != "#!query"@.len() || h[2] != "#!query"@[2]);
    }
    lemma_header_line(h, body);
}

/// A first line `#!partiql`, `#!scan`, `#!query` or `#!get` selects the mode, and the
/// rest of the text, less its leading white space, is the body.
pub proof fn lemma_header_selects_mode(body: Seq<char>)
    ensures
        query_parts("#!partiql"@ + seq!['\n'] + body) == (QueryMode::Partiql, trim_start_chars(body)),
        query_parts("#!scan"@ + seq!['\n'] + body) == (QueryMode::Scan, trim_start_chars(body)),
        query_parts("#!query"@ + seq!['\n'] + body) == (QueryMode::Query, trim_start_chars(body)),
        query_parts("#!get"@ + seq!['\n'] + body) == (QueryMode::Get, trim_start_chars(body)),
{
    lemma_partiql_header(body);
    lemma_scan_header(body);
    lemma_query_header(body);
    lemma_get_header(body);
}

/// A query with its detected mode.
#[derive(Debug, Clone)]
pub struct Query {
    pub mode: QueryMode,
    pub body: String,
}

impl Query {
    /// Detects the mode of a query text (see `query_parts`).
    pub fn parse(text: &str) -> (r: Query)
        ensures
            r.mode == query_parts(text@).0,
            r.body@ == query_parts(text@).1,
    {
        let query = trim_start(text);
        let (header, body) = match split_once(query, '\n') {
            Some(parts) => parts,
            None => (query, ""),
        };
        let h = trim(header);
        let (mode, body) = if str_eq(h, "#!partiql") {
            (QueryMode::Partiql, trim_start(body))
        } else if str_eq(h, "#!scan") {
            (QueryMode::Scan, trim_start(body))
        } else if str_eq(h, "#!query") {
            (QueryMode::Query, trim_start(body))
        } else if str_eq(h, "#!get") {
            (QueryMode::Get, trim_start(body))
        } else {
            (QueryMode::Partiql, query)
        };
        proof {
            reveal_strlit("");
            assert(""@ =~= Seq::<char>::empty());
        }
        Query { mode, body: body.to_owned() }
    }
}

impl vstd::std_specs::convert::FromSpecImpl<String> for Query {
    open spec fn obeys_from_spec() -> bool {
        false
    }

    open spec fn from_spec(v: String) -> Query {
        choose|q: Query| q.mode == query_parts(v@).0 && q.body@ == query_parts(v@).1
    }
}

impl From<String> for Query {
    /// Detects the mode of a query text (see `query_parts`).
    fn from(query: String) -> (r: Self)
        ensures
            r.mode == query_parts(query@).0,
            r.body@ == query_parts(query@).1,
    {
        Query::parse(query.as_str())
    }
}

/// Response shape for `execute_query`.
#[derive(Debug)]
pub struct ExecuteQueryResponse {
    pub columns: Vec<String>,
    pub rows: Vec<Vec<Json>>,
    pub affected_rows: usize,
    pub execution_time_ms: usize,
    pub truncated: bool,
    pub has_more: bool,
    pub pagination: Option<Json>,
}

/// The JSON of each row.
pub open spec fn rows_json(rows: Seq<Vec<Json>>) -> Seq<JsonV> {
    Seq::new(rows.len(), |i: int| JsonV::Array(views(rows[i]@)))
}

/// The JSON of an optional value (`null` when absent).
pub open spec fn opt_json(o: Option<Json>) -> JsonV {
    match o {
        Some(v) => v@,
        None => JsonV::Null,
    }
}

/// The JSON of a list of strings.
pub open spec fn strings_json(v: Seq<String>) -> JsonV {
    JsonV::Array(Seq::new(v.len(), |i: int| JsonV::Str(v[i]@)))
}

/// The serialized form of an `ExecuteQueryResponse`: its fields as members, by name.
pub open spec fn execute_response_json(r: ExecuteQueryResponse) -> JsonV {
    JsonV::Object(
        seq![
            ("affected_rows"@, JsonV::Number(decimal_chars(r.affected_rows as nat))),
            ("columns"@, strings_json(r.columns@)),
            ("execution_time_ms"@, JsonV::Number(decimal_chars(r.execution_time_ms as nat))),
            ("has_more"@, JsonV::Bool(r.has_more)),
            ("pagination"@, opt_json(r.pagination)),
            ("rows"@, JsonV::Array(rows_json(r.rows@))),
            ("truncated"@, JsonV::Bool(r.truncated)),
        ],
    )
}

/// A JSON array of the given strings.
pub fn strings_to_json(v: &Vec<String>) -> (r: Json)
    ensures
        r@ == strings_json(v@),
{
    let mut out: Vec<Json> = Vec::new();
    let mut i: usize = 0;
    while i < v.len()
        invariant
            i <= v.len(),
            out.len() == i,
            forall|j: int| 0 <= j < i ==> (#[trigger] out@[j])@ == JsonV::Str(v@[j]@),
        decreases v.len() - i,
    {
        out.push(Json::string(v[i].as_str()));
        i = i + 1;
    }
    let r = Json::array(out);
    assert(r@ =~= strings_json(v@)) by {
        assert(views(out@) =~= strings_json(v@)->Array_0);
    }
    r
}

/// A JSON number for a count.
pub fn count_json(n: usize) -> (r: Json)
    ensures
        r@ == JsonV::Number(decimal_chars(n as nat)),
{
    Json::Number(decimal(n as u64))
}

impl ExecuteQueryResponse {
    /// No columns, no rows, nothing affected, nothing more to fetch.
    pub fn empty() -> (r: Self)
        ensures
            r.columns@.len() == 0,
            r.rows@.len() == 0,
            r.affected_rows == 0,
            r.execution_time_ms == 0,
            !r.truncated,
            !r.has_more,
            r.pagination is None,
    {
        ExecuteQueryResponse {
            columns: Vec::new(),
            rows: Vec::new(),
            affected_rows: 0,
            execution_time_ms: 0,
            truncated: false,
            has_more: false,
            pagination: None,
        }
    }

    /// The response as JSON (see `execute_response_json`).
    pub fn to_json(self) -> (r: Json)
        ensures
            r@ == execute_response_json(self),
    {
        let ghost me = self;
        let columns = strings_to_json(&self.columns);
        let mut rows: Vec<Json> = Vec::new();
        let mut src = self.rows;
        let ghost all = src@;
        let mut taken: Vec<Vec<Json>> = Vec::new();
        while src.len() > 0
            invariant
                all == me.rows@,
                src.len() + rows.len() == all.len(),
                src@ == all.skip(rows.len() as int),
                forall|j: int| 0 <= j < rows.len() ==> (#[trigger] rows@[j])@ == JsonV::Array(views(all[j]@)),
            decreases src.len(),
        {
            let ghost n = rows.len() as int;
            let row = src.remove(0);
            proof {
                assert(row == all[n]);
                assert(src@ =~= all.skip(n + 1));
            }
            rows.push(Json::array(row));
        }
        let rows_json_value = Json::array(rows);
        proof {
            assert(views(rows@) =~= rows_json(all));
        }
        let pagination = match self.pagination {
            Some(p) => p,
            None => Json::Null,
        };
        let r = Json::object(vec![
            ("affected_rows".to_owned(), count_json(self.affected_rows)),
            ("columns".to_owned(), columns),
            ("execution_time_ms".to_owned(), count_json(self.execution_time_ms)),
            ("has_more".to_owned(), Json::Bool(self.has_more)),
            ("pagination".to_owned(), pagination),
            ("rows".to_owned(), rows_json_value),
            ("truncated".to_owned(), Json::Bool(self.truncated)),
        ]);
        proof {
            assert(r@->Object_0 =~= execute_response_json(me)->Object_0);
        }
        r
    }
}

/// Response shape for `get_columns`.
#[derive(Debug)]
pub struct ColumnResponse {
    pub name: String,
    pub data_type: String,
    pub is_pk: bool,
    pub is_nullable: bool,
    pub is_auto_increment: bool,
}

/// The serialized form of a `ColumnResponse`: its fields as members, by name.
pub open spec fn column_response_json(c: ColumnResponse) -> JsonV {
    JsonV::Object(
        seq![
            ("data_type"@, JsonV::Str(c.data_type@)),
            ("is_auto_increment"@, JsonV::Bool(c.is_auto_increment)),
            ("is_nullable"@, JsonV::Bool(c.is_nullable)),
            ("is_pk"@, JsonV::Bool(c.is_pk)),
            ("name"@, JsonV::Str(c.name@)),
        ],
    )
}

impl ColumnResponse {
    /// A column of the given attribute type code; never nullable nor auto-incremented.
    pub fn new(name: String, attr_type: &str, is_pk: bool, _is_sort_key: bool) -> (r: Self)
        ensures
            r.name == name,
            r.data_type@ == readable_type(attr_type@),
            r.is_pk == is_pk,
            !r.is_nullable,
            !r.is_auto_increment,
    {
        ColumnResponse {
            name,
            data_type: attribute_type_name(attr_type).to_owned(),
            is_pk,
            is_nullable: false,
            is_auto_increment: false,
        }
    }

    /// The column as JSON (see `column_response_json`).
    pub fn to_json(&self) -> (r: Json)
        ensures
            r@ == column_response_json(*self),
    {
        let r = Json::object(vec![
            ("data_type".to_owned(), Json::string(self.data_type.as_str())),
            ("is_auto_increment".to_owned(), Json::Bool(self.is_auto_increment)),
            ("is_nullable".to_owned(), Json::Bool(self.is_nullable)),
            ("is_pk".to_owned(), Json::Bool(self.is_pk)),
            ("name".to_owned(), Json::string(self.name.as_str())),
        ]);
        proof {
            assert(r@->Object_0 =~= column_response_json(*self)->Object_0);
        }
        r
    }
}

/// Response shape for `get_indexes`.
#[derive(Debug)]
pub struct IndexResponse {
    pub name: String,
    pub columns: Vec<String>,
    pub is_unique: bool,
    pub is_primary: bool,
}

/// The serialized form of an `IndexResponse`: its fields as members, by name.
pub open spec fn index_response_json(x: IndexResponse) -> JsonV {
    JsonV::Object(
        seq![
            ("columns"@, strings_json(x.columns@)),
            ("is_primary"@, JsonV::Bool(x.is_primary)),
            ("is_unique"@, JsonV::Bool(x.is_unique)),
            ("name"@, JsonV::Str(x.name@)),
        ],
    )
}

impl IndexResponse {
    /// The index as JSON (see `index_response_json`).
    pub fn to_json(&self) -> (r: Json)
        ensures
            r@ == index_response_json(*self),
    {
        let r = Json::object(vec![
            ("columns".to_owned(), strings_to_json(&self.columns)),
            ("is_primary".to_owned(), Json::Bool(self.is_primary)),
            ("is_unique".to_owned(), Json::Bool(self.is_unique)),
            ("name".to_owned(), Json::string(self.name.as_str())),
        ]);
        proof {
            assert(r@->Object_0 =~= index_response_json(*self)->Object_0);
        }
        r
    }
}

/// The cell of `item` for `column`: the first member's value of the object stored under
/// `column` (DynamoDB's typed form `{"S": "hello"}`), or `null` when the column is missing,
/// is not an object, or is an empty object.
pub open spec fn row_cell(item: Seq<(Seq<char>, JsonV)>, column: Seq<char>) -> JsonV {
    match member_index(item, column) {
        Some(i) => match item[i].1 {
            JsonV::Object(ms) => if ms.len() > 0 { ms[0].1 } else { JsonV::Null },
            _ => JsonV::Null,
        },
        None => JsonV::Null,
    }
}

fn first_member_value(v: &Json) -> (r: Json)
    ensures
        r@ == match v@ {
            JsonV::Object(ms) => if ms.len() > 0 { ms[0].1 } else { JsonV::Null },
            _ => JsonV::Null,
        },
{
    match v {
        Json::Object(ms) => {
            if ms.len() > 0 {
                ms[0].1.duplicate()
            } else {
                Json::Null
            }
        },
        _ => Json::Null,
    }
}

/// Converts a DynamoDB item to a flat row of values, one per column (see `row_cell`).
pub fn dynamo_item_to_row(item: &Item, columns: &Vec<String>) -> (r: Vec<Json>)
    ensures
        r.len() == columns.len(),
        forall|i: int| 0 <= i < columns.len() ==> (#[trigger] r@[i])@ == row_cell(item_view(*item), columns@[i]@),
{
    let mut out: Vec<Json> = Vec::new();
    let mut i: usize = 0;
    while i < columns.len()
        invariant
            i <= columns.len(),
            out.len() == i,
            forall|j: int| 0 <= j < i ==> (#[trigger] out@[j])@ == row_cell(item_view(*item), columns@[j]@),
        decreases columns.len() - i,
    {
        let cell = match lookup_member(item, columns[i].as_str()) {
            Some(v) => first_member_value(v),
            None => Json::Null,
        };
        out.push(cell);
        i = i + 1;
    }
    out
}

}

//! What the plugin decides around its DynamoDB calls: reading table descriptions,
//! collecting paginated table listings, and the messages of failed calls.
use vstd::prelude::*;

use crate::dynamodb::models::{
    readable_type, AttributeDefinition, ColumnInfo, DescribeTableOutput, IndexInfo, KeyElement,
    SecondaryIndex, TableDescription,
};
use crate::error::{ErrorCode, PluginError};
use crate::text::{str_eq, string_views};

verus! {

/// Whether the key schema holds `name` with key type `kind`.
pub open spec fn has_key(keys: Seq<KeyElement>, name: Seq<char>, kind: Seq<char>) -> bool {
    exists|j: int| 0 <= j < keys.len() && keys[j].attribute_name@ == name && keys[j].key_type@ == kind
}

/// Whether `c` is the column `name` of readable type `data_type`, marked as partition key
/// exactly when the key schema names it `HASH` and as sort key exactly when it names it `RANGE`.
pub open spec fn column_is(c: ColumnInfo, name: Seq<char>, data_type: Seq<char>, keys: Seq<KeyElement>) -> bool {
    &&& c.name@ == name
    &&& c.data_type@ == data_type
    &&& c.is_pk == has_key(keys, name, "HASH"@)
    &&& c.is_sort_key == has_key(keys, name, "RANGE"@)
}

/// The key attributes, in key-schema order and each once, that are not already in `known`.
pub open spec fn extra_key_names(known: Seq<Seq<char>>, keys: Seq<KeyElement>) -> Seq<Seq<char>>
    decreases keys.len(),
{
    if keys.len() == 0 {
        Seq::empty()
    } else {
        let prev = extra_key_names(known, keys.drop_last());
        let k = keys.last().attribute_name@;
        if (known + prev).contains(k) {
            prev
        } else {
            prev.push(k)
        }
    }
}

/// The attribute names of the definitions.
pub open spec fn definition_names(defs: Seq<AttributeDefinition>) -> Seq<Seq<char>> {
    Seq::new(defs.len(), |i: int| defs[i].attribute_name@)
}

/// The columns of a table: one per attribute definition, in order, then one of type
/// `STRING` for each key attribute that no definition names.
pub open spec fn columns_are(cols: Seq<ColumnInfo>, defs: Seq<AttributeDefinition>, keys: Seq<KeyElement>) -> bool {
    let extras = extra_key_names(definition_names(defs), keys);
    &&& cols.len() == defs.len() + extras.len()
    &&& forall|i: int|
        0 <= i < defs.len() ==> column_is(
            #[trigger] cols[i],
            defs[i].attribute_name@,
            readable_type(defs[i].attribute_type@),
            keys,
        )
    &&& forall|i: int|
        defs.len() <= i < cols.len() ==> column_is(#[trigger] cols[i], extras[i - defs.len()], "STRING"@, keys)
}

proof fn lemma_extra_key_names(known: Seq<Seq<char>>, keys: Seq<KeyElement>)
    ensures
        forall|j: int| 0 <= j < keys.len() ==> (known + extra_key_names(known, keys)).contains(#[trigger] keys[j].attribute_name@),
        forall|i: int| 0 <= i < extra_key_names(known, keys).len() ==> !known.contains(#[trigger] extra_key_names(known, keys)[i]),
        forall|i: int, j: int| 0 <= i < j < extra_key_names(known, keys).len() ==> #[trigger] extra_key_names(known, keys)[i] != #[trigger] extra_key_names(known, keys)[j],
    decreases keys.len(),
{
    if keys.len() > 0 {
        let rest = keys.drop_last();
        lemma_extra_key_names(known, rest);
        let prev = extra_key_names(known, rest);
        let k = keys.last().attribute_name@;
        let ex = extra_key_names(known, keys);
        assert forall|j: int| 0 <= j < keys.len() implies (known + ex).contains(#[trigger] keys[j].attribute_name@) by {
            if j < keys.len() - 1 {
                assert(rest[j] == keys[j]);
                let n = keys[j].attribute_name@;
                assert((known + prev).contains(n));
                let m = choose|m: int| 0 <= m < (known + prev).len() && (known + prev)[m] == n;
                if !(known + prev).contains(k) {
                    assert((known + ex)[m] == (known + prev)[m]);
                }
            } else {
                if (known + prev).contains(k) {
                } else {
                    assert((known + ex)[(known.len() + prev.len()) as int] == k);
                }
            }
        }
        if !(known + prev).contains(k) {
            assert forall|i: int| 0 <= i < ex.len() implies !known.contains(#[trigger] ex[i]) by {
                if i == prev.len() {
                    if known.contains(k) {
                        let m = choose|m: int| 0 <= m < known.len() && known[m] == k;
                        assert((known + prev)[m] == k);
                    }
                } else {
                    assert(ex[i] == prev[i]);
                }
            }
            assert forall|i: int, j: int| 0 <= i < j < ex.len() implies #[trigger] ex[i] != #[trigger] ex[j] by {
                if j == prev.len() {
                    assert(ex[i] == prev[i]);
                    assert((known + prev)[known.len() + i] == prev[i]);
                } else {
                    assert(ex[i] == prev[i]);
                    assert(ex[j] == prev[j]);
                }
            }
        }
    }
}

/// Every attribute of the key schema is among the columns, and when the attribute
/// definitions name distinct attributes, the columns have distinct names.
pub proof fn lemma_columns_cover_keys(cols: Seq<ColumnInfo>, defs: Seq<AttributeDefinition>, keys: Seq<KeyElement>)
    requires
        columns_are(cols, defs, keys),
    ensures
        forall|j: int| 0 <= j < keys.len() ==> exists|i: int| 0 <= i < cols.len() && (#[trigger] cols[i]).name@ == (#[trigger] keys[j]).attribute_name@,
        (forall|a: int, b: int| 0 <= a < b < defs.len() ==> (#[trigger] defs[a]).attribute_name@ != (#[trigger] defs[b]).attribute_name@)
            ==> forall|a: int, b: int| 0 <= a < b < cols.len() ==> (#[trigger] cols[a]).name@ != (#[trigger] cols[b]).name@,
{
    let known = definition_names(defs);
    let ex = extra_key_names(known, keys);
    lemma_extra_key_names(known, keys);
    let names = known + ex;
    assert forall|i: int| 0 <= i < cols.len() implies (#[trigger] cols[i]).name@ == names[i] by {}
    assert forall|j: int| 0 <= j < keys.len() implies exists|i: int| 0 <= i < cols.len() && (#[trigger] cols[i]).name@ == (#[trigger] keys[j]).attribute_name@ by {
        let n = keys[j].attribute_name@;
        assert(names.contains(n));
        let i = choose|i: int| 0 <= i < names.len() && names[i] == n;
        assert(cols[i].name@ == n);
    }
    if forall|a: int, b: int| 0 <= a < b < defs.len() ==> (#[trigger] defs[a]).attribute_name@ != (#[trigger] defs[b]).attribute_name@ {
        assert forall|a: int, b: int| 0 <= a < b < cols.len() implies (#[trigger] cols[a]).name@ != (#[trigger] cols[b]).name@ by {
            if b < defs.len() {
                assert(known[a] == defs[a].attribute_name@);
                assert(known[b] == defs[b].attribute_name@);
            } else if a < defs.len() {
                assert(names[b] == ex[b - defs.len()]);
                assert(known[a] == names[a]);
                if names[a] == names[b] {
                    assert(known.contains(ex[b - defs.len()]));
                }
            } else {
                assert(names[a] == ex[a - defs.len()]);
                assert(names[b] == ex[b - defs.len()]);
            }
        }
    }
}

/// Marks `col` as partition or sort key from the key schema.
fn mark_keys(col: &mut ColumnInfo, keys: &Vec<KeyElement>)
    requires
        !old(col).is_pk,
        !old(col).is_sort_key,
    ensures
        final(col).name == old(col).name,
        final(col).data_type == old(col).data_type,
        final(col).is_pk == has_key(keys@, old(col).name@, "HASH"@),
        final(col).is_sort_key == has_key(keys@, old(col).name@, "RANGE"@),
{
    let mut i: usize = 0;
    while i < keys.len()
        invariant
            i <= keys.len(),
            col.name == old(col).name,
            col.data_type == old(col).data_type,
            col.is_pk == has_key(keys@.take(i as int), col.name@, "HASH"@),
            col.is_sort_key == has_key(keys@.take(i as int), col.name@, "RANGE"@),
        decreases keys.len() - i,
    {
        if str_eq(col.name.as_str(), keys[i].attribute_name.as_str()) {
            if str_eq(keys[i].key_type.as_str(), "HASH") {
                col.is_pk = true;
            } else if str_eq(keys[i].key_type.as_str(), "RANGE") {
                col.is_sort_key = true;
            }
        }
        proof {
            let t = keys@.take(i + 1);
            let name = col.name@;
            reveal_strlit("HASH");
            reveal_strlit("RANGE");
            assert("HASH"@ != "RANGE"@) by {
                assert("HASH"@[0] != "RANGE"@[0]);
            }
            assert(t[i as int] == keys@[i as int]);
            assert forall|kind: Seq<char>| has_key(t, name, kind) <==> (has_key(keys@.take(i as int), name, kind)
                || (keys@[i as int].attribute_name@ == name && keys@[i as int].key_type@ == kind)) by {
                if has_key(t, name, kind) {
                    let j = choose|j: int| 0 <= j < t.len() && t[j].attribute_name@ == name && t[j].key_type@ == kind;
                    if j < i {
                        assert(keys@.take(i as int)[j] == t[j]);
                    }
                }
                if has_key(keys@.take(i as int), name, kind) {
                    let j = choose|j: int| 0 <= j < i && keys@.take(i as int)[j].attribute_name@ == name && keys@.take(i as int)[j].key_type@ == kind;
                    assert(t[j] == keys@.take(i as int)[j]);
                }
            }
        }
        i = i + 1;
    }
    proof {
        assert(keys@.take(keys.len() as int) =~= keys@);
    }
}

/// Whether some column of `cols` is named `name`.
fn has_column(cols: &Vec<ColumnInfo>, name: &str) -> (r: bool)
    ensures
        r == exists|j: int| 0 <= j < cols.len() && (#[trigger] cols@[j]).name@ == name@,
{
    let mut i: usize = 0;
    while i < cols.len()
        invariant
            i <= cols.len(),
            forall|j: int| 0 <= j < i ==> (#[trigger] cols@[j]).name@ != name@,
        decreases cols.len() - i,
    {
        if str_eq(cols[i].name.as_str(), name) {
            return true;
        }
        i = i + 1;
    }
    false
}

/// The columns of a table from its attribute definitions and key schema (see `columns_are`).
pub fn table_columns(defs: &Vec<AttributeDefinition>, keys: &Vec<KeyElement>) -> (r: Vec<ColumnInfo>)
    ensures
        columns_are(r@, defs@, keys@),
{
    let mut columns: Vec<ColumnInfo> = Vec::new();
    let mut i: usize = 0;
    while i < defs.len()
        invariant
            i <= defs.len(),
            columns.len() == i,
            forall|j: int|
                0 <= j < i ==> column_is(
                    #[trigger] columns@[j],
                    defs@[j].attribute_name@,
                    readable_type(defs@[j].attribute_type@),
                    keys@,
                ),
        decreases defs.len() - i,
    {
        let mut col = ColumnInfo::new(defs[i].attribute_name.clone(), defs[i].attribute_type.as_str());
        mark_keys(&mut col, keys);
        columns.push(col);
        i = i + 1;
    }
    let ghost known = definition_names(defs@);
    let mut k: usize = 0;
    while k < keys.len()
        invariant
            k <= keys.len(),
            known == definition_names(defs@),
            columns.len() == defs.len() + extra_key_names(known, keys@.take(k as int)).len(),
            forall|j: int|
                0 <= j < defs.len() ==> column_is(
                    #[trigger] columns@[j],
                    defs@[j].attribute_name@,
                    readable_type(defs@[j].attribute_type@),
                    keys@,
                ),
            forall|j: int|
                defs.len() <= j < columns.len() ==> column_is(
                    #[trigger] columns@[j],
                    extra_key_names(known, keys@.take(k as int))[j - defs.len()],
                    "STRING"@,
                    keys@,
                ),
        decreases keys.len() - k,
    {
        let ghost prev = extra_key_names(known, keys@.take(k as int));
        let ghost names = known + prev;
        proof {
            assert(keys@.take(k + 1).drop_last() =~= keys@.take(k as int));
            assert(keys@.take(k + 1).last() == keys@[k as int]);
            assert forall|j: int| 0 <= j < columns.len() implies (#[trigger] columns@[j]).name@ == names[j] by {}
        }
        let present = has_column(&columns, keys[k].attribute_name.as_str());
        proof {
            let kn = keys@[k as int].attribute_name@;
            if present {
                let j = choose|j: int| 0 <= j < columns.len() && (#[trigger] columns@[j]).name@ == kn;
                assert(names[j] == kn);
                assert(names.contains(kn));
            } else {
                if names.contains(kn) {
                    let j = choose|j: int| 0 <= j < names.len() && names[j] == kn;
                    assert(columns@[j].name@ == names[j]);
                }
            }
        }
        if !present {
            let mut col = ColumnInfo::new(keys[k].attribute_name.clone(), "S");
            proof {
                reveal_strlit("S");
                reveal_strlit("STRING");
                assert("S"@ =~= seq!['S']);
                assert(readable_type("S"@) == "STRING"@);
            }
            mark_keys(&mut col, keys);
            columns.push(col);
        }
        k = k + 1;
    }
    proof {
        assert(keys@.take(keys.len() as int) =~= keys@);
    }
    columns
}


/// The attribute names of a key schema, in order.
pub open spec fn key_names(keys: Seq<KeyElement>) -> Seq<Seq<char>> {
    Seq::new(keys.len(), |i: int| keys[i].attribute_name@)
}

/// An index's name, or `"unknown"` when it has none.
pub open spec fn name_or_unknown(name: Option<String>) -> Seq<char> {
    match name {
        Some(n) => n@,
        None => "unknown"@,
    }
}

/// Whether `ix` is the index `name` over `columns` with the given flags.
pub open spec fn index_is(ix: IndexInfo, name: Seq<char>, columns: Seq<Seq<char>>, unique: bool, primary: bool) -> bool {
    &&& ix.name@ == name
    &&& string_views(ix.columns@) == columns
    &&& ix.is_unique == unique
    &&& ix.is_primary == primary
}

/// The indexes of a table: its primary key (when the key schema is not empty) as a unique
/// primary index named `primary`, then every global and every local secondary index, in order.
pub open spec fn indexes_are(r: Seq<IndexInfo>, t: TableDescription) -> bool {
    let p: int = if t.key_schema.len() > 0 { 1 } else { 0 };
    let g = t.global_secondary_indexes@;
    let l = t.local_secondary_indexes@;
    &&& r.len() == p + g.len() + l.len()
    &&& p == 1 ==> index_is(r[0], "primary"@, key_names(t.key_schema@), true, true)
    &&& forall|i: int|
        p <= i < p + g.len() ==> index_is(
            #[trigger] r[i],
            name_or_unknown(g[i - p].index_name),
            key_names(g[i - p].key_schema@),
            false,
            false,
        )
    &&& forall|i: int|
        p + g.len() <= i < r.len() ==> index_is(
            #[trigger] r[i],
            name_or_unknown(l[i - p - g.len()].index_name),
            key_names(l[i - p - g.len()].key_schema@),
            false,
            false,
        )
}

fn key_name_list(keys: &Vec<KeyElement>) -> (r: Vec<String>)
    ensures
        string_views(r@) == key_names(keys@),
{
    let mut out: Vec<String> = Vec::new();
    let mut i: usize = 0;
    while i < keys.len()
        invariant
            i <= keys.len(),
            out.len() == i,
            forall|j: int| 0 <= j < i ==> (#[trigger] out@[j])@ == keys@[j].attribute_name@,
        decreases keys.len() - i,
    {
        out.push(keys[i].attribute_name.clone());
        i = i + 1;
    }
    assert(string_views(out@) =~= key_names(keys@));
    out
}

fn secondary_index(ix: &SecondaryIndex) -> (r: IndexInfo)
    ensures
        index_is(r, name_or_unknown(ix.index_name), key_names(ix.key_schema@), false, false),
{
    let name = match &ix.index_name {
        Some(n) => n.clone(),
        None => "unknown".to_owned(),
    };
    IndexInfo { name, columns: key_name_list(&ix.key_schema), is_unique: false, is_primary: false }
}

/// The primary key and the secondary indexes of a table (see `indexes_are`).
pub fn extract_indexes(table: &TableDescription) -> (r: Vec<IndexInfo>)
    ensures
        indexes_are(r@, *table),
{
    let mut indexes: Vec<IndexInfo> = Vec::new();
    let pk_columns = key_name_list(&table.key_schema);
    assert(pk_columns.len() == table.key_schema.len()) by {
        assert(string_views(pk_columns@).len() == key_names(table.key_schema@).len());
    }
    let p: usize = if pk_columns.len() > 0 { 1 } else { 0 };
    if pk_columns.len() > 0 {
        indexes.push(IndexInfo { name: "primary".to_owned(), columns: pk_columns, is_unique: true, is_primary: true });
    }
    let g = &table.global_secondary_indexes;
    let l = &table.local_secondary_indexes;
    let mut i: usize = 0;
    while i < g.len()
        invariant
            i <= g.len(),
            p == (if table.key_schema.len() > 0 { 1usize } else { 0usize }),
            indexes.len() == p + i,
            p == 1 ==> index_is(indexes@[0], "primary"@, key_names(table.key_schema@), true, true),
            forall|j: int|
                p <= j < indexes.len() ==> index_is(
                    #[trigger] indexes@[j],
                    name_or_unknown(g@[j - p].index_name),
                    key_names(g@[j - p].key_schema@),
                    false,
                    false,
                ),
        decreases g.len() - i,
    {
        indexes.push(secondary_index(&g[i]));
        i = i + 1;
    }
    let mut k: usize = 0;
    while k < l.len()
        invariant
            k <= l.len(),
            p == (if table.key_schema.len() > 0 { 1usize } else { 0usize }),
            indexes.len() == p + g.len() + k,
            p == 1 ==> index_is(indexes@[0], "primary"@, key_names(table.key_schema@), true, true),
            forall|j: int|
                p <= j < p + g.len() ==> index_is(
                    #[trigger] indexes@[j],
                    name_or_unknown(g@[j - p].index_name),
                    key_names(g@[j - p].key_schema@),
                    false,
                    false,
                ),
            forall|j: int|
                p + g.len() <= j < indexes.len() ==> index_is(
                    #[trigger] indexes@[j],
                    name_or_unknown(l@[j - p - g.len()].index_name),
                    key_names(l@[j - p - g.len()].key_schema@),
                    false,
                    false,
                ),
        decreases l.len() - k,
    {
        indexes.push(secondary_index(&l[k]));
        k = k + 1;
    }
    indexes
}

/// The message of a table description that the service did not return.
pub open spec fn not_found_message(table_name: Seq<char>) -> Seq<char> {
    "Table '"@ + table_name + "' not found"@
}

/// What the plugin keeps of a described table: its name, columns (see `columns_are`),
/// indexes (see `indexes_are`), status and sizes; an internal error when the service
/// returned no description.
pub fn describe_table_output(table_name: &str, table: Option<TableDescription>) -> (r: Result<DescribeTableOutput, PluginError>)
    ensures
        match table {
            None => r matches Err(e) && e.code == ErrorCode::InternalError && e.message@ == not_found_message(table_name@),
            Some(t) => r matches Ok(out) && {
                &&& out.table_name == t.table_name
                &&& columns_are(out.columns@, t.attribute_definitions@, t.key_schema@)
                &&& indexes_are(out.indexes@, t)
                &&& out.table_status == t.table_status
                &&& out.item_count == t.item_count
                &&& out.table_size_bytes == t.table_size_bytes
            },
        },
{
    match table {
        None => {
            let mut msg = String::from_str("Table '");
            msg.append(table_name);
            msg.append("' not found");
            Err(PluginError::internal(msg.as_str()))
        },
        Some(t) => {
            let columns = table_columns(&t.attribute_definitions, &t.key_schema);
            let indexes = extract_indexes(&t);
            Ok(DescribeTableOutput {
                table_name: t.table_name,
                columns,
                indexes,
                table_status: t.table_status,
                item_count: t.item_count,
                table_size_bytes: t.table_size_bytes,
            })
        },
    }
}


/// The table names of a `ListTables` pagination, collected page by page.
pub struct TableListing {
    pub names: Vec<String>,
    /// The name to start the next page after, while one is owed.
    pub next_start: Option<String>,
    /// Whether the last page said that no page follows.
    pub finished: bool,
}

impl TableListing {
    /// Before the first page: nothing collected, the first page starts at the beginning.
    pub fn new() -> (r: Self)
        ensures
            r.names@.len() == 0,
            r.next_start is None,
            !r.finished,
    {
        TableListing { names: Vec::new(), next_start: None, finished: false }
    }

    /// Takes in one page: its names are appended in order; the pagination is finished
    /// exactly when the page names no last evaluated table.
    pub fn absorb(&mut self, page: Vec<String>, last_evaluated: Option<String>)
        ensures
            final(self).names@ == old(self).names@ + page@,
            final(self).next_start == last_evaluated,
            final(self).finished == (last_evaluated is None),
    {
        let mut page = page;
        self.names.append(&mut page);
        self.finished = last_evaluated.is_none();
        self.next_start = last_evaluated;
    }
}

/// The message of a failed call: the call's description, a colon, and the service's error.
pub open spec fn failure_message(what: Seq<char>, error: Seq<char>) -> Seq<char> {
    what + ": "@ + error
}

fn call_failed(what: &str, error: &str) -> (r: PluginError)
    ensures
        r.code == ErrorCode::InternalError,
        r.message@ == failure_message(what@, error@),
{
    let mut msg = String::from_str(what);
    msg.append(": ");
    msg.append(error);
    PluginError::internal(msg.as_str())
}

/// The error of a failed ping, from the text of the service's error.
pub fn ping_failed(error: &str) -> (r: PluginError)
    ensures
        r.code == ErrorCode::InternalError,
        r.message@ == failure_message("DynamoDB ping failed"@, error@),
{
    call_failed("DynamoDB ping failed", error)
}

/// The error of a failed `ListTables` call.
pub fn list_tables_failed(error: &str) -> (r: PluginError)
    ensures
        r.code == ErrorCode::InternalError,
        r.message@ == failure_message("ListTables failed"@, error@),
{
    call_failed("ListTables failed", error)
}

/// The error of a failed `DescribeTable` call.
pub fn describe_table_failed(error: &str) -> (r: PluginError)
    ensures
        r.code == ErrorCode::InternalError,
        r.message@ == failure_message("DescribeTable failed"@, error@),
{
    call_failed("DescribeTable failed", error)
}

/// The error of a failed `ExecuteStatement` call.
pub fn execute_statement_failed(error: &str) -> (r: PluginError)
    ensures
        r.code == ErrorCode::InternalError,
        r.message@ == failure_message("ExecuteStatement failed"@, error@),
{
    call_failed("ExecuteStatement failed", error)
}

}

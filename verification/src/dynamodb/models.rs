//! Values that the DynamoDB service hands back, and what the plugin makes of them.
use vstd::prelude::*;

use crate::json::{Json, JsonV, member_views};
use crate::text::str_eq;

verus! {

/// The readable name of a DynamoDB attribute type code; unknown codes read as `"STRING"`.
pub open spec fn readable_type(code: Seq<char>) -> Seq<char> {
    if code == "S"@ {
        "STRING"@
    } else if code == "N"@ {
        "NUMBER"@
    } else if code == "B"@ {
        "BINARY"@
    } else if code == "BOOL"@ {
        "BOOLEAN"@
    } else if code == "SS"@ {
        "STRING_SET"@
    } else if code == "NS"@ {
        "NUMBER_SET"@
    } else if code == "BS"@ {
        "BINARY_SET"@
    } else if code == "L"@ {
        "LIST"@
    } else if code == "M"@ {
        "MAP"@
    } else if code == "NULL"@ {
        "NULL"@
    } else {
        "STRING"@
    }
}

/// Maps DynamoDB attribute types to human-readable type names.
pub fn attribute_type_name(attr_type: &str) -> (r: &'static str)
    ensures
        r@ == readable_type(attr_type@),
{
    if str_eq(attr_type, "S") {
        "STRING"
    } else if str_eq(attr_type, "N") {
        "NUMBER"
    } else if str_eq(attr_type, "B") {
        "BINARY"
    } else if str_eq(attr_type, "BOOL") {
        "BOOLEAN"
    } else if str_eq(attr_type, "SS") {
        "STRING_SET"
    } else if str_eq(attr_type, "NS") {
        "NUMBER_SET"
    } else if str_eq(attr_type, "BS") {
        "BINARY_SET"
    } else if str_eq(attr_type, "L") {
        "LIST"
    } else if str_eq(attr_type, "M") {
        "MAP"
    } else if str_eq(attr_type, "NULL") {
        "NULL"
    } else {
        "STRING"
    }
}

/// A column of a DynamoDB table (an attribute definition or a key attribute).
#[derive(Debug, Clone)]
pub struct ColumnInfo {
    pub name: String,
    pub data_type: String,
    pub is_pk: bool,
    pub is_sort_key: bool,
}

impl ColumnInfo {
    /// A column of the given attribute type code, not part of any key.
    pub fn new(name: String, data_type: &str) -> (r: Self)
        ensures
            r.name == name,
            r.data_type@ == readable_type(data_type@),
            !r.is_pk,
            !r.is_sort_key,
    {
        ColumnInfo {
            name,
            data_type: attribute_type_name(data_type).to_owned(),
            is_pk: false,
            is_sort_key: false,
        }
    }
}

/// An index of a table: its primary key, a global or a local secondary index.
#[derive(Debug, Clone)]
pub struct IndexInfo {
    pub name: String,
    pub columns: Vec<String>,
    pub is_unique: bool,
    pub is_primary: bool,
}

/// What the plugin keeps of a table description.
#[derive(Debug, Clone)]
pub struct DescribeTableOutput {
    pub table_name: Option<String>,
    pub columns: Vec<ColumnInfo>,
    pub indexes: Vec<IndexInfo>,
    pub table_status: Option<String>,
    pub item_count: Option<i64>,
    pub table_size_bytes: Option<i64>,
}

/// One element of a key schema: an attribute and its key type (`"HASH"` or `"RANGE"`).
#[derive(Debug, Clone)]
pub struct KeyElement {
    pub attribute_name: String,
    pub key_type: String,
}

/// An attribute definition: an attribute and its type code (`"S"`, `"N"`, `"B"`).
#[derive(Debug, Clone)]
pub struct AttributeDefinition {
    pub attribute_name: String,
    pub attribute_type: String,
}

/// A global or local secondary index of a table description.
#[derive(Debug, Clone)]
pub struct SecondaryIndex {
    pub index_name: Option<String>,
    pub key_schema: Vec<KeyElement>,
}

/// The parts of DynamoDB's table description that the plugin reads.
#[derive(Debug, Clone)]
pub struct TableDescription {
    pub table_name: Option<String>,
    pub attribute_definitions: Vec<AttributeDefinition>,
    pub key_schema: Vec<KeyElement>,
    pub global_secondary_indexes: Vec<SecondaryIndex>,
    pub local_secondary_indexes: Vec<SecondaryIndex>,
    pub table_status: Option<String>,
    pub item_count: Option<i64>,
    pub table_size_bytes: Option<i64>,
}

/// A DynamoDB attribute value.
#[derive(Debug)]
pub enum AttrValue {
    S(String),
    N(String),
    B(Vec<u8>),
    Bool(bool),
    Null(bool),
    Ss(Vec<String>),
    Ns(Vec<String>),
    Bs(Vec<Vec<u8>>),
    L(Vec<AttrValue>),
    M(Vec<(String, AttrValue)>),
    /// A kind of value that this plugin does not know.
    Unknown,
}

/// The JSON form of an attribute value: strings and numbers become strings, binary data
/// becomes `"[Binary]"`, sets become arrays (binary sets empty ones), lists and maps are
/// converted element by element, and `NULL` and unknown kinds become `null`.
pub open spec fn attr_json(a: AttrValue) -> JsonV
    decreases a,
{
    match a {
        AttrValue::S(s) => JsonV::Str(s@),
        AttrValue::N(n) => JsonV::Str(n@),
        AttrValue::B(_) => JsonV::Str("[Binary]"@),
        AttrValue::Bool(b) => JsonV::Bool(b),
        AttrValue::Null(_) => JsonV::Null,
        AttrValue::Ss(ss) => JsonV::Array(Seq::new(ss.len() as nat, |i: int| JsonV::Str(ss@[i]@))),
        AttrValue::Ns(ns) => JsonV::Array(Seq::new(ns.len() as nat, |i: int| JsonV::Str(ns@[i]@))),
        AttrValue::Bs(_) => JsonV::Array(Seq::empty()),
        AttrValue::L(list) => JsonV::Array(
            Seq::new(
                list.len() as nat,
                |i: int|
                    if 0 <= i < list.len() {
                        attr_json(list@[i])
                    } else {
                        JsonV::Null
                    },
            ),
        ),
        AttrValue::M(members) => JsonV::Object(
            Seq::new(
                members.len() as nat,
                |i: int|
                    if 0 <= i < members.len() {
                        (members@[i].0@, attr_json(members@[i].1))
                    } else {
                        (Seq::empty(), JsonV::Null)
                    },
            ),
        ),
        AttrValue::Unknown => JsonV::Null,
    }
}

fn string_array(v: &Vec<String>) -> (r: Json)
    ensures
        r@ == JsonV::Array(Seq::new(v.len() as nat, |i: int| JsonV::Str(v@[i]@))),
{
    let mut out: Vec<Json> = Vec::new();
    let mut i: usize = 0;
    while i < v.len()
        invariant
            i <= v.len(),
            out.len() == i,
            forall|j: int| 0 <= j < i ==> (#[trigger] out@[j])@ == JsonV::Str(v@[j]@),
        decreases v.len() - i,
    {
        out.push(Json::string(v[i].as_str()));
        i = i + 1;
    }
    let r = Json::Array(out);
    assert(r@->Array_0 =~= Seq::new(v.len() as nat, |i: int| JsonV::Str(v@[i]@)));
    r
}

/// Convert an attribute value to JSON.
#[verifier::loop_isolation(false)]
pub fn attribute_value_to_json(av: &AttrValue) -> (r: Json)
    ensures
        r@ == attr_json(*av),
    decreases av,
{
    match av {
        AttrValue::S(s) => Json::string(s.as_str()),
        AttrValue::N(n) => Json::string(n.as_str()),
        AttrValue::B(_) => Json::string("[Binary]"),
        AttrValue::Bool(b) => Json::Bool(*b),
        AttrValue::Null(_) => Json::Null,
        AttrValue::Ss(ss) => string_array(ss),
        AttrValue::Ns(ns) => string_array(ns),
        AttrValue::Bs(_) => {
            let r = Json::Array(Vec::new());
            assert(r@->Array_0 =~= Seq::<JsonV>::empty());
            r
        },
        AttrValue::L(list) => {
            let mut out: Vec<Json> = Vec::new();
            let mut i: usize = 0;
            while i < list.len()
                invariant
                    i <= list.len(),
                    out.len() == i,
                    forall|j: int| 0 <= j < i ==> (#[trigger] out@[j])@ == attr_json(list@[j]),
                decreases list.len() - i,
            {
                assert(decreases_to!(av => av->L_0));
                assert(av->L_0 == *list);
                assert(decreases_to!(list => list@));
                assert(decreases_to!(list@ => list@[i as int]));
                out.push(attribute_value_to_json(&list[i]));
                i = i + 1;
            }
            let r = Json::Array(out);
            assert(r@->Array_0 =~= attr_json(*av)->Array_0);
            r
        },
        AttrValue::M(members) => {
            let mut out: Vec<(String, Json)> = Vec::new();
            let mut i: usize = 0;
            while i < members.len()
                invariant
                    i <= members.len(),
                    out.len() == i,
                    forall|j: int|
                        0 <= j < i ==> (#[trigger] out@[j]).0@ == members@[j].0@ && out@[j].1@
                            == attr_json(members@[j].1),
                decreases members.len() - i,
            {
                assert(decreases_to!(av => av->M_0));
                assert(av->M_0 == *members);
                assert(decreases_to!(members => members@));
                assert(decreases_to!(members@ => members@[i as int]));
                assert(decreases_to!(members@[i as int] => members@[i as int].1));
                let v = attribute_value_to_json(&members[i].1);
                out.push((members[i].0.clone(), v));
                i = i + 1;
            }
            let r = Json::Object(out);
            assert(r@->Object_0 =~= attr_json(*av)->Object_0);
            r
        },
        AttrValue::Unknown => Json::Null,
    }
}

/// One item of a statement's result: attribute names and their values.
pub type Item = Vec<(String, Json)>;

/// The view of an item: its members.
pub open spec fn item_view(item: Item) -> Seq<(Seq<char>, JsonV)> {
    member_views(item@)
}

/// One page of `ExecuteStatement` results, as the service hands it back.
#[derive(Debug)]
pub struct StatementPage {
    pub items: Vec<Vec<(String, AttrValue)>>,
    pub next_token: Option<String>,
}

/// The result of a PartiQL statement, with attribute values as JSON.
#[derive(Debug)]
pub struct ExecuteStatementOutput {
    pub items: Vec<Item>,
    pub next_token: Option<String>,
}

/// `item_view` of an item converted attribute by attribute.
pub open spec fn converted_item(item: Seq<(String, AttrValue)>) -> Seq<(Seq<char>, JsonV)> {
    Seq::new(item.len(), |i: int| (item[i].0@, attr_json(item[i].1)))
}

fn convert_item(item: &Vec<(String, AttrValue)>) -> (r: Item)
    ensures
        item_view(r) == converted_item(item@),
{
    let mut out: Item = Vec::new();
    let mut i: usize = 0;
    while i < item.len()
        invariant
            i <= item.len(),
            out.len() == i,
            forall|j: int|
                0 <= j < i ==> (#[trigger] out@[j]).0@ == item@[j].0@ && out@[j].1@ == attr_json(
                    item@[j].1,
                ),
        decreases item.len() - i,
    {
        let v = attribute_value_to_json(&item[i].1);
        out.push((item[i].0.clone(), v));
        i = i + 1;
    }
    assert(item_view(out) =~= converted_item(item@));
    out
}

impl ExecuteStatementOutput {
    /// Converts a page of results: every attribute value to JSON, the token kept.
    pub fn from_sdk(response: StatementPage) -> (r: Self)
        ensures
            r.items.len() == response.items.len(),
            forall|i: int|
                0 <= i < r.items.len() ==> item_view(#[trigger] r.items@[i]) == converted_item(
                    response.items@[i]@,
                ),
            r.next_token == response.next_token,
    {
        let mut items: Vec<Item> = Vec::new();
        let mut i: usize = 0;
        while i < response.items.len()
            invariant
                i <= response.items.len(),
                items.len() == i,
                forall|j: int|
                    0 <= j < i ==> item_view(#[trigger] items@[j]) == converted_item(
                        response.items@[j]@,
                    ),
            decreases response.items.len() - i,
        {
            items.push(convert_item(&response.items[i]));
            i = i + 1;
        }
        ExecuteStatementOutput { items, next_token: response.next_token }
    }
}


/// Converting a value keeps what it holds: a string or number becomes its text, a set of
/// strings or numbers becomes the array of their texts in order, a list becomes the array
/// of its converted elements in order, and a map becomes the object of its names with their
/// converted values in order.
pub proof fn lemma_attribute_values_keep_their_contents(a: AttrValue)
    ensures
        a matches AttrValue::S(s) ==> attr_json(a) == JsonV::Str(s@),
        a matches AttrValue::N(n) ==> attr_json(a) == JsonV::Str(n@),
        a matches AttrValue::Bool(b) ==> attr_json(a) == JsonV::Bool(b),
        a matches AttrValue::Ss(ss) ==> attr_json(a) matches JsonV::Array(xs) && xs.len() == ss.len()
            && forall|i: int| 0 <= i < ss.len() ==> #[trigger] xs[i] == JsonV::Str(ss@[i]@),
        a matches AttrValue::Ns(ns) ==> attr_json(a) matches JsonV::Array(xs) && xs.len() == ns.len()
            && forall|i: int| 0 <= i < ns.len() ==> #[trigger] xs[i] == JsonV::Str(ns@[i]@),
        a matches AttrValue::L(list) ==> attr_json(a) matches JsonV::Array(xs) && xs.len() == list.len()
            && forall|i: int| 0 <= i < list.len() ==> #[trigger] xs[i] == attr_json(list@[i]),
        a matches AttrValue::M(ms) ==> attr_json(a) matches JsonV::Object(xs) && xs.len() == ms.len()
            && forall|i: int| 0 <= i < ms.len() ==> #[trigger] xs[i] == (ms@[i].0@, attr_json(ms@[i].1)),
{
}

}

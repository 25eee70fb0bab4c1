use vstd::prelude::*;

use crate::text::str_eq;

verus! {

/// A JSON document as the plugin reads and writes it.
#[derive(Debug, PartialEq)]
pub enum Json {
    Null,
    Bool(bool),
    /// A number, held as its decimal text.
    Number(String),
    Str(String),
    Array(Vec<Json>),
    /// Members in the order in which they are held.
    Object(Vec<(String, Json)>),
}

/// The mathematical value of a [`Json`] document.
pub enum JsonV {
    Null,
    Bool(bool),
    Number(Seq<char>),
    Str(Seq<char>),
    Array(Seq<JsonV>),
    Object(Seq<(Seq<char>, JsonV)>),
}

impl Json {
    pub open spec fn spec_view(&self) -> JsonV
        decreases self,
    {
        match self {
            Json::Null => JsonV::Null,
            Json::Bool(b) => JsonV::Bool(*b),
            Json::Number(n) => JsonV::Number(n@),
            Json::Str(s) => JsonV::Str(s@),
            Json::Array(items) => JsonV::Array(
                Seq::new(
                    items.len() as nat,
                    |i: int|
                        if 0 <= i < items.len() {
                            items@[i].spec_view()
                        } else {
                            JsonV::Null
                        },
                ),
            ),
            Json::Object(members) => JsonV::Object(
                Seq::new(
                    members.len() as nat,
                    |i: int|
                        if 0 <= i < members.len() {
                            (members@[i].0@, members@[i].1.spec_view())
                        } else {
                            (Seq::empty(), JsonV::Null)
                        },
                ),
            ),
        }
    }
}

impl View for Json {
    type V = JsonV;

    open spec fn view(&self) -> JsonV {
        self.spec_view()
    }
}

/// The view of each element of `items`.
pub open spec fn views(items: Seq<Json>) -> Seq<JsonV> {
    Seq::new(items.len(), |i: int| items[i]@)
}

/// The view of each member of `members`.
pub open spec fn member_views(members: Seq<(String, Json)>) -> Seq<(Seq<char>, JsonV)> {
    Seq::new(members.len(), |i: int| (members[i].0@, members[i].1@))
}

/// Position of the first member named `key`.
pub open spec fn member_index(members: Seq<(Seq<char>, JsonV)>, key: Seq<char>) -> Option<int> {
    if exists|i: int| 0 <= i < members.len() && members[i].0 == key {
        Some(
            choose|i: int|
                0 <= i < members.len() && members[i].0 == key && forall|j: int|
                    0 <= j < i ==> members[j].0 != key,
        )
    } else {
        None
    }
}

/// The member at `i` is the first named `key`.
pub proof fn lemma_member_first(members: Seq<(Seq<char>, JsonV)>, i: int, key: Seq<char>)
    requires
        0 <= i < members.len(),
        members[i].0 == key,
        forall|j: int| 0 <= j < i ==> (#[trigger] members[j]).0 != key,
    ensures
        member_index(members, key) == Some(i),
{
    let w = choose|j: int|
        0 <= j < members.len() && members[j].0 == key && forall|l: int| 0 <= l < j ==> members[l].0 != key;
    assert(0 <= i < members.len() && members[i].0 == key && forall|l: int| 0 <= l < i ==> members[l].0 != key);
    assert(w == i) by {
        if w < i {
            assert(members[w].0 == key);
        } else if w > i {
            assert(members[i].0 != key);
        }
    }
}

/// No member is named `key`.
pub proof fn lemma_member_missing(members: Seq<(Seq<char>, JsonV)>, key: Seq<char>)
    requires
        forall|j: int| 0 <= j < members.len() ==> (#[trigger] members[j]).0 != key,
    ensures
        member_index(members, key) is None,
{
}

/// `serde_json::Value::get` with a string key: the value of the first member named `key`
/// of an object, and nothing for any other value.
pub open spec fn json_get(v: JsonV, key: Seq<char>) -> Option<JsonV> {
    match v {
        JsonV::Object(members) => match member_index(members, key) {
            Some(i) => Some(members[i].1),
            None => None,
        },
        _ => None,
    }
}

/// `serde_json::Value::as_str`.
pub open spec fn json_as_str(v: JsonV) -> Option<Seq<char>> {
    match v {
        JsonV::Str(s) => Some(s),
        _ => None,
    }
}

/// `json_get` followed by `json_as_str`.
pub open spec fn json_get_str(v: JsonV, key: Seq<char>) -> Option<Seq<char>> {
    match json_get(v, key) {
        Some(x) => json_as_str(x),
        None => None,
    }
}

/// `value.get(outer).and_then(|v| v.get(inner)).and_then(Value::as_str)`.
pub open spec fn json_get_path_str(v: JsonV, outer: Seq<char>, inner: Seq<char>) -> Option<Seq<char>> {
    match json_get(v, outer) {
        Some(x) => json_get_str(x, inner),
        None => None,
    }
}

/// An optional text, with the empty string in place of nothing.
pub open spec fn or_empty_chars(o: Option<Seq<char>>) -> Seq<char> {
    match o {
        Some(s) => s,
        None => Seq::empty(),
    }
}

/// `json_get_str`, with the empty string in place of a missing or non-string member.
pub open spec fn json_str_or_empty(v: JsonV, key: Seq<char>) -> Seq<char> {
    match json_get_str(v, key) {
        Some(s) => s,
        None => Seq::empty(),
    }
}

/// The value of the first member named `key`.
pub fn lookup_member<'a>(members: &'a Vec<(String, Json)>, key: &str) -> (r: Option<&'a Json>)
    ensures
        match r {
            Some(x) => member_index(member_views(members@), key@) matches Some(i) && member_views(members@)[i].1 == x@,
            None => member_index(member_views(members@), key@) is None,
        },
{
    let ghost ms = member_views(members@);
    let mut i: usize = 0;
    while i < members.len()
        invariant
            ms == member_views(members@),
            i <= members.len(),
            forall|j: int| 0 <= j < i ==> (#[trigger] ms[j]).0 != key@,
        decreases members.len() - i,
    {
        if str_eq(members[i].0.as_str(), key) {
            proof {
                let k = i as int;
                assert(ms[k].0 == key@);
                let w = choose|j: int|
                    0 <= j < ms.len() && ms[j].0 == key@ && forall|l: int| 0 <= l < j ==> ms[l].0 != key@;
                assert(0 <= k < ms.len() && ms[k].0 == key@ && forall|l: int| 0 <= l < k ==> ms[l].0 != key@);
                assert(w == k) by {
                    if w < k {
                        assert(ms[w].0 == key@);
                    } else if w > k {
                        assert(ms[k].0 != key@);
                    }
                }
            }
            return Some(&members[i].1);
        }
        i = i + 1;
    }
    None
}

impl Json {
    /// A string value.
    pub fn string(s: &str) -> (r: Json)
        ensures
            r@ == JsonV::Str(s@),
    {
        Json::Str(s.to_owned())
    }

    /// An object with the given members.
    pub fn object(members: Vec<(String, Json)>) -> (r: Json)
        ensures
            r@ == JsonV::Object(member_views(members@)),
    {
        let r = Json::Object(members);
        proof {
            assert(member_views(members@) =~= r@->Object_0);
        }
        r
    }

    /// An array with the given elements.
    pub fn array(items: Vec<Json>) -> (r: Json)
        ensures
            r@ == JsonV::Array(views(items@)),
    {
        let r = Json::Array(items);
        proof {
            assert(views(items@) =~= r@->Array_0);
        }
        r
    }

    /// A copy of this document.
    #[verifier::loop_isolation(false)]
    pub fn duplicate(&self) -> (r: Json)
        ensures
            r@ == self@,
        decreases self,
    {
        match self {
            Json::Null => Json::Null,
            Json::Bool(b) => Json::Bool(*b),
            Json::Number(n) => Json::Number(n.clone()),
            Json::Str(s) => Json::Str(s.clone()),
            Json::Array(items) => {
                let mut out: Vec<Json> = Vec::new();
                let mut i: usize = 0;
                while i < items.len()
                    invariant
                        i <= items.len(),
                        out.len() == i,
                        forall|j: int| 0 <= j < i ==> (#[trigger] out@[j])@ == items@[j]@,
                    decreases items.len() - i,
                {
                    assert(decreases_to!(self => self->Array_0));
                    assert(self->Array_0 == *items);
                    assert(decreases_to!(items => items@));
                    assert(decreases_to!(items@ => items@[i as int]));
                    let x = items[i].duplicate();
                    out.push(x);
                    i = i + 1;
                }
                let r = Json::Array(out);
                assert(r@->Array_0 =~= self@->Array_0);
                r
            },
            Json::Object(members) => {
                let mut out: Vec<(String, Json)> = Vec::new();
                let mut i: usize = 0;
                while i < members.len()
                    invariant
                        i <= members.len(),
                        out.len() == i,
                        forall|j: int|
                            0 <= j < i ==> (#[trigger] out@[j]).0@ == members@[j].0@ && out@[j].1@
                                == members@[j].1@,
                    decreases members.len() - i,
                {
                    assert(decreases_to!(self => self->Object_0));
                    assert(self->Object_0 == *members);
                    assert(decreases_to!(members => members@));
                    assert(decreases_to!(members@ => members@[i as int]));
                    assert(decreases_to!(members@[i as int] => members@[i as int].1));
                    let v = members[i].1.duplicate();
                    let k = members[i].0.clone();
                    out.push((k, v));
                    i = i + 1;
                }
                let r = Json::Object(out);
                assert(r@->Object_0 =~= self@->Object_0);
                r
            },
        }
    }

    /// `serde_json::Value::get(key)`.
    pub fn get(&self, key: &str) -> (r: Option<&Json>)
        ensures
            match r {
                Some(x) => json_get(self@, key@) == Some(x@),
                None => json_get(self@, key@) is None,
            },
    {
        match self {
            Json::Object(members) => {
                proof {
                    assert(member_views(members@) =~= self@->Object_0);
                }
                lookup_member(members, key)
            },
            _ => None,
        }
    }

    /// `serde_json::Value::as_str`.
    pub fn as_str(&self) -> (r: Option<&str>)
        ensures
            match r {
                Some(s) => json_as_str(self@) == Some(s@),
                None => json_as_str(self@) is None,
            },
    {
        match self {
            Json::Str(s) => Some(s.as_str()),
            _ => None,
        }
    }

    /// `serde_json::Value::as_array`.
    pub fn as_array(&self) -> (r: Option<&Vec<Json>>)
        ensures
            match r {
                Some(items) => self@ == JsonV::Array(views(items@)),
                None => !(self@ is Array),
            },
    {
        match self {
            Json::Array(items) => {
                assert(views(items@) =~= self@->Array_0);
                Some(items)
            },
            _ => None,
        }
    }

    /// `value.get(outer).and_then(|v| v.get(inner)).and_then(Value::as_str)`.
    pub fn get_path_str(&self, outer: &str, inner: &str) -> (r: Option<&str>)
        ensures
            match r {
                Some(s) => json_get_path_str(self@, outer@, inner@) == Some(s@),
                None => json_get_path_str(self@, outer@, inner@) is None,
            },
    {
        match self.get(outer) {
            Some(v) => v.get_str(inner),
            None => None,
        }
    }

    /// The string member `key`, or the empty string.
    pub fn str_or_empty(&self, key: &str) -> (r: &str)
        ensures
            r@ == json_str_or_empty(self@, key@),
    {
        match self.get_str(key) {
            Some(s) => s,
            None => {
                proof { reveal_strlit(""); }
                ""
            },
        }
    }

    /// The string member `key`: `value.get(key).and_then(Value::as_str)`.
    pub fn get_str(&self, key: &str) -> (r: Option<&str>)
        ensures
            match r {
                Some(s) => json_get_str(self@, key@) == Some(s@),
                None => json_get_str(self@, key@) is None,
            },
    {
        match self.get(key) {
            Some(v) => v.as_str(),
            None => None,
        }
    }
}

}

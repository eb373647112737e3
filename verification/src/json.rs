//! JSON values as read by `serde_json`, and the lookups the page logic makes in them.
use vstd::prelude::*;

verus! {

/// A JSON value. Numbers are kept as the text `serde_json` writes for them;
/// the members of an object come in the order of `serde_json`'s map.
#[derive(Debug)]
pub enum JsonValue {
    Null,
    Bool(bool),
    Number(String),
    Str(String),
    Array(Vec<JsonValue>),
    Object(Vec<(String, JsonValue)>),
}

/// The mathematical form of a JSON value.
pub enum Json {
    Null,
    Bool(bool),
    Number(Seq<char>),
    Str(Seq<char>),
    Array(Seq<Json>),
    Object(Seq<(Seq<char>, Json)>),
}

/// The mathematical form of `v`.
pub open spec fn json_of(v: JsonValue) -> Json
    decreases v,
{
    match v {
        JsonValue::Null => Json::Null,
        JsonValue::Bool(b) => Json::Bool(b),
        JsonValue::Number(n) => Json::Number(n@),
        JsonValue::Str(s) => Json::Str(s@),
        JsonValue::Array(items) => Json::Array(
            Seq::new(
                items@.len(),
                |i: int|
                    if 0 <= i < items@.len() {
                        json_of(items@[i])
                    } else {
                        Json::Null
                    },
            ),
        ),
        JsonValue::Object(members) => Json::Object(
            Seq::new(
                members@.len(),
                |i: int|
                    if 0 <= i < members@.len() {
                        (members@[i].0@, json_of(members@[i].1))
                    } else {
                        (Seq::empty(), Json::Null)
                    },
            ),
        ),
    }
}

impl View for JsonValue {
    type V = Json;

    open spec fn view(&self) -> Json {
        json_of(*self)
    }
}

/// The value of the first member named `key` among `members`.
pub open spec fn member_in(members: Seq<(Seq<char>, Json)>, key: Seq<char>) -> Option<Json>
    decreases members.len(),
{
    if members.len() == 0 {
        None
    } else if members[0].0 == key {
        Some(members[0].1)
    } else {
        member_in(members.drop_first(), key)
    }
}

impl Json {
    /// The member named `key` of an object; `None` for any other value.
    pub open spec fn member(self, key: Seq<char>) -> Option<Json> {
        match self {
            Json::Object(members) => member_in(members, key),
            _ => None,
        }
    }

    /// The text of a string value.
    pub open spec fn text(self) -> Option<Seq<char>> {
        match self {
            Json::Str(s) => Some(s),
            _ => None,
        }
    }

    /// The elements of an array value.
    pub open spec fn elements(self) -> Option<Seq<Json>> {
        match self {
            Json::Array(items) => Some(items),
            _ => None,
        }
    }
}

/// The texts of the string elements of `items`, in order; other elements are skipped.
pub open spec fn string_elements(items: Seq<Json>) -> Seq<Seq<char>>
    decreases items.len(),
{
    if items.len() == 0 {
        Seq::empty()
    } else {
        let rest = string_elements(items.drop_last());
        match items.last() {
            Json::Str(s) => rest.push(s),
            _ => rest,
        }
    }
}

/// What `serde_json` reads as the first JSON value at the start of `text`
/// (white space may precede it, anything may follow it), or `None` where it
/// reports an error.
pub uninterp spec fn json_prefix(text: Seq<char>) -> Option<Json>;

/// The JSON value type of `serde_json`.
#[verifier::external_type_specification]
#[verifier::external_body]
pub struct ExSerdeJsonValue(serde_json::Value);

/// Copies a `serde_json::Value` into a `JsonValue`, variant by variant; numbers
/// become the text `serde_json` writes for them. Nothing is stated of the result
/// here: `read_json_prefix`, its one caller, states what the copy stands for.
#[verifier::external_body]
fn copy_serde_value(value: &serde_json::Value) -> JsonValue {
    match value {
        serde_json::Value::Null => JsonValue::Null,
        serde_json::Value::Bool(b) => JsonValue::Bool(*b),
        serde_json::Value::Number(n) => JsonValue::Number(n.to_string()),
        serde_json::Value::String(s) => JsonValue::Str(s.clone()),
        serde_json::Value::Array(items) => JsonValue::Array(items.iter().map(copy_serde_value).collect()),
        serde_json::Value::Object(map) => JsonValue::Object(
            map.iter().map(|(k, v)| (k.clone(), copy_serde_value(v))).collect(),
        ),
    }
}

/// Reads the first JSON value at the start of `text` with
/// `serde_json::Deserializer::from_str` and `serde_json::Value::deserialize`,
/// ignoring what follows it; the result is the one that `json_prefix` names.
#[verifier::external_body]
pub fn read_json_prefix(text: &str) -> (r: Option<JsonValue>)
    ensures
        r is Some <==> json_prefix(text@) is Some,
        r matches Some(v) ==> json_prefix(text@) == Some(v@),
{
    let mut deserializer = serde_json::Deserializer::from_str(text);
    match <serde_json::Value as serde::Deserialize>::deserialize(&mut deserializer) {
        Ok(value) => Some(copy_serde_value(&value)),
        Err(_) => None,
    }
}

impl JsonValue {
    /// The member named `key` of an object (`serde_json::Value::get` with a
    /// string key); `None` for any other value or a missing member.
    pub fn get(&self, key: &str) -> (r: Option<&JsonValue>)
        ensures
            match r {
                Some(v) => self@.member(key@) == Some(v@),
                None => self@.member(key@) is None,
            },
    {
        match self {
            JsonValue::Object(members) => {
                let ghost all = self@->Object_0;
                let wanted = String::from_str(key);
                let mut i: usize = 0;
                assert(all.skip(0) == all);
                while i < members.len()
                    invariant
                        *self == JsonValue::Object(*members),
                        all == self@->Object_0,
                        all.len() == members@.len(),
                        forall|j: int| 0 <= j < members@.len() ==> #[trigger] all[j] == (members@[j].0@, members@[j].1@),
                        wanted@ == key@,
                        i <= members@.len(),
                        member_in(all, key@) == member_in(all.skip(i as int), key@),
                    decreases members.len() - i,
                {
                    assert(all.skip(i as int)[0] == all[i as int]);
                    if members[i].0 == wanted {
                        return Some(&members[i].1);
                    }
                    assert(all.skip(i as int).drop_first() == all.skip(i + 1));
                    i = i + 1;
                }
                None
            },
            _ => None,
        }
    }

    /// The text of a string value (`serde_json::Value::as_str`).
    pub fn as_str(&self) -> (r: Option<&String>)
        ensures
            match r {
                Some(s) => self@.text() == Some(s@),
                None => self@.text() is None,
            },
    {
        match self {
            JsonValue::Str(s) => Some(s),
            _ => None,
        }
    }

    /// The elements of an array value (`serde_json::Value::as_array`).
    pub fn as_array(&self) -> (r: Option<&Vec<JsonValue>>)
        ensures
            match r {
                Some(items) => self@.elements() is Some && self@.elements()->0.len() == items@.len()
                    && forall|i: int| 0 <= i < items@.len() ==> #[trigger] self@.elements()->0[i] == items@[i]@,
                None => self@.elements() is None,
            },
    {
        match self {
            JsonValue::Array(items) => Some(items),
            _ => None,
        }
    }
}

/// The texts of the string elements of `items`, in order; other elements are
/// skipped.
pub fn string_items(items: &Vec<JsonValue>) -> (r: Vec<String>)
    ensures
        r@.len() == string_elements(items@.map_values(|v: JsonValue| v@)).len(),
        forall|i: int| 0 <= i < r@.len() ==> #[trigger] r@[i]@ == string_elements(items@.map_values(|v: JsonValue| v@))[i],
{
    let ghost all = items@.map_values(|v: JsonValue| v@);
    let mut out: Vec<String> = Vec::new();
    let mut i: usize = 0;
    while i < items.len()
        invariant
            i <= items@.len(),
            all == items@.map_values(|v: JsonValue| v@),
            out@.len() == string_elements(all.take(i as int)).len(),
            forall|j: int| 0 <= j < out@.len() ==> #[trigger] out@[j]@ == string_elements(all.take(i as int))[j],
        decreases items.len() - i,
    {
        assert(all.take(i + 1).drop_last() =~= all.take(i as int));
        assert(all.take(i + 1).last() == items@[i as int]@);
        match items[i].as_str() {
            Some(s) => {
                out.push(s.clone());
            },
            None => {},
        }
        i = i + 1;
    }
    assert(all.take(items@.len() as int) =~= all);
    out
}

} // verus!

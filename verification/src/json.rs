//! JSON values, and the calls into `serde_json` that read and write them.
//!
//! `serde_json` does the parsing and the escaping. What it returns is taken
//! apart here, one accessor at a time, into a `Json` of this crate, so that
//! what follows works on plain values. Nothing is proved of `serde_json`
//! itself: each call below says what is believed of it.

use vstd::prelude::*;
use vstd::string::*;
use crate::keys::{distinct, keys_of};

verus! {

/// A JSON number as `serde_json` offers it.
#[derive(Clone, Copy, Debug, PartialEq, Eq, Structural)]
pub struct JsonNumber {
    /// The number as a signed 64-bit integer, where the document wrote an
    /// integer in that range.
    pub integer: Option<i64>,
    /// The bits of the number as a double.
    pub bits: u64,
}

/// A JSON value. An object that was read from a document holds its members
/// in the order in which `serde_json` hands them out, no key twice.
#[derive(Debug, PartialEq, Eq)]
pub enum Json {
    Null,
    Bool(bool),
    Number(JsonNumber),
    String(String),
    Array(Vec<Json>),
    Object(Vec<(String, Json)>),
}

/// A JSON value, as mathematics.
pub enum JsonModel {
    Null,
    Bool(bool),
    Number(JsonNumber),
    String(Seq<char>),
    Array(Seq<JsonModel>),
    Object(Seq<(Seq<char>, JsonModel)>),
}

/// The value that `json` holds in memory.
pub open spec fn json_view(json: Json) -> JsonModel
    decreases json,
{
    match json {
        Json::Null => JsonModel::Null,
        Json::Bool(b) => JsonModel::Bool(b),
        Json::Number(n) => JsonModel::Number(n),
        Json::String(s) => JsonModel::String(s@),
        Json::Array(items) => JsonModel::Array(
            Seq::new(
                items@.len(),
                |i: int|
                    if 0 <= i < items@.len() {
                        json_view(items@[i])
                    } else {
                        arbitrary()
                    },
            ),
        ),
        Json::Object(members) => JsonModel::Object(
            Seq::new(
                members@.len(),
                |i: int|
                    if 0 <= i < members@.len() {
                        (members@[i].0@, json_view(members@[i].1))
                    } else {
                        arbitrary()
                    },
            ),
        ),
    }
}

impl View for Json {
    type V = JsonModel;

    open spec fn view(&self) -> JsonModel {
        json_view(*self)
    }
}

impl JsonModel {
    /// Whether no object in this value, at any depth, has a key twice.
    pub open spec fn well_keyed(self) -> bool
        decreases self,
    {
        match self {
            JsonModel::Array(items) => forall|i: int|
                0 <= i < items.len() ==> (#[trigger] items[i]).well_keyed(),
            JsonModel::Object(members) => distinct(keys_of(members)) && forall|i: int|
                0 <= i < members.len() ==> (#[trigger] members[i]).1.well_keyed(),
            _ => true,
        }
    }
}

/// The outside JSON value.
#[verifier::external_type_specification]
#[verifier::external_body]
pub struct ExValue(serde_json::Value);

/// The outside error of a JSON call.
#[verifier::external_type_specification]
#[verifier::external_body]
pub struct ExJsonError(serde_json::Error);

/// What a `serde_json::Value` holds.
pub uninterp spec fn value_model(value: serde_json::Value) -> JsonModel;

/// The value that `text` denotes as a JSON document, if it is one.
pub uninterp spec fn json_document(text: Seq<char>) -> Option<JsonModel>;

/// The JSON string literal that stands for `text`: the text between double
/// quotes, with the characters that JSON requires escaped.
pub uninterp spec fn json_string(text: Seq<char>) -> Seq<char>;

/// `serde_json::from_str`, to a `serde_json::Value`.
///
/// The contract claims that whether the call succeeds, and the value it then
/// returns, depend on the text alone.
#[verifier::external_body]
pub(crate) fn parse_value(text: &str) -> (r: Result<serde_json::Value, serde_json::Error>)
    ensures
        match r {
            Ok(value) => json_document(text@) == Some(value_model(value)),
            Err(_) => json_document(text@) is None,
        },
{
    serde_json::from_str::<serde_json::Value>(text)
}

/// `serde_json::Value::as_bool`: the boolean of a `Bool`, nothing of any
/// other value.
#[verifier::external_body]
pub(crate) fn value_bool(value: &serde_json::Value) -> (r: Option<bool>)
    ensures
        r == (match value_model(*value) {
            JsonModel::Bool(b) => Some(b),
            _ => None::<bool>,
        }),
{
    value.as_bool()
}

/// `serde_json::Value::as_i64`: of a `Number`, the integer that it holds if
/// it holds one that fits; nothing of any other value.
#[verifier::external_body]
pub(crate) fn value_integer(value: &serde_json::Value) -> (r: Option<i64>)
    ensures
        r == (match value_model(*value) {
            JsonModel::Number(n) => n.integer,
            _ => None::<i64>,
        }),
{
    value.as_i64()
}

/// `serde_json::Value::as_f64`, and `f64::to_bits` on what it returns: of a
/// `Number`, the bits of the number as a double; nothing of any other value.
#[verifier::external_body]
pub(crate) fn value_bits(value: &serde_json::Value) -> (r: Option<u64>)
    ensures
        r == (match value_model(*value) {
            JsonModel::Number(n) => Some(n.bits),
            _ => None::<u64>,
        }),
{
    value.as_f64().map(|x| x.to_bits())
}

/// `serde_json::Value::as_str`: the text of a `String`, nothing of any other
/// value.
#[verifier::external_body]
pub(crate) fn value_str(value: &serde_json::Value) -> (r: Option<&str>)
    ensures
        match r {
            Some(s) => value_model(*value) == JsonModel::String(s@),
            None => !(value_model(*value) is String),
        },
{
    value.as_str()
}

/// `serde_json::Value::as_array`: the items of an `Array`, nothing of any
/// other value.
#[verifier::external_body]
pub(crate) fn value_items(value: &serde_json::Value) -> (r: Option<&Vec<serde_json::Value>>)
    ensures
        match r {
            Some(items) => value_model(*value) == JsonModel::Array(
                Seq::new(items@.len(), |i: int| value_model(items@[i])),
            ),
            None => !(value_model(*value) is Array),
        },
{
    value.as_array()
}

/// `serde_json::Value::as_object`, and `serde_json::Map::iter` on what it
/// returns: the members of an `Object`, in the order of the map and no key
/// twice; nothing of any other value.
#[verifier::external_body]
pub(crate) fn value_members(value: &serde_json::Value) -> (r: Option<
    Vec<(&str, &serde_json::Value)>,
>)
    ensures
        match r {
            Some(members) => {
                &&& value_model(*value) == JsonModel::Object(
                    Seq::new(members@.len(), |i: int| (members@[i].0@, value_model(*members@[i].1))),
                )
                &&& forall|i: int, j: int|
                    0 <= i < j < members@.len() ==> members@[i].0@ != members@[j].0@
            },
            None => !(value_model(*value) is Object),
        },
{
    value.as_object().map(|map| map.iter().map(|(key, item)| (key.as_str(), item)).collect())
}

/// `serde_json::to_string` on a string slice.
///
/// The contract claims that the call succeeds and that what it returns
/// depends on the text alone. It cannot fail here: the serializer writes into
/// a `Vec<u8>`, whose `io::Write` never fails, and a string slice serializes
/// by one call of `serialize_str`, which has no other source of errors.
#[verifier::external_body]
pub(crate) fn quote(text: &str) -> (r: Result<String, serde_json::Error>)
    ensures
        match r {
            Ok(s) => s@ == json_string(text@),
            Err(_) => false,
        },
{
    serde_json::to_string(text)
}

/// Takes a `serde_json::Value` apart into a `Json`.
pub(crate) fn lift(value: &serde_json::Value) -> (json: Json)
    ensures
        json@ == value_model(*value),
        json@.well_keyed(),
    decreases value_model(*value),
{
    let ghost model = value_model(*value);
    if let Some(b) = value_bool(value) {
        return Json::Bool(b);
    }
    if let Some(bits) = value_bits(value) {
        return Json::Number(JsonNumber { integer: value_integer(value), bits });
    }
    if let Some(s) = value_str(value) {
        return Json::String(String::from_str(s));
    }
    if let Some(items) = value_items(value) {
        let mut lifted: Vec<Json> = Vec::new();
        let mut i: usize = 0;
        while i < items.len()
            invariant
                i <= items.len(),
                lifted.len() == i,
                model == value_model(*value),
                model == JsonModel::Array(Seq::new(items@.len(), |k: int| value_model(items@[k]))),
                forall|k: int| 0 <= k < i ==> (#[trigger] lifted@[k])@ == value_model(items@[k]),
                forall|k: int| 0 <= k < i ==> (#[trigger] lifted@[k])@.well_keyed(),
            decreases items.len() - i,
        {
            proof {
                let below = model->Array_0;
                assert(decreases_to!(model => below));
                assert(below[i as int] == value_model(items@[i as int]));
                assert(decreases_to!(below => below[i as int]));
            }
            let item: Json = lift(&items[i]);
            lifted.push(item);
            i = i + 1;
        }
        let json: Json = Json::Array(lifted);
        assert(json@ =~= model) by {
            assert(json@->Array_0 =~= model->Array_0);
        }
        return json;
    }
    if let Some(members) = value_members(value) {
        let mut lifted: Vec<(String, Json)> = Vec::new();
        let mut i: usize = 0;
        while i < members.len()
            invariant
                i <= members.len(),
                lifted.len() == i,
                model == value_model(*value),
                model == JsonModel::Object(
                    Seq::new(members@.len(), |k: int| (members@[k].0@, value_model(*members@[k].1))),
                ),
                forall|k: int|
                    0 <= k < i ==> (#[trigger] lifted@[k]).0@ == members@[k].0@ && lifted@[k].1@
                        == value_model(*members@[k].1),
                forall|k: int| 0 <= k < i ==> (#[trigger] lifted@[k]).1@.well_keyed(),
            decreases members.len() - i,
        {
            proof {
                let below = model->Object_0;
                assert(decreases_to!(model => below));
                assert(below[i as int].1 == value_model(*members@[i as int].1));
                assert(decreases_to!(below => below[i as int]));
                assert(decreases_to!(below[i as int] => below[i as int].1));
            }
            let item: Json = lift(members[i].1);
            lifted.push((String::from_str(members[i].0), item));
            i = i + 1;
        }
        let json: Json = Json::Object(lifted);
        assert(json@ =~= model) by {
            assert(json@->Object_0 =~= model->Object_0);
        }
        return json;
    }
    Json::Null
}

/// Reads `text` as a JSON document.
pub fn parse_json(text: &str) -> (r: Option<Json>)
    ensures
        match r {
            Some(json) => json_document(text@) == Some(json@) && json@.well_keyed(),
            None => json_document(text@) is None,
        },
{
    match parse_value(text) {
        Ok(value) => Some(lift(&value)),
        Err(_) => None,
    }
}

} // verus!

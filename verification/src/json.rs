//! The JSON documents that travel through the proxy. They are built and read
//! by `serde_json`; this module gives their contents a mathematical model and
//! states, for each accessor the proxy uses, what it returns over that model.

use vstd::prelude::*;

verus! {

#[verifier::external_type_specification]
#[verifier::external_body]
pub struct ExJsonValue(serde_json::Value);

#[verifier::external_type_specification]
#[verifier::external_body]
pub struct ExJsonError(serde_json::Error);

/// What a JSON document holds. Numbers that are not integers are not told
/// apart here: nothing in the proxy reads them.
pub enum JsonModel {
    Null,
    Bool(bool),
    Integer(int),
    Fraction,
    Text(Seq<char>),
    Array(Seq<JsonModel>),
    Object(Map<Seq<char>, JsonModel>),
}

/// The contents of a `serde_json::Value`.
pub uninterp spec fn json_model(v: serde_json::Value) -> JsonModel;

/// The document that `serde_json::from_str` reads from a text, if the text is
/// one JSON document.
pub uninterp spec fn json_parsed(text: Seq<char>) -> Option<JsonModel>;

/// The text that `serde_json::Value`'s `Display` writes for a value.
pub uninterp spec fn json_rendered(v: serde_json::Value) -> Seq<char>;

/// The member of an object under a key, if the document is an object that has it.
pub open spec fn member(m: JsonModel, key: Seq<char>) -> Option<JsonModel> {
    match m {
        JsonModel::Object(fields) => if fields.contains_key(key) {
            Some(fields[key])
        } else {
            None
        },
        _ => None,
    }
}

/// The element of an array at an index, if the document is an array that long.
pub open spec fn element(m: JsonModel, i: int) -> Option<JsonModel> {
    match m {
        JsonModel::Array(items) => if 0 <= i < items.len() {
            Some(items[i])
        } else {
            None
        },
        _ => None,
    }
}

/// The text of a JSON string, if the document is one.
pub open spec fn text_of(m: JsonModel) -> Option<Seq<char>> {
    match m {
        JsonModel::Text(s) => Some(s),
        _ => None,
    }
}

/// The value of a JSON integer that fits in 64 signed bits.
pub open spec fn integer_of(m: JsonModel) -> Option<i64> {
    match m {
        JsonModel::Integer(n) => if i64::MIN <= n <= i64::MAX {
            Some(n as i64)
        } else {
            None
        },
        _ => None,
    }
}

/// `serde_json::from_str` for a `Value`: `Ok` exactly when the text is one
/// JSON document, and then a value with the contents that the text denotes.
#[verifier::external_body]
pub(crate) fn parse_json(text: &str) -> (r: Result<serde_json::Value, serde_json::Error>)
    ensures
        match r {
            Ok(v) => json_parsed(text@) == Some(json_model(v)),
            Err(_) => json_parsed(text@) is None,
        },
{
    serde_json::from_str::<serde_json::Value>(text)
}

/// `Value::get` with a string key: the member under that key when the value
/// is an object that has it, `None` for every other value.
#[verifier::external_body]
pub(crate) fn json_get<'a>(v: &'a serde_json::Value, key: &str) -> (r: Option<&'a serde_json::Value>)
    ensures
        match r {
            Some(m) => member(json_model(*v), key@) == Some(json_model(*m)),
            None => member(json_model(*v), key@) is None,
        },
{
    v.get(key)
}

/// `Value::get` with a position: the element there when the value is an
/// array that long, `None` for every other value.
#[verifier::external_body]
pub(crate) fn json_at<'a>(v: &'a serde_json::Value, i: usize) -> (r: Option<&'a serde_json::Value>)
    ensures
        match r {
            Some(m) => element(json_model(*v), i as int) == Some(json_model(*m)),
            None => element(json_model(*v), i as int) is None,
        },
{
    v.get(i)
}

/// `Value::as_str`: the text when the value is a JSON string.
#[verifier::external_body]
pub(crate) fn json_as_str<'a>(v: &'a serde_json::Value) -> (r: Option<&'a str>)
    ensures
        match r {
            Some(s) => text_of(json_model(*v)) == Some(s@),
            None => text_of(json_model(*v)) is None,
        },
{
    v.as_str()
}

/// `Value::as_array`: the elements when the value is an array.
#[verifier::external_body]
pub(crate) fn json_as_array<'a>(v: &'a serde_json::Value) -> (r: Option<&'a Vec<serde_json::Value>>)
    ensures
        match r {
            Some(items) => json_model(*v) == JsonModel::Array(
                items@.map_values(|x: serde_json::Value| json_model(x)),
            ),
            None => !(json_model(*v) is Array),
        },
{
    v.as_array()
}

/// `Value::as_i64`: the number when the value is an integer within the
/// range of `i64`.
#[verifier::external_body]
pub(crate) fn json_as_i64(v: &serde_json::Value) -> (r: Option<i64>)
    ensures
        r == integer_of(json_model(*v)),
{
    v.as_i64()
}

/// `Value::is_null`.
#[verifier::external_body]
pub(crate) fn json_is_null(v: &serde_json::Value) -> (r: bool)
    ensures
        r == (json_model(*v) is Null),
{
    v.is_null()
}

/// `Value::to_string`, the compact JSON text of the value.
#[verifier::external_body]
pub(crate) fn json_render(v: &serde_json::Value) -> (r: String)
    ensures
        r@ == json_rendered(*v),
{
    v.to_string()
}

} // verus!

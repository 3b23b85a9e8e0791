//! A JSON document as the catalogue reads it: `serde_json` parses the bytes,
//! and the value is handed over as this plain tree, object members in
//! document order.

use vstd::prelude::*;

use super::text::same_text;

verus! {

#[derive(Debug, PartialEq, Eq)]
pub enum JsonValue {
    Null,
    Bool(bool),
    /// The number as `serde_json` prints it.
    Number(String),
    Str(String),
    Array(Vec<JsonValue>),
    Object(Vec<(String, JsonValue)>),
}

#[verifier::external_type_specification]
#[verifier::external_body]
pub struct ExSerdeJsonValue(serde_json::Value);

/// The value that `serde_json::from_slice::<serde_json::Value>` reads from the
/// bytes, or `None` where it reports an error.
pub uninterp spec fn json_parse(bytes: Seq<u8>) -> Option<JsonValue>;

/// The text of the error that `serde_json::from_slice` reports for bytes it
/// does not accept.
pub uninterp spec fn json_error_text(bytes: Seq<u8>) -> Seq<char>;

/// `serde_json::Value` as a plain tree: one arm per variant, members kept in
/// the map's iteration order, which is document order under the crate's
/// `preserve_order` feature.
#[verifier::external_body]
fn json_from_serde(value: serde_json::Value) -> JsonValue {
    match value {
        serde_json::Value::Null => JsonValue::Null,
        serde_json::Value::Bool(b) => JsonValue::Bool(b),
        serde_json::Value::Number(n) => JsonValue::Number(n.to_string()),
        serde_json::Value::String(s) => JsonValue::Str(s),
        serde_json::Value::Array(items) => JsonValue::Array(items.into_iter().map(json_from_serde).collect()),
        serde_json::Value::Object(map) => JsonValue::Object(
            map.into_iter().map(|(k, v)| (k, json_from_serde(v))).collect(),
        ),
    }
}

/// `serde_json::from_slice::<serde_json::Value>`: the document, or the text of
/// its error. What it accepts, and the wording of its errors, are named, not
/// restated.
#[verifier::external_body]
pub(crate) fn parse_json(bytes: &[u8]) -> (r: Result<JsonValue, String>)
    ensures
        match json_parse(bytes@) {
            Some(v) => r == Ok::<JsonValue, String>(v),
            None => r is Err && r->Err_0@ == json_error_text(bytes@),
        },
{
    match serde_json::from_slice::<serde_json::Value>(bytes) {
        Ok(v) => Ok(json_from_serde(v)),
        Err(e) => Err(e.to_string()),
    }
}

/// The value of the first member with the key, as `Value::get` gives it on an
/// object; `None` for a missing key or a value that is not an object.
pub open spec fn member(v: JsonValue, key: Seq<char>) -> Option<JsonValue> {
    match v {
        JsonValue::Object(m) => match first_key_from(m@, key, 0) {
            Some(i) => Some(m@[i].1),
            None => None,
        },
        _ => None,
    }
}

/// Position of the first member, from `k` on, with the key.
pub open spec fn first_key_from(m: Seq<(String, JsonValue)>, key: Seq<char>, k: int) -> Option<int>
    decreases m.len() - k,
{
    if k < 0 || k >= m.len() {
        None
    } else if m[k].0@ == key {
        Some(k)
    } else {
        first_key_from(m, key, k + 1)
    }
}

impl JsonValue {
    /// `Value::get` with a key.
    pub fn get(&self, key: &str) -> (r: Option<&JsonValue>)
        ensures
            match r {
                Some(v) => member(*self, key@) == Some(*v),
                None => member(*self, key@) is None,
            },
    {
        match self {
            JsonValue::Object(m) => {
                let mut i: usize = 0;
                while i < m.len()
                    invariant
                        i <= m@.len(),
                        *self == JsonValue::Object(*m),
                        first_key_from(m@, key@, 0) == first_key_from(m@, key@, i as int),
                    decreases m.len() - i,
                {
                    if same_text(m[i].0.as_str(), key) {
                        return Some(&m[i].1);
                    }
                    i += 1;
                }
                None
            },
            _ => None,
        }
    }
}

/// The plain tree back as a `serde_json::Value`, variant for variant.
#[verifier::external_body]
fn json_to_serde(value: &JsonValue) -> serde_json::Value {
    match value {
        JsonValue::Null => serde_json::Value::Null,
        JsonValue::Bool(b) => serde_json::Value::Bool(*b),
        JsonValue::Number(n) => n.parse::<serde_json::Number>().map(serde_json::Value::Number).unwrap_or(serde_json::Value::Null),
        JsonValue::Str(s) => serde_json::Value::String(s.clone()),
        JsonValue::Array(items) => serde_json::Value::Array(items.iter().map(json_to_serde).collect()),
        JsonValue::Object(m) => serde_json::Value::Object(m.iter().map(|(k, v)| (k.clone(), json_to_serde(v))).collect()),
    }
}

/// The strings of an array made of strings only.
pub open spec fn string_items(v: JsonValue) -> Option<Seq<Seq<char>>> {
    match v {
        JsonValue::Array(items) => if forall|i: int| 0 <= i < items@.len() ==> (#[trigger] items@[i]) is Str {
            Some(items@.map_values(|x: JsonValue| x->Str_0@))
        } else {
            None
        },
        _ => None,
    }
}

/// The text of the error `serde_json::from_value::<Vec<String>>` reports for a
/// value that is not an array of strings.
pub uninterp spec fn string_list_error(v: JsonValue) -> Seq<char>;

/// `serde_json::from_value::<Vec<String>>`: an array whose items are all
/// strings gives those strings; anything else is an error, whose text is
/// named.
#[verifier::external_body]
pub(crate) fn string_list(v: &JsonValue) -> (r: Result<Vec<String>, String>)
    ensures
        match string_items(*v) {
            Some(items) => r is Ok && r->Ok_0@.map_values(|s: String| s@) == items,
            None => r is Err && r->Err_0@ == string_list_error(*v),
        },
{
    match serde_json::from_value::<Vec<String>>(json_to_serde(v)) {
        Ok(list) => Ok(list),
        Err(e) => Err(e.to_string()),
    }
}

} // verus!

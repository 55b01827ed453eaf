//! The JSON tree the wire protocol is decoded from and encoded into.
//!
//! The generic text parsing and printing are done by serde_json behind
//! two trusted wrappers; everything that reads or builds a tree is
//! verified against the `Json` type itself.
use vstd::prelude::*;
use crate::dto::JsonNumber;

verus! {

/// One JSON value. Object fields keep their textual order; field
/// lookup takes the first match.
#[derive(Debug, PartialEq)]
pub enum Json {
    Null,
    Bool(bool),
    Num(JsonNumber),
    Str(String),
    Arr(Vec<Json>),
    Obj(Vec<(String, Json)>),
}

/// The first field of `fields` named `key`, scanning in order.
pub open spec fn spec_field(fields: Seq<(String, Json)>, key: Seq<char>) -> Option<Json>
    decreases fields.len(),
{
    if fields.len() == 0 {
        None
    } else if fields[0].0@ == key {
        Some(fields[0].1)
    } else {
        spec_field(fields.skip(1), key)
    }
}

/// The field named `key` of an object, `None` for a missing field and
/// for any non-object value.
pub open spec fn spec_get(j: Json, key: Seq<char>) -> Option<Json> {
    match j {
        Json::Obj(fields) => spec_field(fields@, key),
        _ => None,
    }
}

/// First-match field lookup, the executable counterpart of `spec_get`.
pub fn get_field<'a>(j: &'a Json, key: &str) -> (r: Option<&'a Json>)
    ensures
        match r {
            Some(v) => spec_get(*j, key@) == Some(*v),
            None => spec_get(*j, key@) is None,
        },
{
    match j {
        Json::Obj(fields) => {
            let wanted: String = key.to_owned();
            proof {
                assert(fields@.skip(0) =~= fields@);
            }
            let n = fields.len();
            let mut i: usize = 0;
            while i < n
                invariant
                    n == fields@.len(),
                    i <= n,
                    wanted@ == key@,
                    spec_get(*j, key@) == spec_field(fields@, key@),
                    spec_field(fields@, key@) == spec_field(fields@.skip(i as int), key@),
                decreases n - i,
            {
                proof {
                    assert(fields@.skip(i as int)[0] == fields@[i as int]);
                    assert(fields@.skip(i as int).skip(1) =~= fields@.skip(i as int + 1));
                }
                if fields[i].0 == wanted {
                    return Some(&fields[i].1);
                }
                i += 1;
            }
            proof {
                assert(fields@.skip(n as int) =~= Seq::<(String, Json)>::empty());
            }
            None
        },
        _ => None,
    }
}

/// Declares serde_json::Value so the conversion helpers below can name
/// it; the library holds no value of it outside those helpers.
#[verifier::external_type_specification]
#[verifier::external_body]
pub struct ExValue(serde_json::Value);

/// Declares serde_json::Number for the number conversion helpers.
#[verifier::external_type_specification]
#[verifier::external_body]
pub struct ExNumber(serde_json::Number);

/// What parsing a given text yields: either a tree or serde_json's
/// diagnostic. Parsing is a function of the text alone.
pub uninterp spec fn spec_parse_json(text: Seq<char>) -> Result<Json, String>;

/// Relies on serde_json::from_str::<serde_json::Value>: the result is
/// determined by the text alone; it is named `spec_parse_json`.
#[verifier::external_body]
pub fn parse_json(text: &str) -> (r: Result<Json, String>)
    ensures
        r == spec_parse_json(text@),
{
    match serde_json::from_str::<serde_json::Value>(text) {
        Ok(v) => Ok(value_to_json(v)),
        Err(e) => Err(e.to_string()),
    }
}

/// Converts serde_json's tree into the library's, variant by variant.
#[verifier::external_body]
fn value_to_json(v: serde_json::Value) -> Json {
    match v {
        serde_json::Value::Null => Json::Null,
        serde_json::Value::Bool(b) => Json::Bool(b),
        serde_json::Value::Number(n) => Json::Num(number_to_json(&n)),
        serde_json::Value::String(s) => Json::Str(s),
        serde_json::Value::Array(a) => Json::Arr(a.into_iter().map(value_to_json).collect()),
        serde_json::Value::Object(m) => Json::Obj(
            m.into_iter().map(|(k, w)| (k, value_to_json(w))).collect(),
        ),
    }
}

/// Reads a serde_json::Number through its accessors: a non-negative
/// integer, a negative integer, or a double kept as its JSON text.
#[verifier::external_body]
fn number_to_json(n: &serde_json::Number) -> JsonNumber {
    if let Some(u) = n.as_u64() {
        JsonNumber::PosInt(u)
    } else if let Some(i) = n.as_i64() {
        JsonNumber::NegInt(i)
    } else {
        JsonNumber::Double(n.to_string())
    }
}

/// What printing a given tree yields. Printing is a function of the
/// tree alone.
pub uninterp spec fn spec_json_text(j: Json) -> Seq<char>;

/// Relies on serde_json::to_string on a serde_json::Value, which
/// cannot fail: the text is determined by the tree alone; it is named
/// `spec_json_text`.
#[verifier::external_body]
pub fn json_to_string(j: &Json) -> (r: String)
    ensures
        r@ == spec_json_text(*j),
{
    serde_json::to_string(&json_to_value(j)).unwrap_or_default()
}

/// Converts the library's tree into serde_json's, variant by variant.
#[verifier::external_body]
fn json_to_value(j: &Json) -> serde_json::Value {
    match j {
        Json::Null => serde_json::Value::Null,
        Json::Bool(b) => serde_json::Value::Bool(*b),
        Json::Num(n) => number_to_value(n),
        Json::Str(s) => serde_json::Value::String(s.clone()),
        Json::Arr(items) => serde_json::Value::Array(items.iter().map(json_to_value).collect()),
        Json::Obj(fields) => serde_json::Value::Object(
            fields.iter().map(|(k, w)| (k.clone(), json_to_value(w))).collect(),
        ),
    }
}

/// Builds a serde_json number back from the library's number model by
/// reparsing its text; text that is not a JSON number becomes null.
#[verifier::external_body]
fn number_to_value(n: &JsonNumber) -> serde_json::Value {
    match n {
        JsonNumber::PosInt(u) => serde_json::Value::from(*u),
        JsonNumber::NegInt(i) => serde_json::Value::from(*i),
        JsonNumber::Double(s) => serde_json::from_str::<serde_json::Value>(s).unwrap_or(
            serde_json::Value::Null,
        ),
    }
}

} // verus!

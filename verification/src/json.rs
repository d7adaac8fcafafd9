//! The crate's view of a decoded JSON document, and the one trusted parse
//! behind it.
//!
//! Every response of the exchange is decoded into a `JsonValue` tree first;
//! all shape checking and field validation then happens on that tree, in
//! verified code. Numbers are carried as their decimal rendering, so that the
//! strict decimal parser of this crate settles what they mean.

use vstd::prelude::*;

verus! {

/// A decoded JSON document: the six JSON shapes, with numbers as text and
/// object fields in a fixed order with unique keys (the parse sorts them).
#[derive(Debug)]
pub enum JsonValue {
    Null,
    Bool(bool),
    /// A number, as the text the parse renders it to: an integer plainly,
    /// any other number in its shortest decimal form.
    Num(String),
    Str(String),
    Arr(Vec<JsonValue>),
    Obj(Vec<(String, JsonValue)>),
}

/// The document a byte payload decodes to, if it is well-formed JSON.
/// The reading is a fixed function of the bytes alone.
pub uninterp spec fn json_of(bytes: Seq<u8>) -> Option<JsonValue>;

/// serde_json's own document type, declared so that the conversion below
/// can take it; the crate holds no value of it beyond that call.
#[verifier::external_type_specification]
#[verifier::external_body]
pub struct ExSerdeValue(serde_json::Value);

/// Carries one parsed `serde_json::Value` node over into the crate's own
/// tree: each variant maps to the like-named `JsonValue` variant, field by
/// field, and a number keeps serde_json's rendering of it.
#[verifier::external_body]
fn from_serde_value(v: serde_json::Value) -> JsonValue {
    match v {
        serde_json::Value::Null => JsonValue::Null,
        serde_json::Value::Bool(b) => JsonValue::Bool(b),
        serde_json::Value::Number(n) => JsonValue::Num(n.to_string()),
        serde_json::Value::String(s) => JsonValue::Str(s),
        serde_json::Value::Array(a) => JsonValue::Arr(
            a.into_iter().map(from_serde_value).collect(),
        ),
        serde_json::Value::Object(m) => JsonValue::Obj(
            m.into_iter().map(|(k, x)| (k, from_serde_value(x))).collect(),
        ),
    }
}

/// Relies on serde_json::from_slice::<serde_json::Value>: a strict parse of
/// the whole byte slice, `None` exactly on bytes that are not one
/// well-formed JSON document. serde_json reports malformed input as an error
/// and bounds its recursion depth, so the call returns on every input.
#[verifier::external_body]
pub(crate) fn parse_json(bytes: &[u8]) -> (r: Option<JsonValue>)
    ensures
        r == json_of(bytes@),
{
    match serde_json::from_slice::<serde_json::Value>(bytes) {
        Ok(v) => Some(from_serde_value(v)),
        Err(_) => None,
    }
}

/// The value under the first binding of `key` in an object's field list.
pub open spec fn spec_lookup(fields: Seq<(String, JsonValue)>, key: Seq<char>) -> Option<
    JsonValue,
>
    decreases fields.len(),
{
    if fields.len() == 0 {
        None
    } else if fields[0].0@ == key {
        Some(fields[0].1)
    } else {
        spec_lookup(fields.drop_first(), key)
    }
}

/// Finds the value under `key` in an object's field list.
#[verifier::loop_isolation(false)]
pub fn lookup<'a>(fields: &'a Vec<(String, JsonValue)>, key: &str) -> (r: Option<&'a JsonValue>)
    ensures
        match r {
            Some(v) => spec_lookup(fields@, key@) == Some(*v),
            None => spec_lookup(fields@, key@) is None,
        },
{
    let n = fields.len();
    proof {
        assert(fields@.skip(0) =~= fields@);
    }
    let mut i: usize = 0;
    while i < n
        invariant
            i <= n,
            spec_lookup(fields@, key@) == spec_lookup(fields@.skip(i as int), key@),
        decreases n - i,
    {
        proof {
            assert(fields@.skip(i as int)[0] == fields@[i as int]);
            assert(fields@.skip(i as int).drop_first() =~= fields@.skip(i + 1));
        }
        if crate::text::str_eq(fields[i].0.as_str(), key) {
            return Some(&fields[i].1);
        }
        i += 1;
    }
    proof {
        assert(fields@.skip(n as int) =~= Seq::<(String, JsonValue)>::empty());
    }
    None
}

} // verus!

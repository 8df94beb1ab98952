use vstd::prelude::*;

verus! {

/// A JSON value as the mining logic reads it. A number keeps its value where
/// it is a non-negative integer that fits `u64`; an object keeps its entries
/// in the order the parser yields them, each key once.
#[derive(Debug)]
pub enum JsonValue {
    Null,
    Bool(bool),
    Number(Option<u64>),
    Str(String),
    Array(Vec<JsonValue>),
    Object(Vec<(String, JsonValue)>),
}

/// The value of the first entry under `key`, if any.
pub open spec fn lookup(entries: Seq<(String, JsonValue)>, key: Seq<char>) -> Option<JsonValue>
    decreases entries.len(),
{
    if entries.len() == 0 {
        None
    } else if entries[0].0@ == key {
        Some(entries[0].1)
    } else {
        lookup(entries.drop_first(), key)
    }
}

/// `v[key]`: the field of an object, or nothing.
pub open spec fn field_of(v: JsonValue, key: Seq<char>) -> Option<JsonValue> {
    match v {
        JsonValue::Object(entries) => lookup(entries@, key),
        _ => None,
    }
}

/// `v[i]`: the element of an array, or nothing.
pub open spec fn element_of(v: JsonValue, i: int) -> Option<JsonValue> {
    match v {
        JsonValue::Array(a) => if 0 <= i < a@.len() {
            Some(a@[i])
        } else {
            None
        },
        _ => None,
    }
}

/// The text of a string value.
pub open spec fn text_of(v: Option<JsonValue>) -> Option<Seq<char>> {
    match v {
        Some(JsonValue::Str(s)) => Some(s@),
        _ => None,
    }
}

/// The value of a number that is a `u64`.
pub open spec fn u64_of(v: Option<JsonValue>) -> Option<u64> {
    match v {
        Some(JsonValue::Number(n)) => n,
        _ => None,
    }
}

/// What a JSON text parses to, if it is valid JSON.
pub uninterp spec fn json_of(text: Seq<u8>) -> Option<JsonValue>;

#[verifier::external_type_specification]
#[verifier::external_body]
pub struct ExJsonValue(serde_json::Value);

/// Relies on serde_json's `Value` variants, each carried over as it is, and
/// on `Number::as_u64` for the value of a number.
#[verifier::external_body]
fn from_parsed(v: &serde_json::Value) -> JsonValue {
    match v {
        serde_json::Value::Null => JsonValue::Null,
        serde_json::Value::Bool(b) => JsonValue::Bool(*b),
        serde_json::Value::Number(n) => JsonValue::Number(n.as_u64()),
        serde_json::Value::String(s) => JsonValue::Str(s.clone()),
        serde_json::Value::Array(a) => JsonValue::Array(a.iter().map(from_parsed).collect()),
        serde_json::Value::Object(m) => JsonValue::Object(
            m.iter().map(|(k, x)| (k.clone(), from_parsed(x))).collect(),
        ),
    }
}

/// Relies on serde_json::from_slice: the parse of a text depends on the text
/// alone, and fails where it is not JSON.
#[verifier::external_body]
pub(crate) fn parse_json(text: &[u8]) -> (r: Option<JsonValue>)
    ensures
        r == json_of(text@),
{
    serde_json::from_slice::<serde_json::Value>(text).ok().map(|v| from_parsed(&v))
}

/// The compact JSON text of a value.
pub uninterp spec fn json_text_of(v: JsonValue) -> Seq<char>;

/// Relies on serde_json's `Value` constructors, one for each variant; a
/// number without a `u64` value becomes null.
#[verifier::external_body]
fn to_parsed(v: &JsonValue) -> serde_json::Value {
    match v {
        JsonValue::Null | JsonValue::Number(None) => serde_json::Value::Null,
        JsonValue::Bool(b) => serde_json::Value::Bool(*b),
        JsonValue::Number(Some(n)) => serde_json::Value::from(*n),
        JsonValue::Str(s) => serde_json::Value::String(s.clone()),
        JsonValue::Array(a) => serde_json::Value::Array(a.iter().map(to_parsed).collect()),
        JsonValue::Object(e) => serde_json::Value::Object(
            e.iter().map(|(k, x)| (k.clone(), to_parsed(x))).collect(),
        ),
    }
}

/// Relies on serde_json's `Display` for `Value`: compact JSON text that
/// depends on the value alone.
#[verifier::external_body]
pub(crate) fn json_text(v: &JsonValue) -> (r: String)
    ensures
        r@ == json_text_of(*v),
{
    to_parsed(v).to_string()
}

/// `v[key]`.
pub fn field<'a>(v: &'a JsonValue, key: &str) -> (r: Option<&'a JsonValue>)
    ensures
        r matches Some(x) ==> field_of(*v, key@) == Some(*x),
        r is None ==> field_of(*v, key@) is None,
{
    match v {
        JsonValue::Object(entries) => {
            let wanted = key.to_owned();
            let mut i: usize = 0;
            assert(entries@.subrange(0, entries@.len() as int) =~= entries@);
            while i < entries.len()
                invariant
                    i <= entries@.len(),
                    wanted@ == key@,
                    field_of(*v, key@) == lookup(entries@, key@),
                    lookup(entries@, key@) == lookup(entries@.subrange(i as int, entries@.len() as int), key@),
                decreases entries@.len() - i,
            {
                let ghost rest = entries@.subrange(i as int, entries@.len() as int);
                assert(rest.drop_first() =~= entries@.subrange(i + 1, entries@.len() as int));
                assert(rest[0] == entries@[i as int]);
                if entries[i].0.eq(&wanted) {
                    assert(entries@[i as int].0@ == key@);
                    assert(lookup(rest, key@) == Some(entries@[i as int].1));
                    return Some(&entries[i].1);
                }
                i = i + 1;
            }
            assert(entries@.subrange(i as int, entries@.len() as int).len() == 0);
            None
        },
        _ => None,
    }
}

/// `v[i]`.
pub fn element<'a>(v: &'a JsonValue, i: usize) -> (r: Option<&'a JsonValue>)
    ensures
        r matches Some(x) ==> element_of(*v, i as int) == Some(*x),
        r is None ==> element_of(*v, i as int) is None,
{
    match v {
        JsonValue::Array(a) => {
            if i < a.len() {
                Some(&a[i])
            } else {
                None
            }
        },
        _ => None,
    }
}

} // verus!

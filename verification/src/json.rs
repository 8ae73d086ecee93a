//! JSON documents as the library reads them: values, and the lenient
//! lookups by key and position that treat anything missing as null.
use vstd::prelude::*;
use crate::text::str_eq;

verus! {

/// A JSON value. A number is kept as `serde_json`'s `Number::as_i64` reads
/// it: its integer when it was written as an integer that fits in an `i64`,
/// `None` otherwise (a fraction or exponent included).
#[derive(Debug)]
pub enum JsonValue {
    Null,
    Bool(bool),
    Number(Option<i64>),
    Str(String),
    Array(Vec<JsonValue>),
    Object(Vec<(String, JsonValue)>),
}

/// The JSON array that `serde_json::from_str::<Vec<serde_json::Value>>`
/// reads from `text`, or the message of the error it reports.
pub uninterp spec fn json_array_document(text: Seq<char>) -> core::result::Result<
    Seq<JsonValue>,
    Seq<char>,
>;

/// The JSON value that `serde_json::from_str::<serde_json::Value>` reads
/// from `text`, or the message of the error it reports.
pub uninterp spec fn json_value_document(text: Seq<char>) -> core::result::Result<
    JsonValue,
    Seq<char>,
>;

/// Declares `serde_json::Value` for the conversion below.
#[verifier::external_type_specification]
#[verifier::external_body]
pub struct ExJsonValue(serde_json::Value);

/// Converts a `serde_json::Value` into a `JsonValue`, variant by variant;
/// a number becomes `Number::as_i64` of it.
#[verifier::external_body]
fn from_serde(v: &serde_json::Value) -> JsonValue {
    match v {
        serde_json::Value::Null => JsonValue::Null,
        serde_json::Value::Bool(b) => JsonValue::Bool(*b),
        serde_json::Value::Number(n) => JsonValue::Number(n.as_i64()),
        serde_json::Value::String(s) => JsonValue::Str(s.clone()),
        serde_json::Value::Array(a) => JsonValue::Array(a.iter().map(from_serde).collect()),
        serde_json::Value::Object(m) => JsonValue::Object(
            m.iter().map(|(k, x)| (k.clone(), from_serde(x))).collect(),
        ),
    }
}

/// Calls `serde_json::from_str::<Vec<serde_json::Value>>` on `text`: the
/// array it reads, element by element, or its error message.
#[verifier::external_body]
pub(crate) fn parse_json_array(text: &str) -> (r: core::result::Result<Vec<JsonValue>, String>)
    ensures
        match r {
            Ok(v) => json_array_document(text@) == Ok::<Seq<JsonValue>, Seq<char>>(v@),
            Err(m) => json_array_document(text@) == Err::<Seq<JsonValue>, Seq<char>>(m@),
        },
{
    match serde_json::from_str::<Vec<serde_json::Value>>(text) {
        Ok(v) => Ok(v.iter().map(from_serde).collect()),
        Err(e) => Err(e.to_string()),
    }
}

/// Calls `serde_json::from_str::<serde_json::Value>` on `text`: the value it
/// reads, or its error message.
#[verifier::external_body]
pub(crate) fn parse_json_value(text: &str) -> (r: core::result::Result<JsonValue, String>)
    ensures
        match r {
            Ok(v) => json_value_document(text@) == Ok::<JsonValue, Seq<char>>(v),
            Err(m) => json_value_document(text@) == Err::<JsonValue, Seq<char>>(m@),
        },
{
    match serde_json::from_str::<serde_json::Value>(text) {
        Ok(v) => Ok(from_serde(&v)),
        Err(e) => Err(e.to_string()),
    }
}

/// Position `i` of the object's members is the first with key `key`.
pub open spec fn first_key_at(m: Seq<(String, JsonValue)>, key: Seq<char>, i: int) -> bool {
    &&& 0 <= i < m.len()
    &&& m[i].0@ == key
    &&& forall|j: int| 0 <= j < i ==> m[j].0@ != key
}

/// The member `key` of `v` when `v` is an object that has it.
pub open spec fn member(v: JsonValue, key: Seq<char>) -> Option<JsonValue> {
    match v {
        JsonValue::Object(m) => if exists|i: int| first_key_at(m@, key, i) {
            Some(m@[choose|i: int| first_key_at(m@, key, i)].1)
        } else {
            None
        },
        _ => None,
    }
}

/// The member `key` of an optional value.
pub open spec fn member_of(v: Option<JsonValue>, key: Seq<char>) -> Option<JsonValue> {
    match v {
        Some(x) => member(x, key),
        None => None,
    }
}

/// The element at position `i` of an optional array.
pub open spec fn element_of(v: Option<JsonValue>, i: int) -> Option<JsonValue> {
    match v {
        Some(JsonValue::Array(a)) => if 0 <= i < a@.len() {
            Some(a@[i])
        } else {
            None
        },
        _ => None,
    }
}

/// The string an optional value holds.
pub open spec fn str_value(v: Option<JsonValue>) -> Option<Seq<char>> {
    match v {
        Some(JsonValue::Str(s)) => Some(s@),
        _ => None,
    }
}

/// The integer an optional value holds.
pub open spec fn int_value(v: Option<JsonValue>) -> Option<i64> {
    match v {
        Some(JsonValue::Number(Some(n))) => Some(n),
        _ => None,
    }
}

/// The boolean an optional value holds.
pub open spec fn bool_value(v: Option<JsonValue>) -> Option<bool> {
    match v {
        Some(JsonValue::Bool(b)) => Some(b),
        _ => None,
    }
}

/// The length of the array an optional value holds.
pub open spec fn array_len(v: Option<JsonValue>) -> Option<nat> {
    match v {
        Some(JsonValue::Array(a)) => Some(a@.len()),
        _ => None,
    }
}

proof fn lemma_first_key_unique(m: Seq<(String, JsonValue)>, key: Seq<char>, i: int)
    requires
        first_key_at(m, key, i),
    ensures
        (choose|k: int| first_key_at(m, key, k)) == i,
{
    let k = choose|k: int| first_key_at(m, key, k);
    assert(first_key_at(m, key, k));
    if k < i {
        assert(m[k].0@ == key);
    } else if i < k {
        assert(m[i].0@ == key);
    }
}

/// The member `key` of `v`, when `v` is an object that has one.
pub fn get_member<'a>(v: Option<&'a JsonValue>, key: &str) -> (r: Option<&'a JsonValue>)
    ensures
        match r {
            Some(x) => member_of(
                match v {
                    Some(y) => Some(*y),
                    None => None,
                },
                key@,
            ) == Some(*x),
            None => member_of(
                match v {
                    Some(y) => Some(*y),
                    None => None,
                },
                key@,
            ) is None,
        },
{
    match v {
        Some(JsonValue::Object(m)) => match find_key(m, key) {
            Some(i) => {
                proof {
                    lemma_first_key_unique(m@, key@, i as int);
                }
                Some(&m[i].1)
            },
            None => None,
        },
        _ => None,
    }
}

fn find_key(m: &Vec<(String, JsonValue)>, key: &str) -> (r: Option<usize>)
    ensures
        match r {
            Some(i) => first_key_at(m@, key@, i as int),
            None => forall|j: int| 0 <= j < m@.len() ==> m@[j].0@ != key@,
        },
{
    let mut i: usize = 0;
    while i < m.len()
        invariant
            i <= m.len(),
            forall|j: int| 0 <= j < i ==> m@[j].0@ != key@,
        decreases m.len() - i,
    {
        if str_eq(m[i].0.as_str(), key) {
            return Some(i);
        }
        i = i + 1;
    }
    None
}

/// The element at position `i` of `v`, when `v` is an array that long.
pub fn get_element<'a>(v: Option<&'a JsonValue>, i: usize) -> (r: Option<&'a JsonValue>)
    ensures
        match r {
            Some(x) => element_of(
                match v {
                    Some(y) => Some(*y),
                    None => None,
                },
                i as int,
            ) == Some(*x),
            None => element_of(
                match v {
                    Some(y) => Some(*y),
                    None => None,
                },
                i as int,
            ) is None,
        },
{
    match v {
        Some(JsonValue::Array(a)) => if i < a.len() {
            Some(&a[i])
        } else {
            None
        },
        _ => None,
    }
}

/// The string `v` holds, if it is one.
pub fn as_str(v: Option<&JsonValue>) -> (r: Option<String>)
    ensures
        match r {
            Some(s) => str_value(
                match v {
                    Some(y) => Some(*y),
                    None => None,
                },
            ) == Some(s@),
            None => str_value(
                match v {
                    Some(y) => Some(*y),
                    None => None,
                },
            ) is None,
        },
{
    match v {
        Some(JsonValue::Str(s)) => Some(s.clone()),
        _ => None,
    }
}

/// The integer `v` holds, if it is one that fits in an `i64`.
pub fn as_i64(v: Option<&JsonValue>) -> (r: Option<i64>)
    ensures
        r == int_value(
            match v {
                Some(y) => Some(*y),
                None => None,
            },
        ),
{
    match v {
        Some(JsonValue::Number(Some(n))) => Some(*n),
        _ => None,
    }
}

/// The boolean `v` holds, if it is one.
pub fn as_bool(v: Option<&JsonValue>) -> (r: Option<bool>)
    ensures
        r == bool_value(
            match v {
                Some(y) => Some(*y),
                None => None,
            },
        ),
{
    match v {
        Some(JsonValue::Bool(b)) => Some(*b),
        _ => None,
    }
}

/// The length of the array `v` holds, if it is one.
pub fn array_length(v: Option<&JsonValue>) -> (r: Option<usize>)
    ensures
        match r {
            Some(n) => array_len(
                match v {
                    Some(y) => Some(*y),
                    None => None,
                },
            ) == Some(n as nat),
            None => array_len(
                match v {
                    Some(y) => Some(*y),
                    None => None,
                },
            ) is None,
        },
{
    match v {
        Some(JsonValue::Array(a)) => Some(a.len()),
        _ => None,
    }
}

} // verus!

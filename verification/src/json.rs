//! JSON values as the fund data services send them, and the lookups the
//! library makes in them.

use serde_json::Value;
use vstd::prelude::*;

verus! {

/// A JSON number: its value where it is an integer that fits, and its text
/// (the shortest text that reads back as the same `f64` for a fraction).
#[derive(Debug, Clone)]
pub struct JsonNumber {
    /// The value, for a non-negative integer that fits in `u64`.
    pub as_u64: Option<u64>,
    /// The value, for an integer that fits in `i64`.
    pub as_i64: Option<i64>,
    /// The number's text.
    pub text: String,
}

/// A JSON value; an object keeps its members in key order, each key once.
#[derive(Debug)]
pub enum Json {
    Null,
    Bool(bool),
    Number(JsonNumber),
    Str(String),
    Array(Vec<Json>),
    Object(Vec<(String, Json)>),
}

/// What serde_json reads from a JSON text (`from_str::<serde_json::Value>`),
/// each nested value read again from its own text, or the text of
/// serde_json's error.
pub uninterp spec fn json_value(text: Seq<char>) -> Result<Json, Seq<char>>;

/// Reads a JSON text with serde_json; the contract names the result.
#[verifier::external_body]
pub(crate) fn read_json(text: &str) -> (r: Result<Json, String>)
    ensures
        match r {
            Ok(j) => json_value(text@) == Ok::<Json, Seq<char>>(j),
            Err(e) => json_value(text@) == Err::<Json, Seq<char>>(e@),
        },
{
    Ok(match serde_json::from_str(text).map_err(|e| e.to_string())? {
        Value::Null => Json::Null,
        Value::Bool(b) => Json::Bool(b),
        Value::Number(n) => Json::Number(
            JsonNumber { as_u64: n.as_u64(), as_i64: n.as_i64(), text: n.to_string() },
        ),
        Value::String(s) => Json::Str(s),
        Value::Array(a) => Json::Array(read_json_array(&Value::Array(a).to_string())?),
        Value::Object(m) => Json::Object(
            m.iter().map(|(k, x)| Ok((k.clone(), read_json(&x.to_string())?))).collect::<Result<_, String>>()?,
        ),
    })
}

/// What serde_json reads from the text of a JSON array
/// (`from_str::<Vec<serde_json::Value>>`), each element read again from its
/// own text, or the text of serde_json's error.
pub uninterp spec fn json_array_value(text: Seq<char>) -> Result<Seq<Json>, Seq<char>>;

/// Reads the text of a JSON array with serde_json; the contract names the
/// result.
#[verifier::external_body]
pub(crate) fn read_json_array(text: &str) -> (r: Result<Vec<Json>, String>)
    ensures
        match r {
            Ok(v) => json_array_value(text@) == Ok::<Seq<Json>, Seq<char>>(v@),
            Err(e) => json_array_value(text@) == Err::<Seq<Json>, Seq<char>>(e@),
        },
{
    let items: Vec<Value> = serde_json::from_str(text).map_err(|e| e.to_string())?;
    items.iter().map(|x| read_json(&x.to_string())).collect()
}

/// The value of the first member named `key`.
pub open spec fn member(fields: Seq<(String, Json)>, key: Seq<char>) -> Option<Json>
    decreases fields.len(),
{
    if fields.len() == 0 {
        None
    } else if fields[0].0@ == key {
        Some(fields[0].1)
    } else {
        member(fields.drop_first(), key)
    }
}

/// `value.get(key)`: the member `key` of an object; nothing for any other
/// value.
pub open spec fn get(j: Option<Json>, key: Seq<char>) -> Option<Json> {
    match j {
        Some(Json::Object(fields)) => member(fields@, key),
        _ => None,
    }
}

/// `value.as_str()`.
pub open spec fn as_str(j: Option<Json>) -> Option<Seq<char>> {
    match j {
        Some(Json::Str(s)) => Some(s@),
        _ => None,
    }
}

/// `value.as_i64()`.
pub open spec fn as_i64(j: Option<Json>) -> Option<i64> {
    match j {
        Some(Json::Number(n)) => n.as_i64,
        _ => None,
    }
}

/// `value.as_u64()`.
pub open spec fn as_u64(j: Option<Json>) -> Option<u64> {
    match j {
        Some(Json::Number(n)) => n.as_u64,
        _ => None,
    }
}

/// The text of a number, which `value.as_f64()` reads; nothing for any
/// other value.
pub open spec fn number_text(j: Option<Json>) -> Option<Seq<char>> {
    match j {
        Some(Json::Number(n)) => Some(n.text@),
        _ => None,
    }
}

/// `value.as_array()`.
pub open spec fn as_array(j: Option<Json>) -> Option<Seq<Json>> {
    match j {
        Some(Json::Array(items)) => Some(items@),
        _ => None,
    }
}

/// Element `i` of an array; nothing for any other value or index.
pub open spec fn at(j: Option<Json>, i: int) -> Option<Json> {
    match j {
        Some(Json::Array(items)) => if 0 <= i < items@.len() {
            Some(items@[i])
        } else {
            None
        },
        _ => None,
    }
}

/// The member `key` of `j`, if `j` is an object that has one.
pub fn json_get<'a>(j: Option<&'a Json>, key: &str) -> (r: Option<&'a Json>)
    ensures
        match j {
            Some(v) => match r {
                Some(x) => get(Some(*v), key@) == Some(*x),
                None => get(Some(*v), key@) is None,
            },
            None => r is None,
        },
{
    let v = match j {
        Some(v) => v,
        None => {
            return None;
        },
    };
    let fields = match v {
        Json::Object(fields) => fields,
        _ => {
            return None;
        },
    };
    let mut i: usize = 0;
    assert(fields@.skip(0) =~= fields@);
    while i < fields.len()
        invariant
            i <= fields@.len(),
            j == Some(v),
            get(Some(*v), key@) == member(fields@, key@),
            member(fields@, key@) == member(fields@.skip(i as int), key@),
        decreases fields@.len() - i,
    {
        proof {
            let u = fields@.skip(i as int);
            assert(u[0] == fields@[i as int]);
            assert(u.drop_first() =~= fields@.skip(i + 1));
        }
        if crate::text::str_eq(fields[i].0.as_str(), key) {
            assert(member(fields@.skip(i as int), key@) == Some(fields@[i as int].1));
            return Some(&fields[i].1);
        }
        i += 1;
    }
    None
}

/// `as_str` of an optional value.
pub fn json_str<'a>(j: Option<&'a Json>) -> (r: Option<&'a str>)
    ensures
        match j {
            Some(v) => match r {
                Some(s) => as_str(Some(*v)) == Some(s@),
                None => as_str(Some(*v)) is None,
            },
            None => r is None,
        },
{
    match j {
        Some(Json::Str(s)) => Some(s.as_str()),
        _ => None,
    }
}

/// `as_i64` of an optional value.
pub fn json_i64(j: Option<&Json>) -> (r: Option<i64>)
    ensures
        match j {
            Some(v) => r == as_i64(Some(*v)),
            None => r is None,
        },
{
    match j {
        Some(Json::Number(n)) => n.as_i64,
        _ => None,
    }
}

/// `as_u64` of an optional value.
pub fn json_u64(j: Option<&Json>) -> (r: Option<u64>)
    ensures
        match j {
            Some(v) => r == as_u64(Some(*v)),
            None => r is None,
        },
{
    match j {
        Some(Json::Number(n)) => n.as_u64,
        _ => None,
    }
}

/// The text of a number value.
pub fn json_number_text(j: Option<&Json>) -> (r: Option<String>)
    ensures
        match j {
            Some(v) => match r {
                Some(t) => number_text(Some(*v)) == Some(t@),
                None => number_text(Some(*v)) is None,
            },
            None => r is None,
        },
{
    match j {
        Some(Json::Number(n)) => Some(n.text.clone()),
        _ => None,
    }
}

/// The items of an array value.
pub fn json_array<'a>(j: Option<&'a Json>) -> (r: Option<&'a Vec<Json>>)
    ensures
        match j {
            Some(v) => match r {
                Some(items) => as_array(Some(*v)) == Some(items@),
                None => as_array(Some(*v)) is None,
            },
            None => r is None,
        },
{
    match j {
        Some(Json::Array(items)) => Some(items),
        _ => None,
    }
}

/// Element `i` of an array value.
pub fn json_at<'a>(j: Option<&'a Json>, i: usize) -> (r: Option<&'a Json>)
    ensures
        match j {
            Some(v) => match r {
                Some(x) => at(Some(*v), i as int) == Some(*x),
                None => at(Some(*v), i as int) is None,
            },
            None => r is None,
        },
{
    match j {
        Some(Json::Array(items)) => {
            if i < items.len() {
                Some(&items[i])
            } else {
                None
            }
        },
        _ => None,
    }
}

} // verus!

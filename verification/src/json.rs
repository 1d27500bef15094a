//! The parts of a JSON object that the library reads, held as plain values:
//! each entry's value is a string, an unsigned integer, or something else.
use vstd::prelude::*;
use crate::text::{chars_equal, to_chars};

verus! {

/// What is read of a JSON value: its text when it is a string, its number when
/// it is a non-negative integer that fits in `u64`, nothing otherwise.
#[derive(Debug, Clone)]
pub enum JsonScalar {
    Text(String),
    Unsigned(u64),
    Other,
}

/// The entries of a JSON object, in order; a value that is not an object has none.
#[derive(Debug, Clone)]
pub struct JsonObject {
    pub entries: Vec<(String, JsonScalar)>,
}

/// The value of the first entry from `i` on whose key is `key`.
pub open spec fn json_field_from(entries: Seq<(String, JsonScalar)>, key: Seq<char>, i: int) -> Option<JsonScalar>
    decreases entries.len() - i,
{
    if i < 0 || i >= entries.len() {
        None
    } else if entries[i].0@ == key {
        Some(entries[i].1)
    } else {
        json_field_from(entries, key, i + 1)
    }
}

/// The value under `key` (`Value::get`).
pub open spec fn json_field(object: JsonObject, key: Seq<char>) -> Option<JsonScalar> {
    json_field_from(object.entries@, key, 0)
}

/// The value under `key` of an object.
pub fn json_field_at<'a>(object: &'a JsonObject, key: &str) -> (r: Option<&'a JsonScalar>)
    ensures
        match json_field(*object, key@) {
            Some(v) => r == Some(&v),
            None => r is None,
        },
{
    let k = to_chars(key);
    let mut i: usize = 0;
    while i < object.entries.len()
        invariant
            i <= object.entries@.len(),
            k@ == key@,
            json_field(*object, key@) == json_field_from(object.entries@, key@, i as int),
        decreases object.entries.len() - i,
    {
        if chars_equal(&to_chars(object.entries[i].0.as_str()), &k) {
            return Some(&object.entries[i].1);
        }
        i = i + 1;
    }
    None
}

/// The text under `key`, when it is a string (`get` then `as_str`).
pub open spec fn json_text(object: JsonObject, key: Seq<char>) -> Option<Seq<char>> {
    match json_field(object, key) {
        Some(JsonScalar::Text(s)) => Some(s@),
        _ => None,
    }
}

/// The number under `key`, when it is an unsigned integer (`get` then `as_u64`).
pub open spec fn json_unsigned(object: JsonObject, key: Seq<char>) -> Option<u64> {
    match json_field(object, key) {
        Some(JsonScalar::Unsigned(n)) => Some(n),
        _ => None,
    }
}

} // verus!

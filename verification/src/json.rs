//! A JSON document tree as the library reads it, with the lookups that the
//! API response handlers use.
//!
//! Numbers keep the canonical text that the JSON reader prints for them: a
//! non-negative integer is written with decimal digits only, a negative one
//! with a leading `-`, and any other number with a `.` or an exponent.

use vstd::prelude::*;
use crate::text::{all_digits, chars_of, digits_value, is_digit, parse_u64, str_eq};

verus! {

/// A JSON number, held as its canonical text.
pub struct JsonNumber {
    pub repr: String,
}

/// A JSON value. Object members keep their order; keys are unique.
pub enum JsonValue {
    Null,
    Bool(bool),
    Number(JsonNumber),
    Str(String),
    Array(Vec<JsonValue>),
    Object(Vec<(String, JsonValue)>),
}

// ---------------------------------------------------------------------------
// Specifications
// ---------------------------------------------------------------------------

/// The value of the first member of `fields` named `key`.
pub open spec fn field_of(fields: Seq<(String, JsonValue)>, key: Seq<char>) -> Option<JsonValue>
    decreases fields.len(),
{
    if fields.len() == 0 {
        None
    } else if fields[0].0@ == key {
        Some(fields[0].1)
    } else {
        field_of(fields.drop_first(), key)
    }
}

/// `v[key]` when `v` is an object that has the member (`Value::get`).
pub open spec fn jget(v: JsonValue, key: Seq<char>) -> Option<JsonValue> {
    match v {
        JsonValue::Object(fields) => field_of(fields@, key),
        _ => None,
    }
}

/// `jget` lifted to an optional value (`Option::and_then(|v| v.get(key))`).
pub open spec fn jget_opt(v: Option<JsonValue>, key: Seq<char>) -> Option<JsonValue> {
    match v {
        Some(x) => jget(x, key),
        None => None,
    }
}

/// The text of a string value (`Value::as_str`).
pub open spec fn jstr(v: Option<JsonValue>) -> Option<Seq<char>> {
    match v {
        Some(JsonValue::Str(s)) => Some(s@),
        _ => None,
    }
}

/// The elements of an array value (`Value::as_array`).
pub open spec fn jarray(v: Option<JsonValue>) -> Option<Seq<JsonValue>> {
    match v {
        Some(JsonValue::Array(items)) => Some(items@),
        _ => None,
    }
}

/// A boolean value (`Value::as_bool`).
pub open spec fn jbool(v: Option<JsonValue>) -> Option<bool> {
    match v {
        Some(JsonValue::Bool(b)) => Some(b),
        _ => None,
    }
}

/// The integer that a canonical number text denotes, when it is a
/// non-negative integer that fits in 64 bits.
pub open spec fn number_u64(repr: Seq<char>) -> Option<u64> {
    if repr.len() > 0 && all_digits(repr) && digits_value(repr) <= u64::MAX {
        Some(digits_value(repr) as u64)
    } else {
        None
    }
}

/// A non-negative integer value (`Value::as_u64`).
pub open spec fn ju64(v: Option<JsonValue>) -> Option<u64> {
    match v {
        Some(JsonValue::Number(n)) => number_u64(n.repr@),
        _ => None,
    }
}

/// An array value's elements, or an object value as a one-element list, or
/// nothing. Some APIs send a single object where a list is expected.
pub open spec fn array_or_single(v: Option<JsonValue>) -> Seq<JsonValue> {
    match v {
        Some(JsonValue::Array(items)) => items@,
        Some(JsonValue::Object(fields)) => seq![JsonValue::Object(fields)],
        _ => seq![],
    }
}

pub open spec fn deref_opt(r: Option<&JsonValue>) -> Option<JsonValue> {
    match r {
        Some(x) => Some(*x),
        None => None,
    }
}

pub open spec fn deref_all(s: Seq<&JsonValue>) -> Seq<JsonValue> {
    s.map_values(|r: &JsonValue| *r)
}

// ---------------------------------------------------------------------------
// Executable lookups
// ---------------------------------------------------------------------------

/// The value of the first member of `fields` named `key`.
pub fn find_field<'a>(fields: &'a Vec<(String, JsonValue)>, key: &str) -> (r: Option<&'a JsonValue>)
    ensures
        deref_opt(r) == field_of(fields@, key@),
{
    let mut i: usize = 0;
    assert(fields@.skip(0) =~= fields@);
    while i < fields.len()
        invariant
            i <= fields@.len(),
            field_of(fields@, key@) == field_of(fields@.skip(i as int), key@),
        decreases fields@.len() - i,
    {
        assert(fields@.skip(i as int)[0] == fields@[i as int]);
        if str_eq(fields[i].0.as_str(), key) {
            return Some(&fields[i].1);
        }
        assert(fields@.skip(i as int).drop_first() =~= fields@.skip(i + 1));
        i = i + 1;
    }
    None
}

impl JsonValue {
    /// `v[key]` when `v` is an object with that member.
    pub fn get(&self, key: &str) -> (r: Option<&JsonValue>)
        ensures
            deref_opt(r) == jget(*self, key@),
    {
        match self {
            JsonValue::Object(fields) => {
                assert(fields@.skip(0) =~= fields@);
                find_field(fields, key)
            },
            _ => None,
        }
    }

    /// The text of a string value.
    pub fn as_str(&self) -> (r: Option<&str>)
        ensures
            match r {
                Some(s) => jstr(Some(*self)) == Some(s@),
                None => jstr(Some(*self)) is None,
            },
    {
        match self {
            JsonValue::Str(s) => Some(s.as_str()),
            _ => None,
        }
    }

    /// The elements of an array value.
    pub fn as_array(&self) -> (r: Option<&Vec<JsonValue>>)
        ensures
            match r {
                Some(items) => jarray(Some(*self)) == Some(items@),
                None => jarray(Some(*self)) is None,
            },
    {
        match self {
            JsonValue::Array(items) => Some(items),
            _ => None,
        }
    }

    /// A boolean value.
    pub fn as_bool(&self) -> (r: Option<bool>)
        ensures
            r == jbool(Some(*self)),
    {
        match self {
            JsonValue::Bool(b) => Some(*b),
            _ => None,
        }
    }

    /// A non-negative integer value that fits in 64 bits.
    pub fn as_u64(&self) -> (r: Option<u64>)
        ensures
            r == ju64(Some(*self)),
    {
        match self {
            JsonValue::Number(n) => number_as_u64(n.repr.as_str()),
            _ => None,
        }
    }
}

/// The integer denoted by a canonical number text (see `number_u64`).
pub fn number_as_u64(repr: &str) -> (r: Option<u64>)
    ensures
        r == number_u64(repr@),
{
    let cs = chars_of(repr);
    if cs.len() > 0 && cs[0] == '+' {
        assert(!all_digits(repr@) && !is_digit(repr@[0]));
        return None;
    }
    parse_u64(repr)
}

/// `v.and_then(|x| x.get(key))`.
pub fn get_opt<'a>(v: Option<&'a JsonValue>, key: &str) -> (r: Option<&'a JsonValue>)
    ensures
        deref_opt(r) == jget_opt(deref_opt(v), key@),
{
    match v {
        Some(x) => x.get(key),
        None => None,
    }
}

/// `v.and_then(|x| x.as_str())`.
pub fn str_opt<'a>(v: Option<&'a JsonValue>) -> (r: Option<&'a str>)
    ensures
        match r {
            Some(s) => jstr(deref_opt(v)) == Some(s@),
            None => jstr(deref_opt(v)) is None,
        },
{
    match v {
        Some(x) => x.as_str(),
        None => None,
    }
}

/// `v.and_then(|x| x.as_array())`.
pub fn array_opt<'a>(v: Option<&'a JsonValue>) -> (r: Option<&'a Vec<JsonValue>>)
    ensures
        match r {
            Some(items) => jarray(deref_opt(v)) == Some(items@),
            None => jarray(deref_opt(v)) is None,
        },
{
    match v {
        Some(x) => x.as_array(),
        None => None,
    }
}

/// `v.and_then(|x| x.as_u64())`.
pub fn u64_opt(v: Option<&JsonValue>) -> (r: Option<u64>)
    ensures
        r == ju64(deref_opt(v)),
{
    match v {
        Some(x) => x.as_u64(),
        None => None,
    }
}

/// `v.and_then(|x| x.as_bool())`.
pub fn bool_opt(v: Option<&JsonValue>) -> (r: Option<bool>)
    ensures
        r == jbool(deref_opt(v)),
{
    match v {
        Some(x) => x.as_bool(),
        None => None,
    }
}

/// The text of a number value, whatever its kind (what `Value::as_f64`
/// accepts).
pub open spec fn jnumber_text(v: Option<JsonValue>) -> Option<Seq<char>> {
    match v {
        Some(JsonValue::Number(n)) => Some(n.repr@),
        _ => None,
    }
}

pub open spec fn number_view(n: Option<JsonNumber>) -> Option<Seq<char>> {
    match n {
        Some(x) => Some(x.repr@),
        None => None,
    }
}

/// A copy of a number value, whatever its kind.
pub fn number_opt(v: Option<&JsonValue>) -> (r: Option<JsonNumber>)
    ensures
        number_view(r) == jnumber_text(deref_opt(v)),
{
    match v {
        Some(JsonValue::Number(n)) => Some(JsonNumber { repr: n.repr.clone() }),
        _ => None,
    }
}

/// The integer at `key` of `v`, or `default` (`v.get(key).and_then(as_u64).unwrap_or(default)`).
pub fn u64_member_or(v: &JsonValue, key: &str, default: u64) -> (r: u64)
    ensures
        r == match ju64(jget(*v, key@)) {
            Some(n) => n,
            None => default,
        },
{
    match u64_opt(v.get(key)) {
        Some(n) => n,
        None => default,
    }
}

/// The elements of `v` when it is an array, else none
/// (`v.as_array().unwrap_or(&Vec::new())`).
pub open spec fn elements(v: JsonValue) -> Seq<JsonValue> {
    match jarray(Some(v)) {
        Some(items) => items,
        None => seq![],
    }
}

/// The string member `key` of `v`, or the empty string.
pub open spec fn str_member(v: JsonValue, key: Seq<char>) -> Seq<char> {
    match jstr(jget(v, key)) {
        Some(s) => s,
        None => seq![],
    }
}

/// The string member `key` of `v`, or the empty string
/// (`v.get(key).and_then(Value::as_str).unwrap_or("")`).
pub fn str_member_of(v: &JsonValue, key: &str) -> (r: String)
    ensures
        r@ == str_member(*v, key@),
{
    match str_opt(v.get(key)) {
        Some(s) => String::from_str(s),
        None => String::new(),
    }
}

/// The elements of an array, or a single object as a one-element list, or
/// nothing.
pub fn as_array_or_single<'a>(v: Option<&'a JsonValue>) -> (r: Vec<&'a JsonValue>)
    ensures
        deref_all(r@) == array_or_single(deref_opt(v)),
{
    match v {
        Some(JsonValue::Array(items)) => {
            let mut r: Vec<&JsonValue> = Vec::new();
            let mut i: usize = 0;
            while i < items.len()
                invariant
                    i <= items@.len(),
                    deref_all(r@) == items@.take(i as int),
                decreases items@.len() - i,
            {
                let ghost before = r@;
                r.push(&items[i]);
                assert(r@ == before.push(&items[i as int]));
                assert(deref_all(r@) =~= deref_all(before).push(items@[i as int]));
                i = i + 1;
                assert(items@.take(i as int) =~= items@.take(i - 1).push(items@[i - 1]));
            }
            assert(items@.take(items@.len() as int) =~= items@);
            r
        },
        Some(x) => {
            match x {
                JsonValue::Object(_) => {
                    let r = vec![x];
                    assert(deref_all(r@) =~= seq![*x]);
                    r
                },
                _ => Vec::new(),
            }
        },
        None => Vec::new(),
    }
}

} // verus!

//! What `serde_json` reads in a JSON text, one question per call, and the
//! reading of records from those answers: a record field of type
//! `Option<String>`, `Option<usize>` or `Option<f64>`, and a record read
//! from an object or from an array in field order, as a derived `Deserialize`
//! reads them.

use crate::text::opt_view;
use vstd::prelude::*;

verus! {

/// The kind of a JSON value.
#[derive(Debug, Clone, Copy, PartialEq, Eq, Structural)]
pub enum JsonKind {
    Null,
    Bool,
    Number,
    Text,
    List,
    Object,
}

// ---------------------------------------------------------------------
// What serde_json reads
// ---------------------------------------------------------------------

/// Whether `serde_json` parses the text as a JSON value.
pub uninterp spec fn json_parses(s: Seq<char>) -> bool;

/// The kind of the value the text parses to, if it parses.
pub uninterp spec fn json_kind(s: Seq<char>) -> Option<JsonKind>;

/// The keys of the parsed value, in the map's order, when it is an object.
pub uninterp spec fn json_object_keys(s: Seq<char>) -> Option<Seq<Seq<char>>>;

/// The length of the parsed value when it is an array.
pub uninterp spec fn json_array_len(s: Seq<char>) -> Option<usize>;

/// Whether the parsed value is an object with member `key`.
pub uninterp spec fn json_has_member(s: Seq<char>, key: Seq<char>) -> bool;

/// The length of member `key` of the parsed value when it is an array.
pub uninterp spec fn json_member_array_len(s: Seq<char>, key: Seq<char>) -> Option<usize>;

/// The compact JSON text of member `key` of the parsed value, when it is an
/// object with that member.
pub uninterp spec fn json_member_text(s: Seq<char>, key: Seq<char>) -> Option<Seq<char>>;

/// The compact JSON text of element `i` of the parsed value, when it is an
/// array that long.
pub uninterp spec fn json_element_text(s: Seq<char>, i: usize) -> Option<Seq<char>>;

/// The contents of the parsed value when it is a string.
pub uninterp spec fn json_string(s: Seq<char>) -> Option<Seq<char>>;

/// The parsed value as a `u64`, when it is a number that is one.
pub uninterp spec fn json_u64(s: Seq<char>) -> Option<u64>;

/// The contents of an optional list of strings.
pub open spec fn opt_strings(o: Option<Vec<String>>) -> Option<Seq<Seq<char>>> {
    match o {
        Some(v) => Some(Seq::new(v.len() as nat, |i: int| v@[i]@)),
        None => None,
    }
}

/// `serde_json::from_str::<Value>` succeeds on the text.
#[verifier::external_body]
pub(crate) fn json_valid(s: &str) -> (r: bool)
    ensures
        r == json_parses(s@),
{
    serde_json::from_str::<serde_json::Value>(s).is_ok()
}

/// `serde_json::from_str::<Value>`, then the variant of the value.
#[verifier::external_body]
pub(crate) fn json_kind_of(s: &str) -> (r: Option<JsonKind>)
    ensures
        r == json_kind(s@),
{
    match serde_json::from_str::<serde_json::Value>(s) {
        Ok(serde_json::Value::Null) => Some(JsonKind::Null),
        Ok(serde_json::Value::Bool(_)) => Some(JsonKind::Bool),
        Ok(serde_json::Value::Number(_)) => Some(JsonKind::Number),
        Ok(serde_json::Value::String(_)) => Some(JsonKind::Text),
        Ok(serde_json::Value::Array(_)) => Some(JsonKind::List),
        Ok(serde_json::Value::Object(_)) => Some(JsonKind::Object),
        Err(_) => None,
    }
}

/// The keys of the parsed value (`Value::as_object`, `Map::keys`).
#[verifier::external_body]
pub(crate) fn json_keys(s: &str) -> (r: Option<Vec<String>>)
    ensures
        opt_strings(r) == json_object_keys(s@),
{
    let v = serde_json::from_str::<serde_json::Value>(s).ok()?;
    Some(v.as_object()?.keys().cloned().collect())
}

/// The length of the parsed array (`Value::as_array`).
#[verifier::external_body]
pub(crate) fn json_len(s: &str) -> (r: Option<usize>)
    ensures
        r == json_array_len(s@),
{
    let v = serde_json::from_str::<serde_json::Value>(s).ok()?;
    Some(v.as_array()?.len())
}

/// Whether the parsed value has member `key` (`Value::get`).
#[verifier::external_body]
pub(crate) fn json_has(s: &str, key: &str) -> (r: bool)
    ensures
        r == json_has_member(s@, key@),
{
    match serde_json::from_str::<serde_json::Value>(s) {
        Ok(v) => v.get(key).is_some(),
        Err(_) => false,
    }
}

/// The length of member `key` when it is an array (`Value::get`,
/// `Value::as_array`).
#[verifier::external_body]
pub(crate) fn json_member_len(s: &str, key: &str) -> (r: Option<usize>)
    ensures
        r == json_member_array_len(s@, key@),
{
    let v = serde_json::from_str::<serde_json::Value>(s).ok()?;
    Some(v.get(key)?.as_array()?.len())
}

/// Member `key` of the parsed value as compact JSON text (`Value::get`,
/// `Display`).
#[verifier::external_body]
pub(crate) fn json_member(s: &str, key: &str) -> (r: Option<String>)
    ensures
        opt_view(r) == json_member_text(s@, key@),
{
    let v = serde_json::from_str::<serde_json::Value>(s).ok()?;
    Some(v.get(key)?.to_string())
}

/// Element `i` of the parsed value as compact JSON text (`Value::get` with an
/// index, `Display`).
#[verifier::external_body]
pub(crate) fn json_element(s: &str, i: usize) -> (r: Option<String>)
    ensures
        opt_view(r) == json_element_text(s@, i),
{
    let v = serde_json::from_str::<serde_json::Value>(s).ok()?;
    Some(v.get(i)?.to_string())
}

/// The parsed value's contents when it is a string (`Value::as_str`); there
/// is one exactly when the value is a string.
#[verifier::external_body]
pub(crate) fn json_str(s: &str) -> (r: Option<String>)
    ensures
        opt_view(r) == json_string(s@),
        r.is_some() <==> json_kind(s@) == Some(JsonKind::Text),
{
    let v = serde_json::from_str::<serde_json::Value>(s).ok()?;
    Some(v.as_str()?.to_string())
}

/// The parsed value as a `u64` (`Value::as_u64`).
#[verifier::external_body]
pub(crate) fn json_u64_of(s: &str) -> (r: Option<u64>)
    ensures
        r == json_u64(s@),
{
    let v = serde_json::from_str::<serde_json::Value>(s).ok()?;
    v.as_u64()
}

// ---------------------------------------------------------------------
// Record fields
// ---------------------------------------------------------------------

/// A field of type `Option<String>` reads: absent, `null`, or a string.
pub open spec fn string_field_ok(t: Option<Seq<char>>) -> bool {
    match t {
        Some(x) => json_kind(x) == Some(JsonKind::Null) || json_kind(x) == Some(JsonKind::Text),
        None => true,
    }
}

/// The value of a field of type `Option<String>`.
pub open spec fn string_field(t: Option<Seq<char>>) -> Option<Seq<char>> {
    match t {
        Some(x) => if json_kind(x) == Some(JsonKind::Text) {
            json_string(x)
        } else {
            None
        },
        None => None,
    }
}

/// A field of type `Option<f64>` reads: absent, `null`, or a number.
pub open spec fn number_field_ok(t: Option<Seq<char>>) -> bool {
    match t {
        Some(x) => json_kind(x) == Some(JsonKind::Null) || json_kind(x) == Some(JsonKind::Number),
        None => true,
    }
}

/// A field of type `Option<usize>` reads: absent, `null`, or a number that
/// is a `u64` within `usize`.
pub open spec fn usize_field_ok(t: Option<Seq<char>>) -> bool {
    match t {
        Some(x) => json_kind(x) == Some(JsonKind::Null) || (json_kind(x) == Some(JsonKind::Number)
            && (match json_u64(x) {
            Some(v) => v <= usize::MAX,
            None => false,
        })),
        None => true,
    }
}

/// The text of field `key`, at position `index`, of a record read from `s`:
/// the member of an object, or the element of an array.
pub open spec fn record_field(s: Seq<char>, object: bool, key: Seq<char>, index: usize) -> Option<Seq<char>> {
    if object {
        json_member_text(s, key)
    } else {
        json_element_text(s, index)
    }
}

/// How a record with `n` fields reads from `s`: `Some(true)` from an object,
/// `Some(false)` from an array of exactly `n` elements, else not at all.
pub open spec fn record_shape(s: Seq<char>, n: usize) -> Option<bool> {
    if json_kind(s) == Some(JsonKind::Object) {
        Some(true)
    } else if json_kind(s) == Some(JsonKind::List) && json_array_len(s) == Some(n) {
        Some(false)
    } else {
        None
    }
}

/// Whether `string_field_ok` holds (see there).
pub fn string_field_ok_exec(t: &Option<String>) -> (r: bool)
    ensures
        r == string_field_ok(opt_view(*t)),
{
    match t {
        Some(x) => match json_kind_of(x.as_str()) {
            Some(JsonKind::Null) | Some(JsonKind::Text) => true,
            _ => false,
        },
        None => true,
    }
}

/// The value of a field of type `Option<String>` (see `string_field`).
pub fn string_field_exec(t: &Option<String>) -> (r: Option<String>)
    ensures
        opt_view(r) == string_field(opt_view(*t)),
{
    match t {
        Some(x) => match json_kind_of(x.as_str()) {
            Some(JsonKind::Text) => json_str(x.as_str()),
            _ => None,
        },
        None => None,
    }
}

/// Whether `number_field_ok` holds (see there).
pub fn number_field_ok_exec(t: &Option<String>) -> (r: bool)
    ensures
        r == number_field_ok(opt_view(*t)),
{
    match t {
        Some(x) => match json_kind_of(x.as_str()) {
            Some(JsonKind::Null) | Some(JsonKind::Number) => true,
            _ => false,
        },
        None => true,
    }
}

/// Whether `usize_field_ok` holds (see there).
pub fn usize_field_ok_exec(t: &Option<String>) -> (r: bool)
    ensures
        r == usize_field_ok(opt_view(*t)),
{
    match t {
        Some(x) => match json_kind_of(x.as_str()) {
            Some(JsonKind::Null) => true,
            Some(JsonKind::Number) => match json_u64_of(x.as_str()) {
                Some(v) => v as u128 <= usize::MAX as u128,
                None => false,
            },
            _ => false,
        },
        None => true,
    }
}

/// The shape a record with `n` fields reads from (see `record_shape`).
pub fn record_shape_exec(s: &str, n: usize) -> (r: Option<bool>)
    ensures
        r == record_shape(s@, n),
{
    match json_kind_of(s) {
        Some(JsonKind::Object) => Some(true),
        Some(JsonKind::List) => match json_len(s) {
            Some(m) => if m == n {
                Some(false)
            } else {
                None
            },
            None => None,
        },
        _ => None,
    }
}

/// The text of a record field (see `record_field`).
pub fn record_field_exec(s: &str, object: bool, key: &str, index: usize) -> (r: Option<String>)
    ensures
        opt_view(r) == record_field(s@, object, key@, index),
{
    if object {
        json_member(s, key)
    } else {
        json_element(s, index)
    }
}

} // verus!

//! What comes from other crates: JSON values, fresh ids and the home directory.
//!
//! The contracts here are not proved. Each states what the crate's own source
//! and documentation say of the function it names.

use vstd::prelude::*;

verus! {

/// A JSON value as `serde_json` holds it.
#[verifier::external_type_specification]
#[verifier::external_body]
pub struct ExJsonValue(serde_json::Value);

/// A JSON number as `serde_json` holds it.
#[verifier::external_type_specification]
#[verifier::external_body]
pub struct ExJsonNumber(serde_json::Number);

/// What `serde_json` reports of a text that it cannot read.
#[verifier::external_type_specification]
#[verifier::external_body]
pub struct ExJsonError(serde_json::Error);

/// What a JSON value holds.
pub enum JsonView {
    Null,
    Bool(bool),
    Number(serde_json::Number),
    Text(Seq<char>),
    Array(Seq<JsonView>),
    Object(Map<Seq<char>, JsonView>),
}

/// What the value `v` holds.
pub uninterp spec fn json_view(v: serde_json::Value) -> JsonView;

/// The unsigned number that `n` is, if it is one.
pub uninterp spec fn number_as_u64(n: serde_json::Number) -> Option<u64>;

/// The value that the text `s` writes down, if it writes down one.
pub uninterp spec fn json_read(s: Seq<char>) -> Option<JsonView>;

/// The text that writes `j` down, if it can be written down.
pub uninterp spec fn json_written(j: JsonView) -> Option<Seq<char>>;

/// What each value of `s` holds.
pub open spec fn json_views(s: Seq<serde_json::Value>) -> Seq<JsonView> {
    s.map_values(|v: serde_json::Value| json_view(v))
}

/// `serde_json::from_str`: whether the text is read, and as what, depends on
/// the text alone.
#[verifier::external_body]
pub(crate) fn read_json(content: &str) -> (r: Result<serde_json::Value, serde_json::Error>)
    ensures
        match r {
            Ok(v) => json_read(content@) == Some(json_view(v)),
            Err(_) => json_read(content@) is None,
        },
{
    serde_json::from_str(content)
}

/// `serde_json::to_string`: whether the value is written, and how, depends on
/// what it holds alone.
#[verifier::external_body]
pub(crate) fn write_json(v: &serde_json::Value) -> (r: Result<String, serde_json::Error>)
    ensures
        match r {
            Ok(s) => json_written(json_view(*v)) == Some(s@),
            Err(_) => json_written(json_view(*v)) is None,
        },
{
    serde_json::to_string(v)
}

/// `serde_json::Value::is_object`: whether the value is an object.
#[verifier::external_body]
pub(crate) fn is_object(v: &serde_json::Value) -> (r: bool)
    ensures
        r == (json_view(*v) is Object),
{
    v.is_object()
}

/// `serde_json::Value::as_bool`: the truth value that the value is, if it is
/// one.
#[verifier::external_body]
pub(crate) fn as_bool(v: &serde_json::Value) -> (r: Option<bool>)
    ensures
        r == match json_view(*v) {
            JsonView::Bool(b) => Some(b),
            _ => None,
        },
{
    v.as_bool()
}

/// `serde_json::Value::as_u64`: the unsigned number that the value is, if it is
/// one.
#[verifier::external_body]
pub(crate) fn as_u64(v: &serde_json::Value) -> (r: Option<u64>)
    ensures
        r == match json_view(*v) {
            JsonView::Number(n) => number_as_u64(n),
            _ => None,
        },
{
    v.as_u64()
}

/// `serde_json::Value::as_str`: the text that the value is, if it is one.
#[verifier::external_body]
pub(crate) fn as_str(v: &serde_json::Value) -> (r: Option<&str>)
    ensures
        match r {
            Some(s) => json_view(*v) == JsonView::Text(s@),
            None => !(json_view(*v) is Text),
        },
{
    v.as_str()
}

/// `serde_json::Value::get` with a string: what the object holds under `key`;
/// nothing where the value is no object or holds nothing there.
#[verifier::external_body]
pub(crate) fn member<'a>(v: &'a serde_json::Value, key: &str) -> (r: Option<&'a serde_json::Value>)
    ensures
        match r {
            Some(x) => match json_view(*v) {
                JsonView::Object(m) => m.contains_key(key@) && m[key@] == json_view(*x),
                _ => false,
            },
            None => match json_view(*v) {
                JsonView::Object(m) => !m.contains_key(key@),
                _ => true,
            },
        },
{
    v.get(key)
}

/// `serde_json::Map::remove` on the value's map: takes out what the object
/// holds under `key`. A value that is no object is left alone.
#[verifier::external_body]
pub(crate) fn remove_member(v: &mut serde_json::Value, key: &str) -> (r: Option<serde_json::Value>)
    ensures
        match json_view(*old(v)) {
            JsonView::Object(m) => {
                &&& json_view(*final(v)) == JsonView::Object(m.remove(key@))
                &&& match r {
                    Some(x) => m.contains_key(key@) && m[key@] == json_view(x),
                    None => !m.contains_key(key@),
                }
            },
            _ => *final(v) == *old(v) && r is None,
        },
{
    match v {
        serde_json::Value::Object(m) => m.remove(key),
        _ => None,
    }
}

/// `serde_json::Map::insert` on the value's map: puts `x` under `key`, in place
/// of what was there. A value that is no object is left alone.
#[verifier::external_body]
pub(crate) fn insert_member(v: &mut serde_json::Value, key: String, x: serde_json::Value)
    ensures
        match json_view(*old(v)) {
            JsonView::Object(m) => json_view(*final(v)) == JsonView::Object(
                m.insert(key@, json_view(x)),
            ),
            _ => *final(v) == *old(v),
        },
{
    if let serde_json::Value::Object(m) = v {
        m.insert(key, x);
    }
}

/// `serde_json::Value::Array` and the other variants: the elements of an array,
/// or the value itself where it is none.
#[verifier::external_body]
pub(crate) fn into_array(v: serde_json::Value) -> (r: Result<
    Vec<serde_json::Value>,
    serde_json::Value,
>)
    ensures
        match r {
            Ok(a) => json_view(v) == JsonView::Array(json_views(a@)),
            Err(x) => x == v && !(json_view(v) is Array),
        },
{
    match v {
        serde_json::Value::Array(a) => Ok(a),
        other => Err(other),
    }
}

/// `serde_json::Value::Array`: an array with the elements `a`.
#[verifier::external_body]
pub(crate) fn array_value(a: Vec<serde_json::Value>) -> (r: serde_json::Value)
    ensures
        json_view(r) == JsonView::Array(json_views(a@)),
{
    serde_json::Value::Array(a)
}

/// `serde_json::Map::new` in a `serde_json::Value::Object`: an object without
/// members.
#[verifier::external_body]
pub(crate) fn empty_object() -> (r: serde_json::Value)
    ensures
        json_view(r) == JsonView::Object(Map::<Seq<char>, JsonView>::empty()),
{
    serde_json::Value::Object(serde_json::Map::new())
}

/// `serde_json::Value::String`: the text `s`.
#[verifier::external_body]
pub(crate) fn text_value(s: String) -> (r: serde_json::Value)
    ensures
        json_view(r) == JsonView::Text(s@),
{
    serde_json::Value::String(s)
}

/// `serde_json::Value::Bool`: the truth value `b`.
#[verifier::external_body]
pub(crate) fn bool_value(b: bool) -> (r: serde_json::Value)
    ensures
        json_view(r) == JsonView::Bool(b),
{
    serde_json::Value::Bool(b)
}

/// Whether `c` is a digit of a number written in base sixteen with small
/// letters.
pub open spec fn small_hex(c: char) -> bool {
    '0' <= c <= '9' || 'a' <= c <= 'f'
}

/// Whether `s` is written as a random id is: groups of digits with hyphens
/// between them, and the marks of its version and variant.
pub open spec fn random_id(s: Seq<char>) -> bool {
    &&& s.len() == 36
    &&& s[8] == '-' && s[13] == '-' && s[18] == '-' && s[23] == '-'
    &&& forall|i: int|
        0 <= i < 36 && i != 8 && i != 13 && i != 18 && i != 23 ==> small_hex(#[trigger] s[i])
    &&& s[14] == '4'
    &&& s[19] == '8' || s[19] == '9' || s[19] == 'a' || s[19] == 'b'
}

/// The number that a hexadecimal digit writes.
pub open spec fn hex_digit(c: char) -> nat {
    if '0' <= c <= '9' {
        (c as nat - '0' as nat) as nat
    } else {
        (c as nat - 'a' as nat + 10) as nat
    }
}

/// The number that the hexadecimal digits `s` write.
pub open spec fn hex_written(s: Seq<char>) -> nat
    decreases s.len(),
{
    if s.len() == 0 {
        0
    } else {
        hex_written(s.drop_last()) * 16 + hex_digit(s.last())
    }
}

/// The digits of a random id, without the hyphens.
pub open spec fn id_digits(s: Seq<char>) -> Seq<char> {
    s.take(8) + s.subrange(9, 13) + s.subrange(14, 18) + s.subrange(19, 23) + s.skip(24)
}

/// `uuid::Uuid::new_v4`: an id that chance makes differ from every other,
/// written with hyphens and as the number that its digits write. Only its form
/// is stated. The call panics where the system has no random numbers to give.
#[verifier::external_body]
pub(crate) fn fresh_uuid() -> (r: (String, u128))
    ensures
        random_id(r.0@),
        r.1 == hex_written(id_digits(r.0@)),
{
    let id = uuid::Uuid::new_v4();
    (id.to_string(), id.as_u128())
}

/// A random id.
pub fn fresh_id() -> (r: String)
    ensures
        random_id(r@),
{
    fresh_uuid().0
}

/// `dirs::home_dir`: the user's home directory, where the system knows one.
/// What it is depends on the system, so nothing is stated of it.
#[verifier::external_body]
pub(crate) fn home_dir() -> (r: Option<String>) {
    match dirs::home_dir() {
        Some(p) => Some(p.to_string_lossy().into_owned()),
        None => None,
    }
}

} // verus!

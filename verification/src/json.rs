//! JSON documents. The values themselves are `serde_json::Value`; this module
//! gives them a mathematical reading, [`Json`], and says over it what each
//! call into `serde_json` does.

use serde_json::Value;
use vstd::prelude::*;
use vstd::string::*;

use crate::text::{decimal, opt_text, signed_decimal, texts};

verus! {

/// What a JSON document says. A number is known by the way it is written.
pub enum Json {
    Null,
    Bool(bool),
    Number(Seq<char>),
    Str(Seq<char>),
    Array(Seq<Json>),
    Object(Map<Seq<char>, Json>),
}

/// `serde_json::Value`, opaque here.
#[verifier::external_type_specification]
#[verifier::external_body]
pub struct ExValue(serde_json::Value);

/// What a `serde_json::Value` holds: its tree of members and items.
pub uninterp spec fn json_of(v: serde_json::Value) -> Json;

/// The document that `serde_json::from_str` reads from a text, if it reads one.
pub uninterp spec fn parsed_json(text: Seq<char>) -> Option<Json>;

/// The text that `serde_json::to_string_pretty` makes of a document, if it
/// makes one.
pub uninterp spec fn pretty_json(doc: Json) -> Option<Seq<char>>;

/// The text that `serde_json::Value::to_string` makes of a document.
pub uninterp spec fn compact_json(doc: Json) -> Seq<char>;

/// The documents of a row of values.
pub open spec fn docs(values: Seq<serde_json::Value>) -> Seq<Json> {
    values.map_values(|v: serde_json::Value| json_of(v))
}

/// The member `key` of an object; nothing else has members.
pub open spec fn member(doc: Json, key: Seq<char>) -> Option<Json> {
    match doc {
        Json::Object(m) => if m.contains_key(key) {
            Some(m[key])
        } else {
            None
        },
        _ => None,
    }
}

/// The text of a string; nothing else has one.
pub open spec fn text_of(doc: Json) -> Option<Seq<char>> {
    match doc {
        Json::Str(s) => Some(s),
        _ => None,
    }
}

/// The member `key`, read as a string.
pub open spec fn text_member(doc: Json, key: Seq<char>) -> Option<Seq<char>> {
    match member(doc, key) {
        Some(d) => text_of(d),
        None => None,
    }
}

/// The object without members.
pub open spec fn obj() -> Json {
    Json::Object(Map::empty())
}

/// The object `doc` with the member `key` set.
pub open spec fn having(doc: Json, key: Seq<char>, v: Json) -> Json {
    Json::Object(doc->Object_0.insert(key, v))
}

/// A row of strings.
pub open spec fn strs(items: Seq<Seq<char>>) -> Seq<Json> {
    items.map_values(|s: Seq<char>| Json::Str(s))
}

/// A string, or null where there is none.
pub open spec fn opt_str(s: Option<Seq<char>>) -> Json {
    match s {
        Some(t) => Json::Str(t),
        None => Json::Null,
    }
}

/// `serde_json::Value::as_str` hands out the text of a JSON string and
/// nothing for any other value.
pub assume_specification[ serde_json::Value::as_str ](v: &serde_json::Value) -> (res: Option<&str>)
    ensures
        match res {
            Some(s) => json_of(*v) == Json::Str(s@),
            None => !(json_of(*v) is Str),
        },
;

/// `serde_json::Value::as_bool` hands out the truth value of a JSON boolean
/// and nothing for any other value.
pub assume_specification[ serde_json::Value::as_bool ](v: &serde_json::Value) -> (res: Option<bool>)
    ensures
        match res {
            Some(b) => json_of(*v) == Json::Bool(b),
            None => !(json_of(*v) is Bool),
        },
;

/// `serde_json::Value::as_u64` hands out an unsigned integer below 2^64, which
/// is written as its decimal digits alone, and nothing for any other value.
pub assume_specification[ serde_json::Value::as_u64 ](v: &serde_json::Value) -> (res: Option<u64>)
    ensures
        match res {
            Some(n) => json_of(*v) == Json::Number(decimal(n as nat)),
            None => forall|n: u64| json_of(*v) != Json::Number(#[trigger] decimal(n as nat)),
        },
;

/// `serde_json::Value::is_number` holds of JSON numbers alone.
pub assume_specification[ serde_json::Value::is_number ](v: &serde_json::Value) -> (res: bool)
    ensures
        res == (json_of(*v) is Number),
;

/// `serde_json::Value::is_null` holds of JSON null alone.
pub assume_specification[ serde_json::Value::is_null ](v: &serde_json::Value) -> (res: bool)
    ensures
        res == (json_of(*v) == Json::Null),
;

/// `serde_json::Value::get` with a string hands out the member of that name of
/// an object, and nothing where there is no such member or no object.
#[verifier::external_body]
pub(crate) fn get<'a>(v: &'a Value, key: &str) -> (res: Option<&'a Value>)
    ensures
        match res {
            Some(w) => member(json_of(*v), key@) == Some(json_of(*w)),
            None => member(json_of(*v), key@) is None,
        },
{
    v.get(key)
}

/// `serde_json::Value::clone` copies the whole document.
#[verifier::external_body]
pub(crate) fn copy(v: &Value) -> (res: Value)
    ensures
        json_of(res) == json_of(*v),
{
    v.clone()
}

/// `serde_json::Value::Null`.
#[verifier::external_body]
pub(crate) fn null() -> (res: Value)
    ensures
        json_of(res) == Json::Null,
{
    Value::Null
}

/// `serde_json::Value::from` a truth value makes a JSON boolean.
#[verifier::external_body]
pub(crate) fn boolean(b: bool) -> (res: Value)
    ensures
        json_of(res) == Json::Bool(b),
{
    Value::from(b)
}

/// `serde_json::Value::from` a `u64` makes a number, written in decimal.
#[verifier::external_body]
pub(crate) fn unsigned(n: u64) -> (res: Value)
    ensures
        json_of(res) == Json::Number(decimal(n as nat)),
{
    Value::from(n)
}

/// `serde_json::Value::from` an `i64` makes a number, written in decimal.
#[verifier::external_body]
pub(crate) fn signed(n: i64) -> (res: Value)
    ensures
        json_of(res) == Json::Number(signed_decimal(n as int)),
{
    Value::from(n)
}

/// `serde_json::Value::from` a string makes a JSON string.
#[verifier::external_body]
pub(crate) fn string(s: String) -> (res: Value)
    ensures
        json_of(res) == Json::Str(s@),
{
    Value::from(s)
}

/// `serde_json::Value::from` a vector of values makes a JSON array of them.
#[verifier::external_body]
pub(crate) fn array(items: Vec<Value>) -> (res: Value)
    ensures
        json_of(res) == Json::Array(docs(items@)),
{
    Value::from(items)
}

/// `serde_json::Map::new` has no members; as a `serde_json::Value` it is the
/// empty object.
#[verifier::external_body]
pub(crate) fn object() -> (res: Value)
    ensures
        json_of(res) == obj(),
{
    Value::Object(serde_json::Map::new())
}

/// Indexing a `serde_json::Value` that is an object by a string, for
/// assignment, sets that member and leaves the others.
#[verifier::external_body]
pub(crate) fn put(obj: &mut Value, key: &str, v: Value)
    requires
        json_of(*old(obj)) is Object,
    ensures
        json_of(*final(obj)) == having(json_of(*old(obj)), key@, json_of(v)),
{
    obj[key] = v;
}

/// `serde_json::from_str` into a `serde_json::Value`: one document, or nothing
/// where the text is not one.
#[verifier::external_body]
pub(crate) fn parse(text: &str) -> (res: Option<Value>)
    ensures
        match res {
            Some(v) => parsed_json(text@) == Some(json_of(v)),
            None => parsed_json(text@) is None,
        },
{
    serde_json::from_str::<Value>(text).ok()
}

/// `serde_json::to_string_pretty` of a `serde_json::Value`.
#[verifier::external_body]
pub(crate) fn to_pretty(v: &Value) -> (res: Option<String>)
    ensures
        match res {
            Some(s) => pretty_json(json_of(*v)) == Some(s@),
            None => pretty_json(json_of(*v)) is None,
        },
{
    serde_json::to_string_pretty(v).ok()
}

/// `serde_json::Value::to_string`.
#[verifier::external_body]
pub(crate) fn to_compact(v: &Value) -> (res: String)
    ensures
        res@ == compact_json(json_of(*v)),
{
    v.to_string()
}

/// The object `obj` with the member `key` set.
pub(crate) fn with(obj: Value, key: &str, v: Value) -> (res: Value)
    requires
        json_of(obj) is Object,
    ensures
        json_of(res) == having(json_of(obj), key@, json_of(v)),
{
    let mut obj = obj;
    put(&mut obj, key, v);
    obj
}

/// The object `obj` with the string member `key` set.
pub(crate) fn with_text(obj: Value, key: &str, s: &str) -> (res: Value)
    requires
        json_of(obj) is Object,
    ensures
        json_of(res) == having(json_of(obj), key@, Json::Str(s@)),
{
    with(obj, key, string(s.to_owned()))
}

/// A string, or null where there is none.
pub(crate) fn opt_string(s: &Option<String>) -> (res: Value)
    ensures
        json_of(res) == opt_str(opt_text(*s)),
{
    match s {
        Some(t) => string(t.clone()),
        None => null(),
    }
}

/// A JSON array of strings.
pub(crate) fn text_array(items: &Vec<String>) -> (res: Value)
    ensures
        json_of(res) == Json::Array(strs(texts(items@))),
{
    let mut out: Vec<Value> = Vec::new();
    let mut i: usize = 0;
    while i < items.len()
        invariant
            i <= items@.len(),
            docs(out@) == strs(texts(items@)).take(i as int),
        decreases items@.len() - i,
    {
        let ghost before = out@;
        out.push(string(items[i].clone()));
        assert(docs(out@) =~= docs(before).push(Json::Str(items@[i as int]@)));
        i += 1;
    }
    assert(docs(out@) =~= strs(texts(items@)));
    array(out)
}

/// The member `key` of a value, read as a string.
pub(crate) fn get_text<'a>(v: &'a Value, key: &str) -> (res: Option<&'a str>)
    ensures
        match res {
            Some(s) => text_member(json_of(*v), key@) == Some(s@),
            None => text_member(json_of(*v), key@) is None,
        },
{
    match get(v, key) {
        Some(w) => w.as_str(),
        None => None,
    }
}

/// Members are set one at a time: an object with one more holds that one and
/// what it held before. The empty object has none, and so has what is no object.
/// A string is read only where there is one.
pub proof fn members_are_set_singly(
    doc: Json,
    key: Seq<char>,
    other: Seq<char>,
    v: Json,
    t: Seq<char>,
)
    ensures
        doc is Object ==> member(having(doc, key, v), key) == Some(v),
        doc is Object && other != key ==> member(having(doc, key, v), other) == member(doc, other),
        member(obj(), key) is None,
        !(doc is Object) ==> member(doc, key) is None,
        text_member(doc, key) == Some(t) <==> member(doc, key) == Some(Json::Str(t)),
        !(member(doc, key) matches Some(d) && d is Str) ==> text_member(doc, key) is None,
        opt_str(Some(t)) == Json::Str(t),
        opt_str(None) == Json::Null,
{
}

/// A row of strings keeps its order.
pub proof fn strings_keep_their_order(items: Seq<Seq<char>>, i: int)
    ensures
        strs(items).len() == items.len(),
        0 <= i < items.len() ==> strs(items)[i] == Json::Str(items[i]),
{
}

} // verus!

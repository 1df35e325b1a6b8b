//! JSON documents, one level at a time.
use vstd::prelude::*;

use crate::table::{as_map, unique};

verus! {

/// A parsed JSON document.
#[verifier::external_type_specification]
#[verifier::external_body]
pub struct ExValue(serde_json::Value);

/// A JSON number.
#[verifier::external_type_specification]
#[verifier::external_body]
pub struct ExNumber(serde_json::Number);

/// What a JSON document holds, down to its leaves.
#[verifier::ext_equal]
pub enum JsonView {
    Null,
    Bool(bool),
    Number(serde_json::Number),
    Text(Seq<char>),
    Array(Seq<JsonView>),
    Object(Map<Seq<char>, JsonView>),
}

/// What a `serde_json::Value` holds.
pub uninterp spec fn json_of(v: serde_json::Value) -> JsonView;

/// What `serde_json::from_str` reads from a text, if it is a JSON document.
pub uninterp spec fn parsed_json(text: Seq<char>) -> Option<JsonView>;

/// What `serde_json::to_string_pretty` writes for a document.
pub uninterp spec fn printed_json(j: JsonView) -> Seq<char>;

/// The top level of a JSON document; what is below it stays closed.
pub enum Json {
    Null,
    Bool(bool),
    Number(serde_json::Number),
    Text(String),
    Array(Vec<serde_json::Value>),
    Object(Vec<(String, serde_json::Value)>),
}

/// What the members of an object hold.
pub open spec fn members(fields: Seq<(String, serde_json::Value)>) -> Map<Seq<char>, JsonView> {
    as_map(fields).map_values(|v: serde_json::Value| json_of(v))
}

impl View for Json {
    type V = JsonView;

    open spec fn view(&self) -> JsonView {
        match *self {
            Json::Null => JsonView::Null,
            Json::Bool(b) => JsonView::Bool(b),
            Json::Number(n) => JsonView::Number(n),
            Json::Text(s) => JsonView::Text(s@),
            Json::Array(v) => JsonView::Array(v@.map_values(|x: serde_json::Value| json_of(x))),
            Json::Object(f) => JsonView::Object(members(f@)),
        }
    }
}

impl Json {
    /// No key of an object occurs twice.
    pub open spec fn well_formed(&self) -> bool {
        match *self {
            Json::Object(f) => unique(f@),
            _ => true,
        }
    }
}

/// `serde_json::from_str::<Value>` reads a JSON document. Which texts it takes and
/// what it reads from them depends on the text alone.
#[verifier::external_body]
pub(crate) fn parse(text: &str) -> (r: Option<serde_json::Value>)
    ensures
        r is Some == parsed_json(text@) is Some,
        r matches Some(v) ==> json_of(v) == parsed_json(text@)->0,
{
    serde_json::from_str(text).ok()
}

/// `serde_json::to_string_pretty` writes a `Value`. Its objects are sorted maps, so
/// the text depends on what the document holds alone. It always succeeds: the keys of
/// an object are strings, and a string takes whatever is written to it.
#[verifier::external_body]
pub(crate) fn print(v: &serde_json::Value) -> (r: Option<String>)
    ensures
        r is Some,
        r matches Some(s) ==> s@ == printed_json(json_of(*v)),
{
    serde_json::to_string_pretty(v).ok()
}

/// The variants of `serde_json::Value`, taken apart: the top level has the same
/// contents, and the keys of an object are all different.
#[verifier::external_body]
pub(crate) fn open(v: serde_json::Value) -> (r: Json)
    ensures
        r@ == json_of(v),
        r.well_formed(),
{
    match v {
        serde_json::Value::Null => Json::Null,
        serde_json::Value::Bool(b) => Json::Bool(b),
        serde_json::Value::Number(n) => Json::Number(n),
        serde_json::Value::String(s) => Json::Text(s),
        serde_json::Value::Array(a) => Json::Array(a),
        serde_json::Value::Object(m) => Json::Object(m.into_iter().collect()),
    }
}

/// The variants of `serde_json::Value`, put together again: the document has the
/// same contents.
#[verifier::external_body]
pub(crate) fn close(j: Json) -> (r: serde_json::Value)
    requires
        j.well_formed(),
    ensures
        json_of(r) == j@,
{
    match j {
        Json::Null => serde_json::Value::Null,
        Json::Bool(b) => serde_json::Value::Bool(b),
        Json::Number(n) => serde_json::Value::Number(n),
        Json::Text(s) => serde_json::Value::String(s),
        Json::Array(a) => serde_json::Value::Array(a),
        Json::Object(f) => serde_json::Value::Object(f.into_iter().collect()),
    }
}

/// An object holds what its members hold, each under its own key, and nothing else.
pub proof fn members_hold_their_values(
    fields: Seq<(String, serde_json::Value)>,
    i: int,
    k: Seq<char>,
)
    requires
        unique(fields),
    ensures
        0 <= i < fields.len() ==> members(fields).contains_key(fields[i].0@) && members(
            fields,
        )[fields[i].0@] == json_of(fields[i].1),
        members(fields).contains_key(k) <==> exists|j: int|
            0 <= j < fields.len() && (#[trigger] fields[j]).0@ == k,
{
    crate::table::pairs_map_keys_to_values(fields, i, k);
}

} // verus!

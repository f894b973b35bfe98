//! A plain-data JSON tree and the trusted parsing boundary around
//! `serde_json`. The relay inspects caller-supplied JSON (the header list and
//! the multipart part list) through this type, so that everything after the
//! parse is verified.

use vstd::prelude::*;

verus! {

/// Mathematical image of a JSON document.
pub enum JsonData {
    Null,
    Bool(bool),
    Num(Seq<char>),
    Str(Seq<char>),
    Arr(Seq<JsonData>),
    Obj(Seq<(Seq<char>, JsonData)>),
}

/// A JSON document as plain data. Numbers keep their decimal source text; the
/// relay never does arithmetic on them.
pub enum Json {
    Null,
    Bool(bool),
    Num(String),
    Str(String),
    Arr(Vec<Json>),
    Obj(Vec<(String, Json)>),
}

pub open spec fn json_view(j: Json) -> JsonData
    decreases j,
{
    match j {
        Json::Null => JsonData::Null,
        Json::Bool(b) => JsonData::Bool(b),
        Json::Num(s) => JsonData::Num(s@),
        Json::Str(s) => JsonData::Str(s@),
        Json::Arr(items) => JsonData::Arr(json_view_items(items@)),
        Json::Obj(fields) => JsonData::Obj(json_view_fields(fields@)),
    }
}

pub open spec fn json_view_items(items: Seq<Json>) -> Seq<JsonData>
    decreases items,
{
    if items.len() == 0 {
        Seq::empty()
    } else {
        json_view_items(items.drop_last()).push(json_view(items.last()))
    }
}

pub open spec fn json_view_fields(fields: Seq<(String, Json)>) -> Seq<(Seq<char>, JsonData)>
    decreases fields,
{
    if fields.len() == 0 {
        Seq::empty()
    } else {
        json_view_fields(fields.drop_last()).push(
            (fields.last().0@, json_view(fields.last().1)),
        )
    }
}

impl View for Json {
    type V = JsonData;

    open spec fn view(&self) -> JsonData {
        json_view(*self)
    }
}

#[verifier::external_type_specification]
#[verifier::external_body]
pub struct ExValue(serde_json::Value);

/// What `serde_json::from_str::<serde_json::Value>` makes of a string:
/// `None` where the string is not a JSON document, else the document as
/// plain data, object fields as `serde_json` keeps them (one entry per
/// name, a repeated name keeping the value parsed last).
pub uninterp spec fn json_parsed(s: Seq<char>) -> Option<JsonData>;

/// Relies on `serde_json::Value`'s variants carrying exactly the parsed
/// document: each arm moves one variant's fields into the matching [`Json`]
/// variant, numbers through their decimal rendering. Only [`parse_json`]
/// calls this, and states the contract for the composition.
#[verifier::external_body]
fn json_from_value(v: serde_json::Value) -> Json {
    match v {
        serde_json::Value::Null => Json::Null,
        serde_json::Value::Bool(b) => Json::Bool(b),
        serde_json::Value::Number(n) => Json::Num(n.to_string()),
        serde_json::Value::String(s) => Json::Str(s),
        serde_json::Value::Array(items) => Json::Arr(
            items.into_iter().map(json_from_value).collect(),
        ),
        serde_json::Value::Object(fields) => Json::Obj(
            fields.into_iter().map(|(k, v)| (k, json_from_value(v))).collect(),
        ),
    }
}

/// Relies on `serde_json::from_str::<serde_json::Value>`: it returns `Ok`
/// exactly on JSON documents, and the value it returns is a function of the
/// input text alone, here named [`json_parsed`].
#[verifier::external_body]
pub fn parse_json(s: &str) -> (r: Option<Json>)
    ensures
        r is Some <==> json_parsed(s@) is Some,
        r is Some ==> r->0@ == json_parsed(s@)->0,
{
    match serde_json::from_str::<serde_json::Value>(s) {
        Ok(v) => Some(json_from_value(v)),
        Err(_) => None,
    }
}

} // verus!

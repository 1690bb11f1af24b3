//! The boundary to `serde_json`.
//!
//! Nothing in this module is proved. It declares the types of `serde_json`
//! that the configuration reader handles, gives a mathematical model to a
//! parsed document, and states what the few accessors that the reader calls
//! return in terms of that model.

use vstd::prelude::*;

verus! {

/// The mathematical model of a JSON document. Numbers carry no value here:
/// nothing in a configuration is a number.
pub enum Json {
    Null,
    Bool(bool),
    Number,
    Text(Seq<char>),
    List(Seq<Json>),
    Record(Map<Seq<char>, Json>),
}

impl Json {
    /// The member stored under `key` in a record; `Null` where the document is
    /// no record or the record has no such key.
    pub open spec fn member(self, key: Seq<char>) -> Json {
        match self {
            Json::Record(members) => if members.contains_key(key) {
                members[key]
            } else {
                Json::Null
            },
            _ => Json::Null,
        }
    }

    /// The characters of a string; `None` for every other document.
    pub open spec fn text(self) -> Option<Seq<char>> {
        match self {
            Json::Text(chars) => Some(chars),
            _ => None,
        }
    }

    /// The elements of an array; `None` for every other document.
    pub open spec fn items(self) -> Option<Seq<Json>> {
        match self {
            Json::List(items) => Some(items),
            _ => None,
        }
    }

    /// The members of an object; `None` for every other document.
    pub open spec fn members(self) -> Option<Map<Seq<char>, Json>> {
        match self {
            Json::Record(members) => Some(members),
            _ => None,
        }
    }
}

/// `serde_json::Value`, a parsed JSON document. Opaque to the verifier.
#[verifier::external_type_specification]
#[verifier::external_body]
pub struct ExValue(serde_json::Value);

/// `serde_json::Error`, the reason why a text could not be parsed.
#[verifier::external_type_specification]
#[verifier::external_body]
pub struct ExError(serde_json::Error);

/// `serde_json::Map`, the members of a JSON object.
#[verifier::external_type_specification]
#[verifier::external_body]
#[verifier::reject_recursive_types(K)]
#[verifier::reject_recursive_types(V)]
pub struct ExMap<K, V>(serde_json::Map<K, V>);

/// The document that a `serde_json::Value` holds.
pub uninterp spec fn json_of(value: serde_json::Value) -> Json;

/// The members that a `serde_json::Map` holds, by key.
pub uninterp spec fn record_of(members: serde_json::Map<String, serde_json::Value>) -> Map<
    Seq<char>,
    Json,
>;

/// What `serde_json::from_str` makes of a text: the document that it parses
/// to, or `None` where it reports an error.
pub uninterp spec fn parsed(text: Seq<char>) -> Option<Json>;

/// Calls `serde_json::from_str` for a `Value`. The contract names the outcome:
/// the value returned holds the document `parsed(text)`, and an error is
/// returned exactly where `parsed(text)` is `None`.
#[verifier::external_body]
pub(crate) fn parse(text: &str) -> (r: Result<serde_json::Value, serde_json::Error>)
    ensures
        match r {
            Ok(value) => parsed(text@) == Some(json_of(value)),
            Err(_) => parsed(text@) is None,
        },
{
    serde_json::from_str::<serde_json::Value>(text)
}

/// Calls the `Index` operator of `Value` with a string key, `value[key]`. For
/// an object that has the key this is the member stored under it; in every
/// other case `serde_json` hands out a reference to a `Null` value.
#[verifier::external_body]
pub(crate) fn member<'a>(value: &'a serde_json::Value, key: &str) -> (r: &'a serde_json::Value)
    ensures
        json_of(*r) == json_of(*value).member(key@),
{
    &value[key]
}

/// `Value::as_str`: the string's text for a string, `None` otherwise.
pub assume_specification<'a>[ serde_json::Value::as_str ](value: &'a serde_json::Value) -> (r:
    Option<&'a str>)
    ensures
        match json_of(*value).text() {
            Some(chars) => r is Some && r.unwrap()@ == chars,
            None => r is None,
        },
;

/// `Value::as_array`: the vector of elements for an array, `None` otherwise.
pub assume_specification<'a>[ serde_json::Value::as_array ](value: &'a serde_json::Value) -> (r:
    Option<&'a Vec<serde_json::Value>>)
    ensures
        match json_of(*value).items() {
            Some(items) => r is Some && r.unwrap()@.map_values(|v: serde_json::Value| json_of(v))
                == items,
            None => r is None,
        },
;

/// `Value::as_object`: the map of members for an object, `None` otherwise.
pub assume_specification<'a>[ serde_json::Value::as_object ](value: &'a serde_json::Value) -> (r:
    Option<&'a serde_json::Map<String, serde_json::Value>>)
    ensures
        match json_of(*value).members() {
            Some(members) => r is Some && record_of(*r.unwrap()) == members,
            None => r is None,
        },
;

/// Collects `Map::keys`. Every key of the map comes out, and nothing else;
/// the order is the map's own and is not stated.
#[verifier::external_body]
pub(crate) fn keys(members: &serde_json::Map<String, serde_json::Value>) -> (r: Vec<String>)
    ensures
        r.deep_view().to_set() == record_of(*members).dom(),
{
    members.keys().cloned().collect()
}

} // verus!

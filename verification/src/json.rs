//! JSON documents, as serde_json reads them.
//!
//! A parsed document stays a `serde_json::Value`; contracts speak of its
//! model, which keeps the two shapes the feed uses (objects and strings) and
//! folds every other value into one. The functions that call serde_json are
//! the private ones at the end; their contracts are believed, not proved.

use vstd::prelude::*;

verus! {

/// A JSON value, as far as this library looks into one.
pub enum Json {
    /// A string, with its contents.
    Text(Seq<char>),
    /// An object: its members, each a key and a value, in the order in
    /// which serde_json walks them. No two members have the same key.
    Object(Seq<(Seq<char>, Json)>),
    /// Null, a boolean, a number or an array.
    Other,
}

/// `serde_json::Value`, carried as it is. Nothing of its inside is seen
/// but through `json_model`.
#[verifier::external_type_specification]
#[verifier::external_body]
pub struct ExJsonValue(serde_json::Value);

/// What a parsed value holds.
pub uninterp spec fn json_model(value: serde_json::Value) -> Json;

/// What serde_json reads out of `bytes` as one JSON document; `None` where it
/// rejects them.
pub uninterp spec fn json_document(bytes: Seq<u8>) -> Option<Json>;

/// Whether `members` has a member called `key`.
pub open spec fn has_member(members: Seq<(Seq<char>, Json)>, key: Seq<char>) -> bool {
    exists|i: int| 0 <= i < members.len() && (#[trigger] members[i]).0 == key
}

/// The member of the object `doc` called `key`, of which an object has one
/// at most; `None` where `doc` is no object or has no such member.
pub open spec fn json_member(doc: Json, key: Seq<char>) -> Option<Json> {
    match doc {
        Json::Object(members) => if has_member(members, key) {
            Some(
                members[choose|i: int|
                    0 <= i < members.len() && (#[trigger] members[i]).0 == key].1,
            )
        } else {
            None
        },
        _ => None,
    }
}

/// `serde_json::from_slice` into a `Value`, the error dropped. The contract
/// only names the result.
#[verifier::external_body]
pub(crate) fn parse_document(bytes: &[u8]) -> (r: Option<serde_json::Value>)
    ensures
        match r {
            Some(value) => json_document(bytes@) == Some(json_model(value)),
            None => json_document(bytes@) is None,
        },
{
    serde_json::from_slice(bytes).ok()
}

/// `serde_json::Value::get` with a string index: the member under that key
/// where the value is an object that has one, `None` otherwise.
#[verifier::external_body]
pub(crate) fn member<'a>(value: &'a serde_json::Value, key: &str) -> (r: Option<
    &'a serde_json::Value,
>)
    ensures
        match r {
            Some(found) => json_member(json_model(*value), key@) == Some(json_model(*found)),
            None => json_member(json_model(*value), key@) is None,
        },
{
    value.get(key)
}

/// `serde_json::Value::as_object`, its members handed out by `Map::iter`:
/// `None` where the value is no object, else each member's key and value in
/// the order of the model.
#[verifier::external_body]
pub(crate) fn members<'a>(value: &'a serde_json::Value) -> (r: Option<
    Vec<(&'a String, &'a serde_json::Value)>,
>)
    ensures
        match r {
            Some(found) => json_model(*value) matches Json::Object(m) && m.len() == found@.len()
                && forall|i: int|
                0 <= i < m.len() ==> (#[trigger] m[i]).0 == found@[i].0@ && m[i].1 == json_model(
                    *found@[i].1,
                ),
            None => !(json_model(*value) is Object),
        },
{
    match value.as_object() {
        Some(object) => Some(object.iter().collect()),
        None => None,
    }
}

/// `serde_json::Value::as_str`: the contents where the value is a string,
/// `None` otherwise.
#[verifier::external_body]
pub(crate) fn string_contents<'a>(value: &'a serde_json::Value) -> (r: Option<&'a str>)
    ensures
        match r {
            Some(contents) => json_model(*value) == Json::Text(contents@),
            None => !(json_model(*value) is Text),
        },
{
    value.as_str()
}

} // verus!

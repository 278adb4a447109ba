//! The JSON library behind the item container, as far as the container
//! needs it.  Nothing in this module is proved: each function makes one
//! call into `serde_json`, and its contract says, over [`Json`], what the
//! call is taken to do.
use vstd::prelude::*;
use serde_json::Value;

verus! {

#[verifier::external_type_specification]
#[verifier::external_body]
pub struct ExValue(serde_json::Value);

#[verifier::external_type_specification]
#[verifier::external_body]
pub struct ExNumber(serde_json::Number);

#[verifier::external_type_specification]
#[verifier::external_body]
pub struct ExJsonError(serde_json::Error);

/// A JSON document as a mathematical value.  The members of an object
/// stand in the order in which the object holds them, each key once.
pub enum Json {
    Null,
    Bool(bool),
    Number(serde_json::Number),
    Text(Seq<char>),
    Array(Seq<Json>),
    Object(Seq<(Seq<char>, Json)>),
}

/// The document that a `serde_json::Value` holds.
pub uninterp spec fn json_of(v: Value) -> Json;

/// The document that `serde_json::from_str` reads from a text, `None`
/// where it rejects the text.
pub uninterp spec fn json_parsed(text: Seq<char>) -> Option<Json>;

/// The compact text that `serde_json::to_string` writes for a document,
/// `None` where it fails.
pub uninterp spec fn json_printed(doc: Json) -> Option<Seq<char>>;

/// The documents that a sequence of values holds.
pub open spec fn jsons_of(values: Seq<Value>) -> Seq<Json> {
    values.map_values(|v: Value| json_of(v))
}

/// The value that a member list holds under a key, `None` where no member
/// has the key.
pub open spec fn member_of(members: Seq<(Seq<char>, Json)>, key: Seq<char>) -> Option<Json>
    decreases members.len(),
{
    if members.len() == 0 {
        None
    } else if members.last().0 == key {
        Some(members.last().1)
    } else {
        member_of(members.drop_last(), key)
    }
}

/// The member list that key and value pairs stand for.
pub open spec fn members_of(pairs: Seq<(String, Value)>) -> Seq<(Seq<char>, Json)> {
    pairs.map_values(|p: (String, Value)| (p.0@, json_of(p.1)))
}

/// Whether no two pairs have the same key.
pub open spec fn distinct_keys(pairs: Seq<(String, Value)>) -> bool {
    forall|i: int, j: int| 0 <= i < j < pairs.len() ==> pairs[i].0@ != pairs[j].0@
}

/// `serde_json::from_str` at type `Value`: reads a whole text as one JSON
/// document.  The contract names the outcome and says nothing more of it.
#[verifier::external_body]
pub(crate) fn parse_value(text: &str) -> (r: Result<Value, serde_json::Error>)
    ensures
        match r {
            Ok(v) => json_parsed(text@) == Some(json_of(v)),
            Err(_) => json_parsed(text@) is None,
        },
{
    serde_json::from_str::<Value>(text)
}

/// `serde_json::to_string` on a `Value`.  The contract names the outcome
/// and says nothing more of it.
#[verifier::external_body]
pub(crate) fn print_value(v: &Value) -> (r: Result<String, serde_json::Error>)
    ensures
        match r {
            Ok(s) => json_printed(json_of(*v)) == Some(s@),
            Err(_) => json_printed(json_of(*v)) is None,
        },
{
    serde_json::to_string(v)
}

/// `Value::as_array`: the vector inside an array, `None` for any other
/// document.
#[verifier::external_body]
pub(crate) fn as_array(v: &Value) -> (r: Option<&Vec<Value>>)
    ensures
        match r {
            Some(a) => json_of(*v) == Json::Array(jsons_of(a@)),
            None => !(json_of(*v) is Array),
        },
{
    v.as_array()
}

/// `Value::as_str`: the text inside a string, `None` for any other
/// document.
#[verifier::external_body]
pub(crate) fn as_str(v: &Value) -> (r: Option<&str>)
    ensures
        match r {
            Some(s) => json_of(*v) == Json::Text(s@),
            None => !(json_of(*v) is Text),
        },
{
    v.as_str()
}

/// `Value::get` with a string index: the member that an object holds under
/// `key`; `None` where it holds none and for a document that is no object.
#[verifier::external_body]
pub(crate) fn member<'a>(v: &'a Value, key: &str) -> (r: Option<&'a Value>)
    ensures
        match r {
            Some(m) => json_of(*v) is Object && member_of(json_of(*v)->Object_0, key@) == Some(
                json_of(*m),
            ),
            None => json_of(*v) is Object ==> member_of(json_of(*v)->Object_0, key@) is None,
        },
{
    v.get(key)
}

/// `Value::String`: the string document with the given text.
#[verifier::external_body]
pub(crate) fn json_string(s: String) -> (v: Value)
    ensures
        json_of(v) == Json::Text(s@),
{
    Value::String(s)
}

/// `Value::Array`: the array document with the given elements.
#[verifier::external_body]
pub(crate) fn json_array(items: Vec<Value>) -> (v: Value)
    ensures
        json_of(v) == Json::Array(jsons_of(items@)),
{
    Value::Array(items)
}

/// `Value::from_iter` on key and value pairs: the object document that
/// holds the pairs, in their order.  It is asked for distinct keys only.
#[verifier::external_body]
pub(crate) fn json_object(pairs: Vec<(String, Value)>) -> (v: Value)
    requires
        distinct_keys(pairs@),
    ensures
        json_of(v) == Json::Object(members_of(pairs@)),
{
    Value::from_iter(pairs)
}

} // verus!

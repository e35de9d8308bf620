//! JSON trees: what is read of a `serde_json::Value`, and how one comes from bytes.
use serde_json::value::RawValue;
use serde_json::Value;
use std::collections::BTreeMap;
use vstd::prelude::*;

verus! {

/// Declares `serde_json::Value`, a JSON tree.
#[verifier::external_type_specification]
#[verifier::external_body]
pub struct ExValue(serde_json::Value);

/// Declares `serde_json::Error`.
#[verifier::external_type_specification]
#[verifier::external_body]
pub struct ExJsonError(serde_json::Error);

/// Declares `rmp_serde::decode::Error`.
#[verifier::external_type_specification]
#[verifier::external_body]
pub struct ExUnpackError(rmp_serde::decode::Error);

/// Declares `rmp_serde::encode::Error`.
#[verifier::external_type_specification]
#[verifier::external_body]
pub struct ExPackError(rmp_serde::encode::Error);

/// What a JSON tree is.
pub enum JsonModel {
    Null,
    Bool(bool),
    /// A number, and the integer that it is, where it is one in that range.
    Number { integer: Option<i64> },
    Text(Seq<char>),
    Array(Seq<Value>),
    /// Members, by their names.
    Object(Map<Seq<char>, Value>),
}

impl JsonModel {
    /// The text of a tree, where it is one.
    pub open spec fn text(self) -> Option<Seq<char>> {
        match self {
            JsonModel::Text(text) => Some(text),
            _ => None,
        }
    }

    /// The integer of a tree, where it is one in that range.
    pub open spec fn integer(self) -> Option<i64> {
        match self {
            JsonModel::Number { integer } => integer,
            _ => None,
        }
    }

    /// The elements of a tree, where it is an array.
    pub open spec fn elements(self) -> Option<Seq<Value>> {
        match self {
            JsonModel::Array(elements) => Some(elements),
            _ => None,
        }
    }

    /// The member of that name, where the tree is an object that has one.
    pub open spec fn member(self, name: Seq<char>) -> Option<Value> {
        match self {
            JsonModel::Object(members) => if members.contains_key(name) {
                Some(members[name])
            } else {
                None
            },
            _ => None,
        }
    }
}

/// What a `serde_json::Value` is.
pub uninterp spec fn json_model(v: Value) -> JsonModel;

/// The tree that `serde_json::from_str` reads from a text, where it is JSON.
pub uninterp spec fn json_tree(raw: Seq<char>) -> Option<Value>;

/// The text of the member of that name, where `serde_json::from_str` finds a text to be a JSON object,
/// and where the object has such a member.
pub uninterp spec fn json_member(raw: Seq<char>, name: Seq<char>) -> Option<Option<Seq<char>>>;

/// The text of the element at that place, where `serde_json::from_str` finds a text to be a JSON array,
/// and where the array has so many elements.
pub uninterp spec fn json_element(raw: Seq<char>, place: usize) -> Option<Option<Seq<char>>>;

/// The tree that `rmp_serde::from_slice` reads from bytes, where they are MessagePack.
pub uninterp spec fn msgpack_tree(raw: Seq<u8>) -> Option<Value>;

/// The bytes that `rmp_serde::to_vec_named` writes for a tree.
pub uninterp spec fn msgpack_value(v: Value) -> Seq<u8>;

/// `serde_json::Value::as_str`. Claimed: it gives the text of a string, and nothing for any other tree.
pub assume_specification[ serde_json::Value::as_str ](v: &serde_json::Value) -> (r: Option<&str>)
    ensures
        (match r {
            Some(s) => Some(s@),
            None => None,
        }) == json_model(*v).text(),
;

/// `serde_json::Value::as_i64`. Claimed: it gives the integer of a number that is one in that range, and nothing for any
/// other tree.
pub assume_specification[ serde_json::Value::as_i64 ](v: &serde_json::Value) -> (r: Option<i64>)
    ensures
        r == json_model(*v).integer(),
;

/// `serde_json::Value::is_null`. Claimed: it tells whether the tree is `null`.
pub assume_specification[ serde_json::Value::is_null ](v: &serde_json::Value) -> (r: bool)
    ensures
        r == (json_model(*v) is Null),
;

/// `serde_json::Value::as_array`. Claimed: it gives the elements of an array, and nothing for any other tree.
pub assume_specification[ serde_json::Value::as_array ](v: &serde_json::Value) -> (r: Option<
    &Vec<serde_json::Value>,
>)
    ensures
        (match r {
            Some(elements) => Some(elements@),
            None => None,
        }) == json_model(*v).elements(),
;

/// The clone of a `serde_json::Value`. Claimed: it is the same tree.
pub assume_specification[ <serde_json::Value as Clone>::clone ](v: &serde_json::Value) -> (r:
    serde_json::Value)
    ensures
        r == *v,
;

/// Calls `serde_json::Value::get` with a string. Claimed: it gives the member of that name of an
/// object that has one, and nothing otherwise.
#[verifier::external_body]
pub(crate) fn member<'a>(v: &'a Value, name: &str) -> (r: Option<&'a Value>)
    ensures
        (match r {
            Some(m) => Some(*m),
            None => None,
        }) == json_model(*v).member(name@),
{
    v.get(name)
}

/// Calls `serde_json::from_str` for a tree. Claimed: whether it succeeds, and with which tree,
/// depends on the text alone.
#[verifier::external_body]
pub(crate) fn parse_json(raw: &str) -> (r: Result<Value, serde_json::Error>)
    ensures
        (match r {
            Ok(v) => Some(v),
            Err(_) => None,
        }) == json_tree(raw@),
{
    serde_json::from_str(raw)
}

/// Calls `serde_json::from_str` for the members of an object, by their names and each as the text that
/// it was, and looks one up. Claimed: whether the text is an object, whether it has that member, and
/// which text the member is, depends on the text and the name alone.
#[verifier::external_body]
pub(crate) fn read_json_member(raw: &str, name: &str) -> (r: Result<
    Option<String>,
    serde_json::Error,
>)
    ensures
        (match r {
            Ok(text) => Some(text_view(text)),
            Err(_) => None,
        }) == json_member(raw@, name@),
{
    let members: BTreeMap<String, Box<RawValue>> = serde_json::from_str(raw)?;
    Ok(members.get(name).map(|text| text.get().to_owned()))
}

/// Calls `serde_json::from_str` for the elements of an array, each as the text that it was, and picks
/// one. Claimed: whether the text is an array, whether it has that element, and which text the
/// element is, depends on the text and the place alone.
#[verifier::external_body]
pub(crate) fn read_json_element(raw: &str, place: usize) -> (r: Result<
    Option<String>,
    serde_json::Error,
>)
    ensures
        (match r {
            Ok(text) => Some(text_view(text)),
            Err(_) => None,
        }) == json_element(raw@, place),
{
    let elements: Vec<Box<RawValue>> = serde_json::from_str(raw)?;
    Ok(elements.get(place).map(|text| text.get().to_owned()))
}

/// Calls `rmp_serde::from_slice` for a tree. Claimed: whether it succeeds, and with which tree,
/// depends on the bytes alone.
#[verifier::external_body]
pub(crate) fn parse_msgpack(raw: &[u8]) -> (r: Result<Value, rmp_serde::decode::Error>)
    ensures
        (match r {
            Ok(v) => Some(v),
            Err(_) => None,
        }) == msgpack_tree(raw@),
{
    rmp_serde::from_slice(raw)
}

/// Calls `rmp_serde::to_vec_named` on a tree. Claimed: the bytes that it writes depend on the
/// tree alone. Whether it succeeds is left open: it also fails where memory runs out.
#[verifier::external_body]
pub(crate) fn pack_value(v: &Value) -> (r: Result<Vec<u8>, rmp_serde::encode::Error>)
    ensures
        r matches Ok(bytes) ==> bytes@ == msgpack_value(*v),
{
    rmp_serde::to_vec_named(v)
}

/// What an optional text member stands for: no text where it is absent or `null`, its text where
/// it is a string. None where it is anything else.
pub open spec fn optional_text(v: Option<Value>) -> Option<Option<Seq<char>>> {
    match v {
        None => Some(None),
        Some(v) => if json_model(v) is Null {
            Some(None)
        } else {
            match json_model(v).text() {
                Some(s) => Some(Some(s)),
                None => None,
            }
        },
    }
}

/// The view of an optional text.
pub open spec fn text_view(s: Option<String>) -> Option<Seq<char>> {
    match s {
        Some(s) => Some(s@),
        None => None,
    }
}

/// Reads an optional text member.
pub(crate) fn read_optional_text(v: Option<&Value>) -> (r: Option<Option<String>>)
    ensures
        (match r {
            Some(s) => Some(text_view(s)),
            None => None,
        }) == optional_text(
            match v {
                Some(v) => Some(*v),
                None => None,
            },
        ),
{
    match v {
        None => Some(None),
        Some(v) => {
            if v.is_null() {
                Some(None)
            } else {
                match v.as_str() {
                    Some(s) => Some(Some(s.to_owned())),
                    None => None,
                }
            }
        },
    }
}

/// An optional text is viewed as it is, whole, or as none.
pub proof fn law_optional_texts_are_viewed_whole(s: Option<String>)
    ensures
        s matches Some(text) ==> text_view(s) == Some(text@),
        s is None ==> text_view(s) is None,
{
}

} // verus!

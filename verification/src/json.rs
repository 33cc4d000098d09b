//! The JSON document behind a container header. The document is held as a
//! `serde_json::Value`; what the library reads from it goes through the
//! functions of this module, whose contracts are taken on trust.

use serde::Deserialize;
use vstd::prelude::*;

verus! {

#[verifier::external_type_specification]
#[verifier::external_body]
pub struct ExJsonValue(serde_json::Value);

#[verifier::external_type_specification]
#[verifier::external_body]
pub struct ExJsonError(serde_json::Error);

/// The JSON value that a byte region begins with, if it begins with one.
pub uninterp spec fn json_prefix(bytes: Seq<u8>) -> Option<serde_json::Value>;

/// The members of a JSON object, in the order in which the object hands
/// them out; `None` for any other value.
pub uninterp spec fn json_members(v: serde_json::Value) -> Option<Seq<(Seq<char>, serde_json::Value)>>;

/// The member of a JSON object under a key; `None` where the value is no
/// object or has no such member.
pub uninterp spec fn json_field(v: serde_json::Value, key: Seq<char>) -> Option<serde_json::Value>;

/// The text of a JSON string; `None` for any other value.
pub uninterp spec fn json_string(v: serde_json::Value) -> Option<Seq<char>>;

/// A JSON array read as a list of unsigned machine integers; `None` where
/// the value is not such an array.
pub uninterp spec fn json_usize_list(v: serde_json::Value) -> Option<Seq<usize>>;

/// A JSON array read as a pair of unsigned machine integers; `None` where
/// the value is not an array of exactly two of them.
pub uninterp spec fn json_usize_pair(v: serde_json::Value) -> Option<(usize, usize)>;

/// Runs `serde_json`'s deserializer for `Value` over a slice reader and
/// stops after the first value, so bytes that follow it are not looked at.
/// Trusted: the outcome is a function of the bytes, named `json_prefix`.
#[verifier::external_body]
pub(crate) fn parse_json_prefix(bytes: &[u8]) -> (r: Result<serde_json::Value, serde_json::Error>)
    ensures
        r is Ok <==> json_prefix(bytes@) is Some,
        r matches Ok(v) ==> json_prefix(bytes@) == Some(v),
{
    let mut deserializer = serde_json::Deserializer::new(serde_json::de::SliceRead::new(bytes));
    serde_json::Value::deserialize(&mut deserializer)
}

/// Calls `Value::as_object` and walks the map with `Map::iter`, cloning each
/// key and borrowing each value. Trusted: the list is `json_members`, entry
/// by entry.
#[verifier::external_body]
pub(crate) fn object_members<'a>(v: &'a serde_json::Value) -> (r: Option<
    Vec<(String, &'a serde_json::Value)>,
>)
    ensures
        r is Some <==> json_members(*v) is Some,
        r matches Some(list) ==> {
            &&& list@.len() == json_members(*v).unwrap().len()
            &&& forall|i: int|
                0 <= i < list@.len() ==> (#[trigger] list@[i]).0@ == json_members(*v).unwrap()[i].0
                    && *list@[i].1 == json_members(*v).unwrap()[i].1
        },
{
    v.as_object().map(|m| m.iter().map(|(k, x)| (k.clone(), x)).collect())
}

/// Calls `Value::get` with a string key. Trusted: the result is
/// `json_field`.
#[verifier::external_body]
pub(crate) fn object_field<'a>(v: &'a serde_json::Value, key: &str) -> (r: Option<
    &'a serde_json::Value,
>)
    ensures
        r is Some <==> json_field(*v, key@) is Some,
        r matches Some(x) ==> json_field(*v, key@) == Some(*x),
{
    v.get(key)
}

/// Deserializes a `String` from the value, as `serde` does for `&Value`.
/// Trusted: the result is `json_string`.
#[verifier::external_body]
pub(crate) fn read_string(v: &serde_json::Value) -> (r: Option<String>)
    ensures
        r is Some <==> json_string(*v) is Some,
        r matches Some(s) ==> json_string(*v) == Some(s@),
{
    String::deserialize(v).ok()
}

/// Deserializes a `Vec<usize>` from the value. Trusted: the result is
/// `json_usize_list`.
#[verifier::external_body]
pub(crate) fn read_usize_list(v: &serde_json::Value) -> (r: Option<Vec<usize>>)
    ensures
        r is Some <==> json_usize_list(*v) is Some,
        r matches Some(list) ==> json_usize_list(*v) == Some(list@),
{
    Vec::<usize>::deserialize(v).ok()
}

/// Deserializes a `(usize, usize)` from the value. Trusted: the result is
/// `json_usize_pair`.
#[verifier::external_body]
pub(crate) fn read_usize_pair(v: &serde_json::Value) -> (r: Option<(usize, usize)>)
    ensures
        r == json_usize_pair(*v),
{
    <(usize, usize)>::deserialize(v).ok()
}

/// The JSON text that a value is written as, where it can be written.
pub uninterp spec fn json_encoding(v: serde_json::Value) -> Option<Seq<u8>>;

/// Makes `Value::Object` of `Map::new()`. Trusted: the object has no
/// members.
#[verifier::external_body]
pub(crate) fn empty_object() -> (r: serde_json::Value)
    ensures
        json_members(r) == Some(Seq::<(Seq<char>, serde_json::Value)>::empty()),
        forall|k: Seq<char>| (#[trigger] json_field(r, k)) is None,
{
    serde_json::Value::Object(serde_json::Map::new())
}

/// Calls `Map::insert` on the object behind `obj`. Trusted: the object then
/// holds `val` under `key`, and under every other key what it held before.
#[verifier::external_body]
pub(crate) fn insert_member(obj: &mut serde_json::Value, key: &str, val: serde_json::Value)
    requires
        json_members(*old(obj)) is Some,
    ensures
        json_members(*final(obj)) is Some,
        json_field(*final(obj), key@) == Some(val),
        forall|k: Seq<char>|
            k != key@ ==> #[trigger] json_field(*final(obj), k) == json_field(*old(obj), k),
{
    obj.as_object_mut().map(|m| m.insert(key.to_owned(), val));
}

/// Calls `Value::from` on a string slice. Trusted: the result is a JSON
/// string with that text.
#[verifier::external_body]
pub(crate) fn text_value(s: &str) -> (r: serde_json::Value)
    ensures
        json_string(r) == Some(s@),
{
    serde_json::Value::from(s)
}

/// Calls `Value::from` on a vector of `usize`. Trusted: the result is an
/// array that reads back as that list, and as a pair where it has two
/// items.
#[verifier::external_body]
pub(crate) fn number_list(list: Vec<usize>) -> (r: serde_json::Value)
    ensures
        json_usize_list(r) == Some(list@),
        list@.len() == 2 ==> json_usize_pair(r) == Some((list@[0], list@[1])),
{
    serde_json::Value::from(list)
}

/// Calls `serde_json::to_vec`. Trusted: the outcome is a function of the
/// value, named `json_encoding`.
#[verifier::external_body]
pub(crate) fn encode(v: &serde_json::Value) -> (r: Result<Vec<u8>, serde_json::Error>)
    ensures
        r is Ok <==> json_encoding(*v) is Some,
        r matches Ok(bytes) ==> json_encoding(*v) == Some(bytes@),
{
    serde_json::to_vec(v)
}

} // verus!

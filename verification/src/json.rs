//! JSON documents, as the store holds them.
//!
//! A stored value is a `serde_json::Value`. The store never looks inside
//! one: it keeps it, copies it and compares it with another.

use serde_json::Value;
use vstd::prelude::*;

verus! {

/// `serde_json::Value`, an arbitrary JSON document. Nothing of its inside
/// is known here.
#[verifier::external_type_specification]
#[verifier::external_body]
pub struct ExValue(serde_json::Value);

/// `Value::clone`, which the crate derives: the copy is the same document.
pub assume_specification[ <serde_json::Value as Clone>::clone ](value: &Value) -> (copy: Value)
    ensures
        copy == *value,
;

/// `Value::eq`, which the crate derives and which is an equivalence
/// (`Value` is `Eq`). Two values are taken to be the same document
/// exactly when it says so.
#[verifier::external_body]
pub(crate) fn same_value(a: &Value, b: &Value) -> (same: bool)
    ensures
        same == (*a == *b),
{
    a == b
}

/// Whether two answers of a storage, a document or its absence, agree.
pub fn same_answer(a: &Option<Value>, b: &Option<Value>) -> (same: bool)
    ensures
        same == (*a == *b),
{
    match (a, b) {
        (None, None) => true,
        (Some(x), Some(y)) => same_value(x, y),
        _ => false,
    }
}

/// A copy of an answer of a storage.
pub fn copy_answer(a: &Option<Value>) -> (copy: Option<Value>)
    ensures
        copy == *a,
{
    match a {
        None => None,
        Some(x) => Some(x.clone()),
    }
}

/// The document that `text` is the JSON of, if it is the JSON of one.
pub uninterp spec fn json_decoded(text: Seq<char>) -> Option<Value>;

/// `serde_json::from_str` at `Value`. Whether it accepts a text, and the
/// document it then returns, depend on the text alone. Where it refuses,
/// the text of its error comes back.
#[verifier::external_body]
pub(crate) fn decode_value(text: &str) -> (r: Result<Value, String>)
    ensures
        match r {
            Ok(value) => json_decoded(text@) == Some(value),
            Err(_) => json_decoded(text@) is None,
        },
{
    match serde_json::from_str(text) {
        Ok(value) => Ok(value),
        Err(error) => Err(serde_json::Error::to_string(&error)),
    }
}

/// `bytes` is JSON that the crate writes for the document `value`. A
/// document can have more than one such text: two values that compare
/// equal can differ in their JSON, as a zero with a sign and one without
/// do.
pub uninterp spec fn json_encodes(bytes: Seq<u8>, value: Value) -> bool;

/// `serde_json::to_vec` at `Value`: the bytes of the document's JSON. It
/// always succeeds: writing a `Value` fails only where the writer fails or
/// a key of an object is no string, and a `Vec` takes every byte and the
/// keys of a `Value` are strings.
#[verifier::external_body]
pub(crate) fn encode_value(value: &Value) -> (r: Result<Vec<u8>, String>)
    ensures
        r is Ok,
        json_encodes(r->Ok_0@, *value),
{
    match serde_json::to_vec(value) {
        Ok(bytes) => Ok(bytes),
        Err(error) => Err(serde_json::Error::to_string(&error)),
    }
}

} // verus!

//! Rows as JSON: a row is stored as one JSON object whose values are texts.

use vstd::prelude::*;

verus! {

/// The error of `serde_json`. Nothing is read from it.
#[verifier::external_type_specification]
#[verifier::external_body]
pub struct ExJsonError(serde_json::Error);

/// What `serde_json::from_slice` reads from `bytes` as a JSON value, where
/// that value is an object: the object's members in the order in which
/// `serde_json::Map` lists them, each with its name and, where its value is a
/// JSON string, that string. `None` where the bytes are no JSON text or the
/// value is no object.
pub uninterp spec fn json_object(bytes: Seq<u8>) -> Option<Seq<(Seq<char>, Option<Seq<char>>)>>;

/// What `serde_json::to_vec` writes for the map from the names of `fields` to
/// their texts.
pub uninterp spec fn json_bytes(fields: Seq<(Seq<char>, Seq<char>)>) -> Seq<u8>;

/// No two of `fields` have the same name.
pub open spec fn distinct_names(fields: Seq<(Seq<char>, Seq<char>)>) -> bool {
    forall|i: int, j: int|
        0 <= i < j < fields.len() ==> (#[trigger] fields[i]).0 != (#[trigger] fields[j]).0
}

/// Calls `serde_json::from_slice` for a `serde_json::Value`. The contract
/// names what comes back for an object (`json_object`): its members with their
/// names, and the text of each member that is a JSON string.
#[verifier::external_body]
pub(crate) fn read_object(bytes: &Vec<u8>) -> (r: Option<Vec<(String, Option<String>)>>)
    ensures
        r.deep_view() == json_object(bytes@),
{
    match serde_json::from_slice::<serde_json::Value>(bytes.as_slice()) {
        Ok(serde_json::Value::Object(members)) => Some(
            members.into_iter().map(|(name, value)| (
                name,
                match value {
                    serde_json::Value::String(text) => Some(text),
                    _ => None,
                },
            )).collect(),
        ),
        _ => None,
    }
}

/// Calls `serde_json::to_vec` on the map from the names of `fields` to their
/// texts. The contract claims that the call succeeds, and names the bytes that
/// come back (`json_bytes`): writing into a vector does not fail, and a map
/// whose keys and values are strings is written without any other error.
#[verifier::external_body]
pub(crate) fn write_object(fields: &Vec<(String, String)>) -> (r: Result<Vec<u8>, serde_json::Error>)
    requires
        distinct_names(fields.deep_view()),
    ensures
        r is Ok,
        r->Ok_0@ == json_bytes(fields.deep_view()),
{
    let map: std::collections::BTreeMap<&str, &str> = fields.iter().map(
        |(name, text)| (name.as_str(), text.as_str()),
    ).collect();
    serde_json::to_vec(&map)
}

} // verus!

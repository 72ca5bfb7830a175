//! What this library reads from JSON documents, through serde_json. Each
//! name below stands for one serde_json reading of a document given as text;
//! documents taken apart are handed on as their serde_json text.
use vstd::prelude::*;

verus! {

/// Whether serde_json reads `s` as one JSON document.
pub uninterp spec fn json_valid(s: Seq<char>) -> bool;

/// The text (serde_json's serialisation) of the member `key` of the object
/// `doc`; `None` when `doc` is not an object holding that key.
pub uninterp spec fn json_member(doc: Seq<char>, key: Seq<char>) -> Option<Seq<char>>;

/// The contents of `doc` when it is a JSON string.
pub uninterp spec fn json_string(doc: Seq<char>) -> Option<Seq<char>>;

/// The decimal text (serde_json's `Display`) of `doc` when it is a JSON number.
pub uninterp spec fn json_number(doc: Seq<char>) -> Option<Seq<char>>;

/// The texts of the elements of `doc` when it is a JSON array.
pub uninterp spec fn json_items(doc: Seq<char>) -> Option<Seq<Seq<char>>>;

/// The contents of the elements of `doc` when it is a JSON array of strings.
pub uninterp spec fn json_strings(doc: Seq<char>) -> Option<Seq<Seq<char>>>;

/// The views of a list of strings.
pub open spec fn texts(v: Seq<String>) -> Seq<Seq<char>> {
    v.map_values(|s: String| s@)
}

/// Relies on serde_json::from_str into a `serde_json::Value`: whether the text
/// is read as a document (this refuses malformed text, nesting deeper than
/// serde_json's recursion limit, and numbers it cannot hold).
#[verifier::external_body]
pub(crate) fn is_json(s: &str) -> (r: bool)
    ensures
        r == json_valid(s@),
{
    serde_json::from_str::<serde_json::Value>(s).is_ok()
}

/// Relies on serde_json::from_str into a `serde_json::Value`, then
/// `Value::get` with a string key; the member is returned as its text.
#[verifier::external_body]
pub(crate) fn member_text(doc: &str, key: &str) -> (r: Option<String>)
    ensures
        r matches Some(t) ==> json_member(doc@, key@) == Some(t@),
        r is None ==> json_member(doc@, key@) is None,
{
    serde_json::from_str::<serde_json::Value>(doc).ok().and_then(|v| v.get(key).map(|m| m.to_string()))
}

/// Relies on serde_json::from_str into a `String`.
#[verifier::external_body]
pub(crate) fn string_value(doc: &str) -> (r: Option<String>)
    ensures
        r matches Some(t) ==> json_string(doc@) == Some(t@),
        r is None ==> json_string(doc@) is None,
{
    serde_json::from_str::<String>(doc).ok()
}

/// Relies on serde_json::from_str into a `serde_json::Number`, shown with its `Display`.
#[verifier::external_body]
pub(crate) fn number_text(doc: &str) -> (r: Option<String>)
    ensures
        r matches Some(t) ==> json_number(doc@) == Some(t@),
        r is None ==> json_number(doc@) is None,
{
    serde_json::from_str::<serde_json::Number>(doc).ok().map(|n| n.to_string())
}

/// Relies on serde_json::from_str into a `Vec<serde_json::Value>`; each
/// element is returned as its text.
#[verifier::external_body]
pub(crate) fn item_texts(doc: &str) -> (r: Option<Vec<String>>)
    ensures
        r matches Some(v) ==> json_items(doc@) == Some(texts(v@)),
        r is None ==> json_items(doc@) is None,
{
    serde_json::from_str::<Vec<serde_json::Value>>(doc).ok().map(|v| v.iter().map(|x| x.to_string()).collect())
}

/// Relies on serde_json::from_str into a `Vec<String>`.
#[verifier::external_body]
pub(crate) fn string_list(doc: &str) -> (r: Option<Vec<String>>)
    ensures
        r matches Some(v) ==> json_strings(doc@) == Some(texts(v@)),
        r is None ==> json_strings(doc@) is None,
{
    serde_json::from_str::<Vec<String>>(doc).ok()
}

/// The string stored under `key` in `doc`.
pub open spec fn member_string(doc: Seq<char>, key: Seq<char>) -> Option<Seq<char>> {
    match json_member(doc, key) {
        Some(m) => json_string(m),
        None => None,
    }
}

/// The decimal text of the number stored under `key` in `doc`.
pub open spec fn member_number(doc: Seq<char>, key: Seq<char>) -> Option<Seq<char>> {
    match json_member(doc, key) {
        Some(m) => json_number(m),
        None => None,
    }
}

/// The string stored under `key` in `doc`, if any.
pub fn string_at(doc: &str, key: &str) -> (r: Option<String>)
    ensures
        r matches Some(t) ==> member_string(doc@, key@) == Some(t@),
        r is None ==> member_string(doc@, key@) is None,
{
    match member_text(doc, key) {
        Some(m) => string_value(m.as_str()),
        None => None,
    }
}

/// The decimal text of the number stored under `key` in `doc`, if any.
pub fn number_at(doc: &str, key: &str) -> (r: Option<String>)
    ensures
        r matches Some(t) ==> member_number(doc@, key@) == Some(t@),
        r is None ==> member_number(doc@, key@) is None,
{
    match member_text(doc, key) {
        Some(m) => number_text(m.as_str()),
        None => None,
    }
}

} // verus!

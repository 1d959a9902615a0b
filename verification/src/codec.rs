//! The text codecs that the gateway relies on: JSON through `serde_json`,
//! UTF-8 through `String::from_utf8`. No contract in this file is proved:
//! each function states what the codec is relied on to do, and the JSON ones
//! give the codec's answer a name that the gateway's contracts speak of.

use vstd::prelude::*;
use vstd::utf8::{decode_utf8, valid_utf8};

verus! {

/// The members of the JSON object that `text` denotes: each key with the
/// compact rendering of its value, one entry per key. `None` where `text` is
/// not one JSON object.
pub uninterp spec fn json_members(text: Seq<char>) -> Option<Seq<(Seq<char>, Seq<char>)>>;

/// The compact rendering of the JSON value that `text` denotes; `None` where
/// `text` is not one JSON value.
pub uninterp spec fn json_compact(text: Seq<char>) -> Option<Seq<char>>;

/// The JSON string literal that stands for `text`.
pub uninterp spec fn json_quoted(text: Seq<char>) -> Option<Seq<char>>;

/// The content of the JSON string literal `text`; `None` where `text` is not
/// one JSON string.
pub uninterp spec fn json_unquoted(text: Seq<char>) -> Option<Seq<char>>;

/// The entries of `members` by their views.
pub open spec fn members_view(members: Seq<(String, String)>) -> Seq<(Seq<char>, Seq<char>)> {
    Seq::new(members.len(), |i: int| (members[i].0@, members[i].1@))
}

/// The view of an optional text.
pub open spec fn text_view(text: Option<String>) -> Option<Seq<char>> {
    match text {
        Some(t) => Some(t@),
        None => None,
    }
}

/// Calls `serde_json::from_str` for a `serde_json::Map` and renders each
/// member's value with `serde_json::to_string`. The answer is a function of
/// `text` alone, named `json_members`; a failure of either call gives `None`.
#[verifier::external_body]
pub(crate) fn parse_members(text: &str) -> (r: Option<Vec<(String, String)>>)
    ensures
        match r {
            Some(members) => json_members(text@) == Some(members_view(members@)),
            None => json_members(text@) is None,
        },
{
    let parsed: Result<serde_json::Map<String, serde_json::Value>, serde_json::Error> =
        serde_json::from_str(text);
    match parsed {
        Ok(map) => map.into_iter().map(|(k, v)| serde_json::to_string(&v).map(|t| (k, t))).collect::<
            Result<Vec<(String, String)>, serde_json::Error>,
        >().ok(),
        Err(_) => None,
    }
}

/// Calls `serde_json::from_str` for a `serde_json::Value` and renders the
/// value with `serde_json::to_string`. The answer is a function of `text`
/// alone, named `json_compact`; a failure of either call gives `None`.
#[verifier::external_body]
pub(crate) fn compact(text: &str) -> (r: Option<String>)
    ensures
        text_view(r) == json_compact(text@),
{
    let parsed: Result<serde_json::Value, serde_json::Error> = serde_json::from_str(text);
    match parsed {
        Ok(value) => serde_json::to_string(&value).ok(),
        Err(_) => None,
    }
}

/// Calls `serde_json::to_string` on a string slice: the JSON string literal
/// with the escapes that the codec chooses, named `json_quoted`.
#[verifier::external_body]
pub(crate) fn quote(text: &str) -> (r: Option<String>)
    ensures
        text_view(r) == json_quoted(text@),
{
    serde_json::to_string(text).ok()
}

/// Calls `serde_json::from_str` for a `String`: the content of a JSON string
/// literal, named `json_unquoted`.
#[verifier::external_body]
pub(crate) fn unquote(text: &str) -> (r: Option<String>)
    ensures
        text_view(r) == json_unquoted(text@),
{
    let parsed: Result<String, serde_json::Error> = serde_json::from_str(text);
    parsed.ok()
}

/// Calls `String::from_utf8`: the text that `bytes` encode, or `None` where
/// they are not UTF-8.
#[verifier::external_body]
pub(crate) fn text_of_utf8(bytes: Vec<u8>) -> (r: Option<String>)
    ensures
        match r {
            Some(text) => valid_utf8(bytes@) && text@ == decode_utf8(bytes@),
            None => !valid_utf8(bytes@),
        },
{
    String::from_utf8(bytes).ok()
}

} // verus!

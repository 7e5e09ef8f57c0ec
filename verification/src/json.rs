//! Lists and texts in JSON.
use vstd::prelude::*;

use crate::text::texts_of;

verus! {

/// The list of strings that a JSON text holds, or what `serde_json` says is wrong with it.
pub uninterp spec fn json_strings(text: Seq<char>) -> Result<Seq<Seq<char>>, Seq<char>>;

/// The JSON text that `serde_json` writes for a list of strings.
pub uninterp spec fn json_list(list: Seq<Seq<char>>) -> Seq<char>;

/// The JSON text that `serde_json` writes for a string.
pub uninterp spec fn json_text(text: Seq<char>) -> Seq<char>;

/// A JSON text is read as a list.
pub open spec fn holds_list(text: Seq<char>, list: Seq<Seq<char>>) -> bool {
    json_strings(text) matches Ok(read) && read == list
}

pub open spec fn strings_result(value: Result<Vec<String>, String>) -> Result<
    Seq<Seq<char>>,
    Seq<char>,
> {
    match value {
        Ok(list) => Ok(texts_of(list@)),
        Err(error) => Err(error@),
    }
}

/// Reads a list of strings from JSON.
///
/// Trusted: `serde_json::from_str` into a list of strings, and the `Display` of its error. It
/// is claimed that the outcome depends on the text alone; which texts are such lists is left
/// unsaid.
#[verifier::external_body]
fn outer_json_strings(text: &str) -> (result: Result<Vec<String>, String>)
    ensures
        strings_result(result) == json_strings(text@),
{
    serde_json::from_str::<Vec<String>>(text).map_err(|error| format!("{}", error))
}

/// Writes a list of strings in JSON.
///
/// Trusted: `serde_json::to_string` of a list of strings. It is claimed that there always is a
/// text, that it depends on the list alone, and that it is read as that list again.
#[verifier::external_body]
fn outer_json_list(list: &Vec<String>) -> (result: Option<String>)
    ensures
        result is Some,
        result->0@ == json_list(texts_of(list@)),
        holds_list(result->0@, texts_of(list@)),
{
    serde_json::to_string(list).ok()
}

/// Writes a string in JSON, in quotes.
///
/// Trusted: `serde_json::to_string` of a string. It is claimed that there always is a text and
/// that it depends on the string alone.
#[verifier::external_body]
fn outer_json_text(text: &str) -> (result: Option<String>)
    ensures
        result is Some,
        result->0@ == json_text(text@),
{
    serde_json::to_string(text).ok()
}

/// The list of strings that a JSON text holds, or what is wrong with it.
pub fn read_strings(text: &str) -> (result: Result<Vec<String>, String>)
    ensures
        strings_result(result) == json_strings(text@),
{
    outer_json_strings(text)
}

/// The list that a stored text stands for: none where there is no text, or none that can be
/// read.
pub open spec fn stored_list(json: Option<Seq<char>>) -> Seq<Seq<char>> {
    match json {
        Some(text) => match json_strings(text) {
            Ok(list) => list,
            Err(_) => Seq::empty(),
        },
        None => Seq::empty(),
    }
}

/// The list for what was read from a text.
pub fn list_or_none(read: Option<Result<Vec<String>, String>>) -> (result: Vec<String>)
    ensures
        texts_of(result@) == (match read {
            Some(Ok(list)) => texts_of(list@),
            _ => Seq::empty(),
        }),
{
    match read {
        Some(Ok(list)) => list,
        _ => {
            let none: Vec<String> = Vec::new();
            proof {
                assert(texts_of(none@) =~= Seq::<Seq<char>>::empty());
            }
            none
        },
    }
}

/// The list that a stored text stands for.
pub fn listed_texts(json: Option<&str>) -> (result: Vec<String>)
    ensures
        texts_of(result@) == (match json {
            Some(text) => stored_list(Some(text@)),
            None => stored_list(None),
        }),
{
    match json {
        Some(text) => list_or_none(Some(outer_json_strings(text))),
        None => list_or_none(None),
    }
}

/// The text that a list is stored as; it stands for that list again.
pub fn stored_text(list: &Vec<String>) -> (result: String)
    ensures
        result@ == json_list(texts_of(list@)),
        stored_list(Some(result@)) == texts_of(list@),
{
    outer_json_list(list).unwrap()
}

/// A string in JSON, in quotes.
pub fn quoted(text: &str) -> (result: String)
    ensures
        result@ == json_text(text@),
{
    outer_json_text(text).unwrap()
}

} // verus!

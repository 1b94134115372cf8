//! Encoding of lists of strings for the columns that store them.

use crate::error::LoadError;
use vstd::prelude::*;

verus! {

/// Makes `serde_json::Error` known as an opaque type: an encoder's refusal is
/// carried from the call to the place that turns it into a [`LoadError`], and
/// nothing is read out of it.
#[verifier::external_type_specification]
#[verifier::external_body]
pub struct ExJsonError(serde_json::Error);

/// The JSON text that `serde_json` writes for a list of strings: an array of
/// JSON strings in the order of the list. `None` stands for a list that it
/// declines to encode.
pub uninterp spec fn json_array_text(items: Seq<Seq<char>>) -> Option<Seq<char>>;

/// Calls `serde_json::to_string` on a list of strings.
///
/// Trusted: what comes back is determined by the strings and their order
/// alone. The encoder walks the list once and writes into a buffer in memory;
/// nothing else enters the result, and [`json_array_text`] is the name of that
/// result.
#[verifier::external_body]
pub(crate) fn to_json_array(items: &Vec<String>) -> (r: Result<String, serde_json::Error>)
    ensures
        match r {
            Ok(text) => json_array_text(items.deep_view()) == Some(text@),
            Err(_) => json_array_text(items.deep_view()) is None,
        },
{
    serde_json::to_string(items)
}

/// What an encoding attempt means for the batch: its text, or the failure of
/// the batch.
pub open spec fn encoding_outcome(text: Option<Seq<char>>) -> Result<Seq<char>, LoadError> {
    match text {
        Some(text) => Ok(text),
        None => Err(LoadError::Serialization),
    }
}

/// The text stored for a list: its JSON text.
pub open spec fn list_text(items: Seq<Seq<char>>) -> Result<Seq<char>, LoadError> {
    encoding_outcome(json_array_text(items))
}

/// The column stored for a set: absent for the empty set, never an empty
/// array; else the JSON text of its elements.
pub open spec fn set_column(items: Seq<Seq<char>>) -> Result<Option<Seq<char>>, LoadError> {
    if items.len() == 0 {
        Ok(None)
    } else {
        match list_text(items) {
            Ok(text) => Ok(Some(text)),
            Err(e) => Err(e),
        }
    }
}

/// The column stored for an optional list: absent exactly where the list is;
/// an empty list is stored as an empty array.
pub open spec fn list_column(items: Option<Seq<Seq<char>>>) -> Result<
    Option<Seq<char>>,
    LoadError,
> {
    match items {
        None => Ok(None),
        Some(items) => match list_text(items) {
            Ok(text) => Ok(Some(text)),
            Err(e) => Err(e),
        },
    }
}

/// Turns the encoder's answer into the text to store, or into the error of
/// the batch.
pub fn accept_encoding(encoded: Result<String, serde_json::Error>) -> (r: Result<
    String,
    LoadError,
>)
    ensures
        match encoded {
            Ok(text) => r == Ok::<String, LoadError>(text),
            Err(_) => r == Err::<String, LoadError>(LoadError::Serialization),
        },
{
    match encoded {
        Ok(text) => Ok(text),
        Err(_) => Err(LoadError::Serialization),
    }
}

/// Encodes a list of strings as a JSON array.
pub fn encode_list(items: &Vec<String>) -> (r: Result<String, LoadError>)
    ensures
        match r {
            Ok(text) => list_text(items.deep_view()) == Ok::<Seq<char>, LoadError>(text@),
            Err(e) => list_text(items.deep_view()) == Err::<Seq<char>, LoadError>(e),
        },
{
    accept_encoding(to_json_array(items))
}

/// Encodes a set for its column. The empty set is stored as an absent value
/// and is never handed to the encoder.
pub fn encode_set(items: &Vec<String>) -> (r: Result<Option<String>, LoadError>)
    ensures
        match r {
            Ok(column) => set_column(items.deep_view()) == Ok::<Option<Seq<char>>, LoadError>(
                column.deep_view(),
            ),
            Err(e) => set_column(items.deep_view()) == Err::<Option<Seq<char>>, LoadError>(e),
        },
        items@.len() == 0 ==> r == Ok::<Option<String>, LoadError>(None),
{
    if items.len() == 0 {
        Ok(None)
    } else {
        match encode_list(items) {
            Ok(text) => Ok(Some(text)),
            Err(e) => Err(e),
        }
    }
}

/// Encodes an optional list for its column: absent where the list is.
pub fn encode_optional_list(items: &Option<Vec<String>>) -> (r: Result<Option<String>, LoadError>)
    ensures
        match r {
            Ok(column) => list_column(items.deep_view()) == Ok::<Option<Seq<char>>, LoadError>(
                column.deep_view(),
            ),
            Err(e) => list_column(items.deep_view()) == Err::<Option<Seq<char>>, LoadError>(e),
        },
        items is None ==> r == Ok::<Option<String>, LoadError>(None),
{
    match items {
        None => Ok(None),
        Some(items) => match encode_list(items) {
            Ok(text) => Ok(Some(text)),
            Err(e) => Err(e),
        },
    }
}

} // verus!

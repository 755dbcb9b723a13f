//! The output of function calls as text.
use vstd::prelude::*;

use crate::json::{member_of, parsed, rendered, Json, JsonModel};

verus! {

/// A value as text: the text of a string, and any other value as JSON text.
pub open spec fn plain_text(value: JsonModel) -> Seq<char> {
    match value {
        JsonModel::String(text) => text,
        _ => rendered(value),
    }
}

/// What the `output` member of an envelope is as text; nothing where `value` is no envelope.
pub open spec fn envelope_text(value: JsonModel) -> Option<Seq<char>> {
    match member_of(value, "output"@) {
        Some(inner) => Some(plain_text(inner)),
        None => None,
    }
}

/// The text that stands for the output `text`, where `reading` is what the text reads as:
/// what the envelope holds where it reads as one, else the text itself.
pub open spec fn reading_text(text: Seq<char>, reading: Option<JsonModel>) -> Seq<char> {
    match reading {
        Some(value) => match envelope_text(value) {
            Some(inner) => inner,
            None => text,
        },
        None => text,
    }
}

/// The output of a function call as text.
pub open spec fn output_text(output: JsonModel) -> Seq<char> {
    match output {
        JsonModel::Null => Seq::empty(),
        JsonModel::String(text) => reading_text(text, parsed(text)),
        _ => match envelope_text(output) {
            Some(inner) => inner,
            None => rendered(output),
        },
    }
}

/// Pulls the `output` member out of an envelope such as `{"output": "...", "metadata": {...}}`.
pub fn extract_output_envelope(value: &Json) -> (text: Option<String>)
    ensures
        text.deep_view() == envelope_text(value.deep_view()),
{
    match value.member("output") {
        Some(inner) => match inner {
            Json::String(held) => Some(held.clone()),
            other => Some(other.render()),
        },
        None => None,
    }
}

/// The text that stands for the output `text`, given what the text reads as.
pub fn unwrap_reading(text: &String, reading: &Option<Json>) -> (unwrapped: String)
    ensures
        unwrapped@ == reading_text(text@, reading.deep_view()),
{
    match reading {
        Some(value) => match extract_output_envelope(value) {
            Some(inner) => inner,
            None => text.clone(),
        },
        None => text.clone(),
    }
}

/// Flattens the output of a function call into text.
///
/// A plain text stays as it is. An envelope `{"output": ..., ...}`, sent as a value or as JSON
/// text, gives its `output` member. Any other JSON text stays as it is, and any other value
/// becomes JSON text; `null` becomes the empty text.
pub fn function_output_to_string(output: &Json) -> (text: String)
    ensures
        text@ == output_text(output.deep_view()),
{
    match output {
        Json::Null => String::new(),
        Json::String(held) => {
            let reading = Json::parse(held.as_str());
            unwrap_reading(held, &reading)
        },
        other => match extract_output_envelope(other) {
            Some(inner) => inner,
            None => other.render(),
        },
    }
}

} // verus!

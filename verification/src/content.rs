//! The content of input items in Chat Completions form.
use vstd::prelude::*;

use crate::json::{array, object, set_member, string, Json, JsonModel};
use crate::models::{ContentModel, ContentPart, PartModel, ResponseContent};
use crate::text::{append_line, join, joined, line_below};

verus! {

/// The text that a part shows; nothing for images, files and reasoning.
pub open spec fn part_text(part: PartModel) -> Option<Seq<char>> {
    match part {
        PartModel::InputText { text } => Some(text),
        PartModel::OutputText { text } => Some(text),
        PartModel::ToolOutput { body } => Some(body),
        PartModel::EncryptedContent { encrypted_content } => Some(encrypted_content),
        _ => None,
    }
}

/// `{"type": "text", "text": text}`.
pub open spec fn text_part_model(text: Seq<char>) -> JsonModel {
    JsonModel::Object(
        map![
            "type"@ => JsonModel::String("text"@),
            "text"@ => JsonModel::String(text),
        ],
    )
}

/// `{"type": "image_url", "image_url": {"url": url}}`.
pub open spec fn image_part_model(url: Seq<char>) -> JsonModel {
    JsonModel::Object(
        map![
            "type"@ => JsonModel::String("image_url"@),
            "image_url"@ => JsonModel::Object(map!["url"@ => JsonModel::String(url)]),
        ],
    )
}

/// The Chat Completions form of a part; nothing for files and reasoning.
pub open spec fn part_value(part: PartModel) -> Option<JsonModel> {
    match part {
        PartModel::InputImage { url } => Some(image_part_model(url)),
        _ => match part_text(part) {
            Some(text) => Some(text_part_model(text)),
            None => None,
        },
    }
}

/// The texts that the parts show, in order.
pub open spec fn part_texts(parts: Seq<PartModel>) -> Seq<Seq<char>>
    decreases parts.len(),
{
    if parts.len() == 0 {
        Seq::empty()
    } else {
        match part_text(parts.last()) {
            Some(text) => part_texts(parts.drop_last()).push(text),
            None => part_texts(parts.drop_last()),
        }
    }
}

/// The Chat Completions forms of the parts, in order.
pub open spec fn part_values(parts: Seq<PartModel>) -> Seq<JsonModel>
    decreases parts.len(),
{
    if parts.len() == 0 {
        Seq::empty()
    } else {
        match part_value(parts.last()) {
            Some(value) => part_values(parts.drop_last()).push(value),
            None => part_values(parts.drop_last()),
        }
    }
}

/// The reasoning among the parts, each text on a line of its own.
pub open spec fn part_reasoning(parts: Seq<PartModel>) -> Seq<char>
    decreases parts.len(),
{
    if parts.len() == 0 {
        Seq::empty()
    } else {
        match parts.last() {
            PartModel::Reasoning { text } => line_below(part_reasoning(parts.drop_last()), text),
            _ => part_reasoning(parts.drop_last()),
        }
    }
}

/// Whether an image is among the parts.
pub open spec fn has_image(parts: Seq<PartModel>) -> bool {
    exists|i: int| 0 <= i < parts.len() && #[trigger] parts[i] is InputImage
}

/// Whether a file is among the parts.
pub open spec fn has_file(parts: Seq<PartModel>) -> bool {
    exists|i: int| 0 <= i < parts.len() && #[trigger] parts[i] is InputFile
}

/// Why the content cannot be converted, where it cannot.
pub open spec fn content_error(content: ContentModel) -> Option<Seq<char>> {
    match content {
        ContentModel::Array(parts) if has_file(parts) => Some("input_file_content_not_supported"@),
        _ => None,
    }
}

/// The content in Chat Completions form: one text where texts are all that is shown, else the
/// list of the parts.
pub open spec fn content_value(content: ContentModel) -> JsonModel {
    match content {
        ContentModel::String(text) => JsonModel::String(text),
        ContentModel::Array(parts) => if !has_image(parts) && part_values(parts).len() > 0 {
            JsonModel::String(joined(part_texts(parts), "\n"@))
        } else {
            JsonModel::Array(part_values(parts))
        },
    }
}

/// The reasoning inside the content; nothing where there is none or it is empty.
pub open spec fn content_reasoning(content: ContentModel) -> Option<Seq<char>> {
    match content {
        ContentModel::String(_) => None,
        ContentModel::Array(parts) => if part_reasoning(parts).len() == 0 {
            None
        } else {
            Some(part_reasoning(parts))
        },
    }
}

/// The text of a part in a tool message; nothing for a part that has no place there.
pub open spec fn tool_part_text(part: PartModel) -> Option<Seq<char>> {
    match part {
        PartModel::InputText { text } => Some(text),
        PartModel::OutputText { text } => Some(text),
        PartModel::ToolOutput { body } => Some(body),
        _ => None,
    }
}

/// Whether every part has a place in a tool message.
pub open spec fn all_tool_text(parts: Seq<PartModel>) -> bool {
    forall|i: int| 0 <= i < parts.len() ==> tool_part_text(#[trigger] parts[i]) is Some
}

/// The lines of a tool message.
pub open spec fn tool_lines(parts: Seq<PartModel>) -> Seq<char>
    decreases parts.len(),
{
    if parts.len() == 0 {
        Seq::empty()
    } else {
        match tool_part_text(parts.last()) {
            Some(text) => line_below(tool_lines(parts.drop_last()), text),
            None => tool_lines(parts.drop_last()),
        }
    }
}

/// The body of a tool message with this content.
pub open spec fn tool_body(content: ContentModel) -> Seq<char> {
    match content {
        ContentModel::String(text) => text,
        ContentModel::Array(parts) => tool_lines(parts),
    }
}

/// Why the content cannot be the body of a tool message, where it cannot.
pub open spec fn tool_body_error(content: ContentModel) -> Option<Seq<char>> {
    match content {
        ContentModel::String(_) => None,
        ContentModel::Array(parts) => if !all_tool_text(parts) {
            Some("tool_output_content_not_supported"@)
        } else if tool_lines(parts).len() == 0 {
            Some("tool_output_empty"@)
        } else {
            None
        },
    }
}

/// Builds `{"type": "text", "text": text}`.
pub fn text_part(text: &str) -> (json: Json)
    ensures
        json.deep_view() == text_part_model(text@),
{
    let mut entries: Vec<(String, Json)> = Vec::new();
    assert(entries.deep_view() =~= Seq::empty());
    set_member(&mut entries, "type", string("text"));
    set_member(&mut entries, "text", string(text));
    object(entries)
}

/// Builds `{"type": "image_url", "image_url": {"url": url}}`.
pub fn image_part(url: &str) -> (json: Json)
    ensures
        json.deep_view() == image_part_model(url@),
{
    let mut target: Vec<(String, Json)> = Vec::new();
    assert(target.deep_view() =~= Seq::empty());
    set_member(&mut target, "url", string(url));
    let mut entries: Vec<(String, Json)> = Vec::new();
    assert(entries.deep_view() =~= Seq::empty());
    set_member(&mut entries, "type", string("image_url"));
    set_member(&mut entries, "image_url", object(target));
    object(entries)
}

/// Converts content to its Chat Completions form; the second result is the reasoning found in it.
pub fn convert_response_content(content: &ResponseContent) -> (result: Result<
    (Json, Option<String>),
    String,
>)
    ensures
        match result {
            Ok((value, reasoning)) => {
                &&& content_error(content.deep_view()) is None
                &&& value.deep_view() == content_value(content.deep_view())
                &&& reasoning.deep_view() == content_reasoning(content.deep_view())
            },
            Err(error) => content_error(content.deep_view()) == Some(error@),
        },
{
    match content {
        ResponseContent::String(text) => Ok((string(text.as_str()), None)),
        ResponseContent::Array(parts) => {
            let ghost models = parts.deep_view();
            let mut reasoning_text = String::new();
            let mut converted: Vec<Json> = Vec::new();
            let mut texts: Vec<String> = Vec::new();
            let mut has_images = false;
            let mut i: usize = 0;
            assert(converted.deep_view() =~= Seq::empty());
            assert(texts.deep_view() =~= Seq::empty());
            while i < parts.len()
                invariant
                    i <= parts@.len(),
                    models == parts.deep_view(),
                    content.deep_view() == ContentModel::Array(models),
                    reasoning_text@ == part_reasoning(models.take(i as int)),
                    converted.deep_view() == part_values(models.take(i as int)),
                    texts.deep_view() == part_texts(models.take(i as int)),
                    has_images == has_image(models.take(i as int)),
                    !has_file(models.take(i as int)),
                decreases parts@.len() - i,
            {
                proof {
                    lemma_parts_step(models, i as int);
                }
                let text: Option<&String> = match &parts[i] {
                    ContentPart::InputText { text } => Some(text),
                    ContentPart::OutputText { text } => Some(text),
                    ContentPart::ToolOutput { body } => Some(body),
                    ContentPart::EncryptedContent { encrypted_content } => Some(encrypted_content),
                    ContentPart::InputImage { image_url } => {
                        converted.push(image_part(image_url.url.as_str()));
                        has_images = true;
                        None
                    },
                    ContentPart::InputFile => {
                        return Err("input_file_content_not_supported".to_string());
                    },
                    ContentPart::Reasoning { text } => {
                        append_line(&mut reasoning_text, text.as_str());
                        None
                    },
                };
                if let Some(text) = text {
                    converted.push(text_part(text.as_str()));
                    texts.push(text.clone());
                }
                assert(converted.deep_view() =~= part_values(models.take(i + 1)));
                assert(texts.deep_view() =~= part_texts(models.take(i + 1)));
                i += 1;
            }
            assert(models.take(i as int) =~= models);
            let reasoning = if reasoning_text.as_str().is_empty() {
                None
            } else {
                Some(reasoning_text)
            };
            if !has_images && !converted.is_empty() {
                let text = join(&texts, "\n");
                Ok((Json::String(text), reasoning))
            } else {
                Ok((array(converted), reasoning))
            }
        },
    }
}

/// What one more part adds.
proof fn lemma_parts_step(parts: Seq<PartModel>, i: int)
    requires
        0 <= i < parts.len(),
    ensures
        parts.take(i + 1).drop_last() == parts.take(i),
        parts.take(i + 1).last() == parts[i],
        has_image(parts.take(i + 1)) == (has_image(parts.take(i)) || parts[i] is InputImage),
        has_file(parts.take(i + 1)) == (has_file(parts.take(i)) || parts[i] is InputFile),
        parts[i] is InputFile ==> has_file(parts),
{
    let before = parts.take(i);
    let after = parts.take(i + 1);
    assert(after.drop_last() =~= before);
    assert(after[i] == parts[i]);
    assert forall|j: int| 0 <= j < i implies after[j] == before[j] by {}
    if has_image(before) {
        let j = choose|j: int| 0 <= j < before.len() && #[trigger] before[j] is InputImage;
        assert(after[j] is InputImage);
    }
    if has_file(before) {
        let j = choose|j: int| 0 <= j < before.len() && #[trigger] before[j] is InputFile;
        assert(after[j] is InputFile);
    }
    if has_image(after) && !(parts[i] is InputImage) {
        let j = choose|j: int| 0 <= j < after.len() && #[trigger] after[j] is InputImage;
        assert(before[j] is InputImage);
    }
    if has_file(after) && !(parts[i] is InputFile) {
        let j = choose|j: int| 0 <= j < after.len() && #[trigger] after[j] is InputFile;
        assert(before[j] is InputFile);
    }
}

/// The content of a tool message as plain text.
pub fn extract_tool_message_body(content: &ResponseContent) -> (result: Result<String, String>)
    ensures
        match result {
            Ok(body) => {
                &&& tool_body_error(content.deep_view()) is None
                &&& body@ == tool_body(content.deep_view())
            },
            Err(error) => tool_body_error(content.deep_view()) == Some(error@),
        },
{
    match content {
        ResponseContent::String(text) => Ok(text.clone()),
        ResponseContent::Array(parts) => {
            let ghost models = parts.deep_view();
            let mut combined = String::new();
            let mut i: usize = 0;
            while i < parts.len()
                invariant
                    i <= parts@.len(),
                    models == parts.deep_view(),
                    content.deep_view() == ContentModel::Array(models),
                    all_tool_text(models.take(i as int)),
                    combined@ == tool_lines(models.take(i as int)),
                decreases parts@.len() - i,
            {
                proof {
                    lemma_parts_step(models, i as int);
                    assert(parts[i as int].deep_view() == models[i as int]);
                }
                match &parts[i] {
                    ContentPart::InputText { text } => append_line(&mut combined, text.as_str()),
                    ContentPart::OutputText { text } => append_line(&mut combined, text.as_str()),
                    ContentPart::ToolOutput { body } => append_line(&mut combined, body.as_str()),
                    _ => {
                        assert(tool_part_text(models[i as int]) is None);
                        return Err("tool_output_content_not_supported".to_string());
                    },
                }
                i += 1;
            }
            assert(models.take(i as int) =~= models);
            if combined.as_str().is_empty() {
                Err("tool_output_empty".to_string())
            } else {
                Ok(combined)
            }
        },
    }
}

} // verus!

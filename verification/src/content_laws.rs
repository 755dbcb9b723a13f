//! What holds of the content of every item, and of the output of every call.
use vstd::prelude::*;

use crate::content::{
    content_error, content_reasoning, content_value, has_image, part_reasoning, part_texts,
    part_values, tool_body, tool_body_error, tool_lines,
};
use crate::json::{parsed, rendered, JsonModel};
use crate::models::{ContentModel, PartModel};
use crate::output::output_text;
use crate::text::joined;

verus! {

/// Whether a part is shown to the model as part of the content: texts and images are.
pub open spec fn is_shown(part: PartModel) -> bool {
    match part {
        PartModel::Reasoning { .. } | PartModel::InputFile => false,
        _ => true,
    }
}

/// The text that a part holds.
pub open spec fn held_text(part: PartModel) -> Seq<char> {
    match part {
        PartModel::InputText { text } => text,
        PartModel::OutputText { text } => text,
        PartModel::ToolOutput { body } => body,
        PartModel::EncryptedContent { encrypted_content } => encrypted_content,
        PartModel::Reasoning { text } => text,
        PartModel::InputImage { .. } | PartModel::InputFile => Seq::empty(),
    }
}

/// What a part looks like in a list: `{"type": "image_url", "image_url": {"url": ...}}` for an
/// image, else `{"type": "text", "text": ...}`.
pub open spec fn listed(part: PartModel) -> JsonModel {
    match part {
        PartModel::InputImage { url } => JsonModel::Object(
            map![
                "type"@ => JsonModel::String("image_url"@),
                "image_url"@ => JsonModel::Object(map!["url"@ => JsonModel::String(url)]),
            ],
        ),
        _ => JsonModel::Object(
            map![
                "type"@ => JsonModel::String("text"@),
                "text"@ => JsonModel::String(held_text(part)),
            ],
        ),
    }
}

/// A plain text is passed on as it is, holds no reasoning and can always be converted.
pub proof fn law_plain_text_is_kept(text: Seq<char>)
    ensures
        content_value(ContentModel::String(text)) == JsonModel::String(text),
        content_reasoning(ContentModel::String(text)) is None,
        content_error(ContentModel::String(text)) is None,
{
}

/// Parts are shown in order. Where an image is among them, they become a list of what each looks
/// like; texts alone become one text, a line break between each two; and where nothing is shown,
/// the list is empty. Reasoning is not shown.
pub proof fn law_parts_are_shown_in_order(parts: Seq<PartModel>)
    ensures
        ({
            let shown = parts.filter(|part: PartModel| is_shown(part));
            content_value(ContentModel::Array(parts)) == if exists|i: int|
                0 <= i < parts.len() && #[trigger] parts[i] is InputImage {
                JsonModel::Array(shown.map_values(|part: PartModel| listed(part)))
            } else if shown.len() == 0 {
                JsonModel::Array(Seq::empty())
            } else {
                JsonModel::String(
                    joined(shown.map_values(|part: PartModel| held_text(part)), "\n"@),
                )
            }
        }),
{
    let shown = parts.filter(|part: PartModel| is_shown(part));
    lemma_shown(parts);
    if shown.len() == 0 {
        assert(part_values(parts) =~= Seq::empty());
    }
}

proof fn lemma_shown(parts: Seq<PartModel>)
    ensures
        ({
            let shown = parts.filter(|part: PartModel| is_shown(part));
            &&& part_values(parts) == shown.map_values(|part: PartModel| listed(part))
            &&& !has_image(parts) ==> part_texts(parts) == shown.map_values(
                |part: PartModel| held_text(part),
            )
        }),
    decreases parts.len(),
{
    reveal(Seq::filter);
    let shown = parts.filter(|part: PartModel| is_shown(part));
    if parts.len() == 0 {
        assert(part_values(parts) =~= shown.map_values(|part: PartModel| listed(part)));
        assert(part_texts(parts) =~= shown.map_values(|part: PartModel| held_text(part)));
    } else {
        let fewer = parts.drop_last();
        lemma_shown(fewer);
        if has_image(fewer) {
            let i = choose|i: int| 0 <= i < fewer.len() && #[trigger] fewer[i] is InputImage;
            assert(parts[i] is InputImage);
        }
        assert(part_values(parts) =~= shown.map_values(|part: PartModel| listed(part)));
        if !has_image(parts) {
            assert(!(parts[parts.len() - 1] is InputImage));
            assert(part_texts(parts) =~= shown.map_values(|part: PartModel| held_text(part)));
        }
    }
}

/// Reasoning among the parts is kept in order, each piece on a line of its own; other parts hold
/// none, and empty reasoning counts as none.
pub proof fn law_inline_reasoning_is_kept(parts: Seq<PartModel>, part: PartModel)
    ensures
        content_reasoning(ContentModel::Array(Seq::empty())) is None,
        !(part is Reasoning) ==> content_reasoning(ContentModel::Array(parts.push(part)))
            == content_reasoning(ContentModel::Array(parts)),
        part matches PartModel::Reasoning { text } ==> content_reasoning(
            ContentModel::Array(parts.push(part)),
        ) == match content_reasoning(ContentModel::Array(parts)) {
            Some(earlier) => Some(earlier + seq!['\n'] + text),
            None => if text.len() > 0 {
                Some(text)
            } else {
                None
            },
        },
{
    reveal_strlit("\n");
    assert("\n"@ =~= seq!['\n']);
    assert(parts.push(part).drop_last() =~= parts);
    if part_reasoning(parts).len() == 0 {
        assert(part_reasoning(parts) =~= Seq::empty());
    }
}

/// Content is refused exactly where a file is among its parts.
pub proof fn law_files_are_refused(parts: Seq<PartModel>)
    ensures
        (exists|i: int| 0 <= i < parts.len() && #[trigger] parts[i] is InputFile)
            ==> content_error(ContentModel::Array(parts)) == Some(
            "input_file_content_not_supported"@,
        ),
        (forall|i: int| 0 <= i < parts.len() ==> !(#[trigger] parts[i] is InputFile))
            ==> content_error(ContentModel::Array(parts)) is None,
{
}

/// Whether a part has a place in a tool message.
pub open spec fn is_tool_text(part: PartModel) -> bool {
    part is InputText || part is OutputText || part is ToolOutput
}

/// A plain text is the body of a tool message as it is.
pub proof fn law_tool_text_is_kept(text: Seq<char>)
    ensures
        tool_body(ContentModel::String(text)) == text,
        tool_body_error(ContentModel::String(text)) is None,
{
}

/// Each part adds a line to the body of a tool message: its text stands at the end, behind all
/// that stood there before and, where anything did, a line break. So the text of each part occurs
/// in the body, in the order of the parts.
pub proof fn law_tool_parts_are_lines(parts: Seq<PartModel>, k: int)
    requires
        0 <= k < parts.len(),
        forall|i: int| 0 <= i < parts.len() ==> is_tool_text(#[trigger] parts[i]),
    ensures
        tool_body(ContentModel::Array(Seq::empty())) == Seq::<char>::empty(),
        ({
            let whole = tool_body(ContentModel::Array(parts));
            let before = tool_body(ContentModel::Array(parts.take(k)));
            let through = tool_body(ContentModel::Array(parts.take(k + 1)));
            &&& before.len() == 0 ==> through == held_text(parts[k])
            &&& before.len() > 0 ==> through == before + seq!['\n'] + held_text(parts[k])
            &&& through.len() <= whole.len()
            &&& whole.take(through.len() as int) == through
        }),
    decreases parts.len(),
{
    reveal_strlit("\n");
    assert("\n"@ =~= seq!['\n']);
    assert(parts.take(k + 1).drop_last() =~= parts.take(k));
    assert(parts.take(k + 1).last() == parts[k]);
    if tool_lines(parts.take(k)).len() == 0 {
        assert(tool_lines(parts.take(k)) =~= Seq::empty());
    }
    lemma_lines_grow(parts, k + 1);
}

proof fn lemma_lines_grow(parts: Seq<PartModel>, n: int)
    requires
        0 <= n <= parts.len(),
    ensures
        tool_lines(parts.take(n)).len() <= tool_lines(parts).len(),
        tool_lines(parts).take(tool_lines(parts.take(n)).len() as int) == tool_lines(parts.take(n)),
    decreases parts.len(),
{
    let first = tool_lines(parts.take(n));
    let whole = tool_lines(parts);
    if n == parts.len() {
        assert(parts.take(n) =~= parts);
        assert(whole.take(whole.len() as int) =~= whole);
    } else {
        let fewer = parts.drop_last();
        assert(fewer.take(n) =~= parts.take(n));
        lemma_lines_grow(fewer, n);
        let shorter = tool_lines(fewer);
        assert(shorter.len() <= whole.len() && whole.take(shorter.len() as int) =~= shorter);
        assert(whole.take(first.len() as int) =~= shorter.take(first.len() as int));
    }
}

/// A tool message is refused exactly where a part of another kind is among its parts, or else
/// where no part holds any text.
pub proof fn law_tool_parts_must_be_text(parts: Seq<PartModel>)
    ensures
        (exists|i: int| 0 <= i < parts.len() && !is_tool_text(#[trigger] parts[i]))
            ==> tool_body_error(ContentModel::Array(parts)) == Some(
            "tool_output_content_not_supported"@,
        ),
        (forall|i: int| 0 <= i < parts.len() ==> is_tool_text(#[trigger] parts[i])) ==> {
            &&& (forall|i: int| 0 <= i < parts.len() ==> held_text(#[trigger] parts[i]).len() == 0)
                ==> tool_body_error(ContentModel::Array(parts)) == Some("tool_output_empty"@)
            &&& (exists|i: int| 0 <= i < parts.len() && held_text(#[trigger] parts[i]).len() > 0)
                ==> tool_body_error(ContentModel::Array(parts)) is None
        },
{
    if forall|i: int| 0 <= i < parts.len() ==> is_tool_text(#[trigger] parts[i]) {
        lemma_no_lines(parts);
    }
}

proof fn lemma_no_lines(parts: Seq<PartModel>)
    requires
        forall|i: int| 0 <= i < parts.len() ==> is_tool_text(#[trigger] parts[i]),
    ensures
        tool_lines(parts).len() == 0 <==> forall|i: int|
            0 <= i < parts.len() ==> held_text(#[trigger] parts[i]).len() == 0,
    decreases parts.len(),
{
    if parts.len() > 0 {
        let fewer = parts.drop_last();
        assert forall|i: int| 0 <= i < fewer.len() implies is_tool_text(#[trigger] fewer[i]) by {
            assert(fewer[i] == parts[i]);
        }
        lemma_no_lines(fewer);
        assert(is_tool_text(parts[parts.len() - 1]));
        if tool_lines(parts).len() == 0 {
            assert forall|i: int| 0 <= i < parts.len() implies held_text(#[trigger] parts[i]).len()
                == 0 by {
                if i < fewer.len() {
                    assert(fewer[i] == parts[i]);
                }
            }
        } else if forall|i: int| 0 <= i < parts.len() ==> held_text(#[trigger] parts[i]).len() == 0 {
            assert forall|i: int| 0 <= i < fewer.len() implies held_text(#[trigger] fewer[i]).len()
                == 0 by {
                assert(fewer[i] == parts[i]);
            }
            assert(held_text(parts[parts.len() - 1]).len() == 0);
        }
    }
}

/// The output of a call as text: nothing for `null`; of an object the member `output`, as it is
/// where it is a string, else as JSON text; and JSON text for all other values but strings.
pub proof fn law_values_become_text(output: JsonModel)
    ensures
        output is Null ==> output_text(output) == Seq::<char>::empty(),
        output is Bool || output is Number || output is Array ==> output_text(output) == rendered(
            output,
        ),
        output matches JsonModel::Object(members) ==> output_text(output)
            == if !members.contains_key("output"@) {
            rendered(output)
        } else if members["output"@] is String {
            members["output"@]->String_0
        } else {
            rendered(members["output"@])
        },
{
}

/// A text is the output as it is, unless it reads as an object with the member `output`: then it
/// gives what that object gives.
pub proof fn law_texts_stay_or_unwrap(text: Seq<char>)
    ensures
        output_text(JsonModel::String(text)) == match parsed(text) {
            Some(JsonModel::Object(members)) => if members.contains_key("output"@) {
                output_text(JsonModel::Object(members))
            } else {
                text
            },
            _ => text,
        },
{
}

} // verus!

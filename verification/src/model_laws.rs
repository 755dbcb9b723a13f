//! What the request types mean, field by field.
use vstd::prelude::*;

use crate::json::{Json, JsonModel};
use crate::models::{
    Attachment, ChatFunction, ChatMessage, ChatTool, ContentModel, ContentPart, InputModel,
    ItemModel, PartModel, ResponseContent, ResponseInput, ResponseInputItem, ResponseTool,
    StreamOptions, TextConfig, ToolChoice,
};

verus! {

/// Whether a text stands for an optional string: both are missing, or both hold the same
/// characters.
pub open spec fn same_text(given: Option<String>, meant: Option<Seq<char>>) -> bool {
    match given {
        Some(text) => meant == Some(text@),
        None => meant is None,
    }
}

/// Whether a value stands for an optional JSON value: both are missing, or one is what the other
/// means.
pub open spec fn same_value(given: Option<Json>, meant: Option<JsonModel>) -> bool {
    match given {
        Some(value) => meant == Some(value.deep_view()),
        None => meant is None,
    }
}

/// A part means what it holds.
pub proof fn law_parts_mean_what_they_hold(part: ContentPart)
    ensures
        match part {
            ContentPart::InputText { text } => part.deep_view() == (PartModel::InputText {
                text: text@,
            }),
            ContentPart::OutputText { text } => part.deep_view() == (PartModel::OutputText {
                text: text@,
            }),
            ContentPart::ToolOutput { body } => part.deep_view() == (PartModel::ToolOutput {
                body: body@,
            }),
            ContentPart::EncryptedContent { encrypted_content } => part.deep_view() == (
            PartModel::EncryptedContent { encrypted_content: encrypted_content@ }),
            ContentPart::InputImage { image_url } => part.deep_view() == (PartModel::InputImage {
                url: image_url.url@,
            }),
            ContentPart::InputFile => part.deep_view() == PartModel::InputFile,
            ContentPart::Reasoning { text } => part.deep_view() == (PartModel::Reasoning {
                text: text@,
            }),
        },
{
}

/// Content means its text, or its parts in order.
pub proof fn law_content_means_what_it_holds(content: ResponseContent)
    ensures
        content matches ResponseContent::String(text) ==> content.deep_view()
            == ContentModel::String(text@),
        content matches ResponseContent::Array(parts) ==> {
            &&& content.deep_view() is Array
            &&& content.deep_view()->Array_0.len() == parts@.len()
            &&& forall|i: int|
                0 <= i < parts@.len() ==> #[trigger] content.deep_view()->Array_0[i]
                    == parts@[i].deep_view()
        },
{
}

/// A message item means its role, content, identifier and attachments.
pub proof fn law_message_items_mean_what_they_hold(
    role: String,
    content: ResponseContent,
    tool_call_id: Option<String>,
    attachments: Option<Vec<Attachment>>,
)
    ensures
        ({
            let item = ResponseInputItem::Message { role, content, tool_call_id, attachments };
            &&& item.deep_view() is Message
            &&& item.deep_view()->role == role@
            &&& item.deep_view()->Message_content == content.deep_view()
            &&& same_text(tool_call_id, item.deep_view()->tool_call_id)
            &&& attachments is None <==> item.deep_view()->attachments is None
            &&& attachments matches Some(attached) ==> item.deep_view()->attachments->0.len()
                == attached@.len()
        }),
{
}

/// What another agent says means its author, recipient and content.
pub proof fn law_agent_items_mean_what_they_hold(
    author: Option<String>,
    recipient: Option<String>,
    content: ResponseContent,
)
    ensures
        ({
            let item = ResponseInputItem::AgentMessage { author, recipient, content };
            &&& item.deep_view() is AgentMessage
            &&& same_text(author, item.deep_view()->author)
            &&& same_text(recipient, item.deep_view()->recipient)
            &&& item.deep_view()->AgentMessage_content == content.deep_view()
        }),
{
}

/// A function call means its two identifiers, its name and its arguments.
pub proof fn law_calls_mean_what_they_hold(
    call_id: Option<String>,
    id: Option<String>,
    name: String,
    arguments: Option<String>,
)
    ensures
        ({
            let item = ResponseInputItem::FunctionCall { call_id, id, name, arguments };
            &&& item.deep_view() is FunctionCall
            &&& same_text(call_id, item.deep_view()->FunctionCall_call_id)
            &&& same_text(id, item.deep_view()->FunctionCall_id)
            &&& item.deep_view()->FunctionCall_name == name@
            &&& same_text(arguments, item.deep_view()->arguments)
        }),
{
}

/// The output of a call means its two identifiers, its value and its name.
pub proof fn law_outputs_mean_what_they_hold(
    call_id: Option<String>,
    id: Option<String>,
    output: Json,
    name: Option<String>,
)
    ensures
        ({
            let item = ResponseInputItem::FunctionCallOutput { call_id, id, output, name };
            &&& item.deep_view() is FunctionCallOutput
            &&& same_text(call_id, item.deep_view()->FunctionCallOutput_call_id)
            &&& same_text(id, item.deep_view()->FunctionCallOutput_id)
            &&& item.deep_view()->output == output.deep_view()
            &&& same_text(name, item.deep_view()->FunctionCallOutput_name)
        }),
{
}

/// Reasoning means its text and its encrypted form, and a reference the item that it names.
pub proof fn law_other_items_mean_what_they_hold(
    text: Option<String>,
    encrypted_content: Option<String>,
    id: String,
)
    ensures
        ({
            let item = ResponseInputItem::Reasoning { text, encrypted_content };
            &&& item.deep_view() is Reasoning
            &&& same_text(text, item.deep_view()->text)
            &&& same_text(encrypted_content, item.deep_view()->encrypted_content)
        }),
        (ResponseInputItem::ItemReference { id }).deep_view() == (ItemModel::ItemReference {
            id: id@,
        }),
{
}

/// Input means its text, or its items in order.
pub proof fn law_input_means_what_it_holds(input: ResponseInput)
    ensures
        input matches ResponseInput::String(text) ==> input.deep_view() == InputModel::String(
            text@,
        ),
        input matches ResponseInput::Array(items) ==> {
            &&& input.deep_view() is Array
            &&& input.deep_view()->Array_0.len() == items@.len()
            &&& forall|i: int|
                0 <= i < items@.len() ==> #[trigger] input.deep_view()->Array_0[i]
                    == items@[i].deep_view()
        },
{
}

/// A message means its role, content, name, tool calls in order, and identifier.
pub proof fn law_messages_mean_what_they_hold(message: ChatMessage)
    ensures
        message.deep_view().role == message.role@,
        same_value(message.content, message.deep_view().content),
        same_text(message.name, message.deep_view().name),
        same_text(message.tool_call_id, message.deep_view().tool_call_id),
        message.tool_calls is None ==> message.deep_view().tool_calls is None,
        message.tool_calls matches Some(calls) ==> {
            &&& message.deep_view().tool_calls is Some
            &&& message.deep_view().tool_calls->0.len() == calls@.len()
            &&& forall|i: int|
                0 <= i < calls@.len() ==> #[trigger] message.deep_view().tool_calls->0[i]
                    == calls@[i].deep_view()
        },
{
}

/// A tool means its kind and its function, in either API.
pub proof fn law_tools_mean_what_they_hold(
    declared: ResponseTool,
    type_: String,
    function: ChatFunction,
)
    ensures
        declared.deep_view().type_ == declared.type_@,
        declared.deep_view().function.name == declared.function.name@,
        same_text(declared.function.description, declared.deep_view().function.description),
        same_value(declared.function.parameters, declared.deep_view().function.parameters),
        ({
            let tool = ChatTool::Function { type_, function };
            &&& tool.deep_view().type_ == type_@
            &&& tool.deep_view().function.name == function.name@
            &&& same_text(function.description, tool.deep_view().function.description)
            &&& same_value(function.parameters, tool.deep_view().function.parameters)
        }),
{
}

/// A tool choice means its mode as a string, or the value that it holds; text settings mean their
/// format; and stream options mean their serialized form.
pub proof fn law_settings_mean_what_they_hold(
    choice: ToolChoice,
    text: TextConfig,
    options: StreamOptions,
)
    ensures
        choice matches ToolChoice::String(mode) ==> choice.deep_view() == JsonModel::String(mode@),
        choice matches ToolChoice::Specific(value) ==> choice.deep_view() == value.deep_view(),
        same_value(text.format, text.deep_view()),
        same_value(options.serialized, options.deep_view()),
{
}

} // verus!

//! The request types of both APIs, and what they mean.
//!
//! [`ResponseRequest`] is a request of the Responses API, [`ChatCompletionRequest`] one of the
//! Chat Completions API. Both take the type `F` of their floating-point parameters (`f32` or
//! `f64`), which are only passed on.
use vstd::prelude::*;

use crate::json::{Json, JsonModel};

verus! {

/// A part of the content of an input item.
#[derive(Debug)]
pub enum ContentPart {
    InputText { text: String },
    OutputText { text: String },
    ToolOutput { body: String },
    EncryptedContent { encrypted_content: String },
    InputImage { image_url: ImageUrl },
    InputFile,
    Reasoning { text: String },
}

/// Where an image is found.
#[derive(Debug)]
pub struct ImageUrl {
    pub url: String,
}

/// The content of an input item.
#[derive(Debug)]
pub enum ResponseContent {
    String(String),
    Array(Vec<ContentPart>),
}

/// A file that is attached to a message.
#[derive(Debug)]
pub struct Attachment {
    pub file_id: String,
}

/// An item of the input.
#[derive(Debug)]
#[allow(inconsistent_fields)]
pub enum ResponseInputItem {
    Message {
        role: String,
        content: ResponseContent,
        tool_call_id: Option<String>,
        attachments: Option<Vec<Attachment>>,
    },
    AgentMessage { author: Option<String>, recipient: Option<String>, content: ResponseContent },
    FunctionCall {
        call_id: Option<String>,
        id: Option<String>,
        name: String,
        arguments: Option<String>,
    },
    FunctionCallOutput {
        call_id: Option<String>,
        id: Option<String>,
        output: Json,
        name: Option<String>,
    },
    Reasoning { text: Option<String>, encrypted_content: Option<String> },
    ItemReference { id: String },
}

/// The input of a request.
#[derive(Debug)]
pub enum ResponseInput {
    String(String),
    Array(Vec<ResponseInputItem>),
}

/// The function that a tool offers.
#[derive(Debug)]
pub struct FunctionDef {
    pub name: String,
    pub description: Option<String>,
    pub parameters: Option<Json>,
}

/// A tool as the client declares it.
#[derive(Debug)]
pub struct ResponseTool {
    pub type_: String,
    pub function: FunctionDef,
}

/// Which tool the model is to call.
#[derive(Debug)]
pub enum ToolChoice {
    /// A mode such as `auto`.
    String(String),
    /// A particular tool, in its serialized form.
    Specific(Json),
}

/// The text settings of a request.
#[derive(Debug)]
pub struct TextConfig {
    pub format: Option<Json>,
}

/// The stream options of a request.
#[derive(Debug)]
pub struct StreamOptions {
    /// Their serialized form; `None` where they cannot be serialized.
    pub serialized: Option<Json>,
}

/// A request of the Responses API.
#[derive(Debug)]
pub struct ResponseRequest<F> {
    pub model: Option<String>,
    pub instructions: Option<String>,
    /// Messages in Chat Completions form; `None` for an entry that is no such message.
    pub messages: Option<Vec<Option<ChatMessage>>>,
    pub input: Option<ResponseInput>,
    pub text: Option<TextConfig>,
    pub response_format: Option<Json>,
    pub tools: Option<Vec<ResponseTool>>,
    pub tool_choice: Option<ToolChoice>,
    pub parallel_tool_calls: Option<bool>,
    pub max_output_tokens: Option<u32>,
    pub max_tokens: Option<u32>,
    pub max_completion_tokens: Option<u32>,
    pub temperature: Option<F>,
    pub top_p: Option<F>,
    pub frequency_penalty: Option<F>,
    pub presence_penalty: Option<F>,
    pub logprobs: Option<bool>,
    pub top_logprobs: Option<u32>,
    pub user: Option<String>,
    pub stop: Option<Json>,
    pub seed: Option<i64>,
    pub logit_bias: Option<Json>,
    pub metadata: Option<Json>,
    pub service_tier: Option<String>,
    pub store: Option<bool>,
    pub n: Option<u32>,
    pub stream_options: Option<StreamOptions>,
    pub modalities: Option<Vec<String>>,
    pub prediction: Option<Json>,
    pub reasoning_effort: Option<String>,
    pub verbosity: Option<String>,
    pub safety_identifier: Option<String>,
    pub prompt_cache_key: Option<String>,
    pub web_search_options: Option<Json>,
    pub function_call: Option<Json>,
    pub functions: Option<Vec<Json>>,
}

/// A message of the Chat Completions API.
#[derive(Debug)]
pub struct ChatMessage {
    pub role: String,
    pub content: Option<Json>,
    pub name: Option<String>,
    pub tool_calls: Option<Vec<Json>>,
    pub tool_call_id: Option<String>,
}

/// The function of a [`ChatTool`].
#[derive(Debug)]
pub struct ChatFunction {
    pub name: String,
    pub description: Option<String>,
    pub parameters: Option<Json>,
}

/// A tool of the Chat Completions API.
#[derive(Debug)]
pub enum ChatTool {
    Function { type_: String, function: ChatFunction },
}

/// A request of the Chat Completions API.
#[derive(Debug)]
pub struct ChatCompletionRequest<F> {
    pub model: String,
    pub messages: Vec<ChatMessage>,
    pub max_tokens: Option<u32>,
    pub temperature: Option<F>,
    pub top_p: Option<F>,
    pub response_format: Option<Json>,
    pub tools: Option<Vec<ChatTool>>,
    pub tool_choice: Option<Json>,
    pub parallel_tool_calls: Option<bool>,
    pub user: Option<String>,
    pub logprobs: Option<bool>,
    pub top_logprobs: Option<u32>,
    pub stream: bool,
    pub stop: Option<Json>,
    pub frequency_penalty: Option<F>,
    pub presence_penalty: Option<F>,
    pub seed: Option<i64>,
    pub logit_bias: Option<Json>,
    pub metadata: Option<Json>,
    pub service_tier: Option<String>,
    pub store: Option<bool>,
    pub n: Option<u32>,
    pub stream_options: Option<Json>,
    pub max_completion_tokens: Option<u32>,
    pub modalities: Option<Vec<String>>,
    pub prediction: Option<Json>,
    pub reasoning_effort: Option<String>,
    pub verbosity: Option<String>,
    pub safety_identifier: Option<String>,
    pub prompt_cache_key: Option<String>,
    pub web_search_options: Option<Json>,
    pub function_call: Option<Json>,
    pub functions: Option<Vec<Json>>,
}

/// What a [`ContentPart`] means.
#[verifier::ext_equal]
pub enum PartModel {
    InputText { text: Seq<char> },
    OutputText { text: Seq<char> },
    ToolOutput { body: Seq<char> },
    EncryptedContent { encrypted_content: Seq<char> },
    InputImage { url: Seq<char> },
    InputFile,
    Reasoning { text: Seq<char> },
}

impl DeepView for ContentPart {
    type V = PartModel;

    open spec fn deep_view(&self) -> PartModel {
        match self {
            ContentPart::InputText { text } => PartModel::InputText { text: text@ },
            ContentPart::OutputText { text } => PartModel::OutputText { text: text@ },
            ContentPart::ToolOutput { body } => PartModel::ToolOutput { body: body@ },
            ContentPart::EncryptedContent { encrypted_content } => PartModel::EncryptedContent {
                encrypted_content: encrypted_content@,
            },
            ContentPart::InputImage { image_url } => PartModel::InputImage { url: image_url.url@ },
            ContentPart::InputFile => PartModel::InputFile,
            ContentPart::Reasoning { text } => PartModel::Reasoning { text: text@ },
        }
    }
}

/// What a [`ResponseContent`] means.
#[verifier::ext_equal]
pub enum ContentModel {
    String(Seq<char>),
    Array(Seq<PartModel>),
}

impl DeepView for ResponseContent {
    type V = ContentModel;

    open spec fn deep_view(&self) -> ContentModel {
        match self {
            ResponseContent::String(text) => ContentModel::String(text@),
            ResponseContent::Array(parts) => ContentModel::Array(parts.deep_view()),
        }
    }
}

impl DeepView for Attachment {
    type V = Seq<char>;

    open spec fn deep_view(&self) -> Seq<char> {
        self.file_id@
    }
}

/// What a [`ResponseInputItem`] means.
#[verifier::ext_equal]
#[allow(inconsistent_fields)]
pub enum ItemModel {
    Message {
        role: Seq<char>,
        content: ContentModel,
        tool_call_id: Option<Seq<char>>,
        attachments: Option<Seq<Seq<char>>>,
    },
    AgentMessage {
        author: Option<Seq<char>>,
        recipient: Option<Seq<char>>,
        content: ContentModel,
    },
    FunctionCall {
        call_id: Option<Seq<char>>,
        id: Option<Seq<char>>,
        name: Seq<char>,
        arguments: Option<Seq<char>>,
    },
    FunctionCallOutput {
        call_id: Option<Seq<char>>,
        id: Option<Seq<char>>,
        output: JsonModel,
        name: Option<Seq<char>>,
    },
    Reasoning { text: Option<Seq<char>>, encrypted_content: Option<Seq<char>> },
    ItemReference { id: Seq<char> },
}

impl DeepView for ResponseInputItem {
    type V = ItemModel;

    open spec fn deep_view(&self) -> ItemModel {
        match self {
            ResponseInputItem::Message { role, content, tool_call_id, attachments } =>
                ItemModel::Message {
                    role: role@,
                    content: content.deep_view(),
                    tool_call_id: tool_call_id.deep_view(),
                    attachments: attachments.deep_view(),
                },
            ResponseInputItem::AgentMessage { author, recipient, content } =>
                ItemModel::AgentMessage {
                    author: author.deep_view(),
                    recipient: recipient.deep_view(),
                    content: content.deep_view(),
                },
            ResponseInputItem::FunctionCall { call_id, id, name, arguments } =>
                ItemModel::FunctionCall {
                    call_id: call_id.deep_view(),
                    id: id.deep_view(),
                    name: name@,
                    arguments: arguments.deep_view(),
                },
            ResponseInputItem::FunctionCallOutput { call_id, id, output, name } =>
                ItemModel::FunctionCallOutput {
                    call_id: call_id.deep_view(),
                    id: id.deep_view(),
                    output: output.deep_view(),
                    name: name.deep_view(),
                },
            ResponseInputItem::Reasoning { text, encrypted_content } => ItemModel::Reasoning {
                text: text.deep_view(),
                encrypted_content: encrypted_content.deep_view(),
            },
            ResponseInputItem::ItemReference { id } => ItemModel::ItemReference { id: id@ },
        }
    }
}

/// What a [`ResponseInput`] means.
#[verifier::ext_equal]
pub enum InputModel {
    String(Seq<char>),
    Array(Seq<ItemModel>),
}

impl DeepView for ResponseInput {
    type V = InputModel;

    open spec fn deep_view(&self) -> InputModel {
        match self {
            ResponseInput::String(text) => InputModel::String(text@),
            ResponseInput::Array(items) => InputModel::Array(items.deep_view()),
        }
    }
}

/// What a [`ChatMessage`] means.
#[verifier::ext_equal]
pub struct MessageModel {
    pub role: Seq<char>,
    pub content: Option<JsonModel>,
    pub name: Option<Seq<char>>,
    pub tool_calls: Option<Seq<JsonModel>>,
    pub tool_call_id: Option<Seq<char>>,
}

impl DeepView for ChatMessage {
    type V = MessageModel;

    open spec fn deep_view(&self) -> MessageModel {
        MessageModel {
            role: self.role@,
            content: self.content.deep_view(),
            name: self.name.deep_view(),
            tool_calls: self.tool_calls.deep_view(),
            tool_call_id: self.tool_call_id.deep_view(),
        }
    }
}

/// What the function of a tool means, in either API.
#[verifier::ext_equal]
pub struct FunctionModel {
    pub name: Seq<char>,
    pub description: Option<Seq<char>>,
    pub parameters: Option<JsonModel>,
}

impl DeepView for FunctionDef {
    type V = FunctionModel;

    open spec fn deep_view(&self) -> FunctionModel {
        FunctionModel {
            name: self.name@,
            description: self.description.deep_view(),
            parameters: self.parameters.deep_view(),
        }
    }
}

impl DeepView for ChatFunction {
    type V = FunctionModel;

    open spec fn deep_view(&self) -> FunctionModel {
        FunctionModel {
            name: self.name@,
            description: self.description.deep_view(),
            parameters: self.parameters.deep_view(),
        }
    }
}

/// What a tool means, in either API.
#[verifier::ext_equal]
pub struct ToolModel {
    pub type_: Seq<char>,
    pub function: FunctionModel,
}

impl DeepView for ResponseTool {
    type V = ToolModel;

    open spec fn deep_view(&self) -> ToolModel {
        ToolModel { type_: self.type_@, function: self.function.deep_view() }
    }
}

impl DeepView for ChatTool {
    type V = ToolModel;

    open spec fn deep_view(&self) -> ToolModel {
        match self {
            ChatTool::Function { type_, function } => ToolModel {
                type_: type_@,
                function: function.deep_view(),
            },
        }
    }
}

impl DeepView for ToolChoice {
    type V = JsonModel;

    open spec fn deep_view(&self) -> JsonModel {
        match self {
            ToolChoice::String(mode) => JsonModel::String(mode@),
            ToolChoice::Specific(choice) => choice.deep_view(),
        }
    }
}

impl DeepView for TextConfig {
    type V = Option<JsonModel>;

    open spec fn deep_view(&self) -> Option<JsonModel> {
        self.format.deep_view()
    }
}

impl DeepView for StreamOptions {
    type V = Option<JsonModel>;

    open spec fn deep_view(&self) -> Option<JsonModel> {
        self.serialized.deep_view()
    }
}

impl<F> Default for ResponseRequest<F> {
    /// A request in which nothing is set.
    fn default() -> (req: Self)
        ensures
            req.model is None,
            req.instructions is None,
            req.messages is None,
            req.input is None,
            req.text is None,
            req.response_format is None,
            req.tools is None,
            req.tool_choice is None,
            req.parallel_tool_calls is None,
            req.max_output_tokens is None,
            req.max_tokens is None,
            req.max_completion_tokens is None,
            req.temperature is None,
            req.top_p is None,
            req.frequency_penalty is None,
            req.presence_penalty is None,
            req.logprobs is None,
            req.top_logprobs is None,
            req.user is None,
            req.stop is None,
            req.seed is None,
            req.logit_bias is None,
            req.metadata is None,
            req.service_tier is None,
            req.store is None,
            req.n is None,
            req.stream_options is None,
            req.modalities is None,
            req.prediction is None,
            req.reasoning_effort is None,
            req.verbosity is None,
            req.safety_identifier is None,
            req.prompt_cache_key is None,
            req.web_search_options is None,
            req.function_call is None,
            req.functions is None,
    {
        ResponseRequest {
            model: None,
            instructions: None,
            messages: None,
            input: None,
            text: None,
            response_format: None,
            tools: None,
            tool_choice: None,
            parallel_tool_calls: None,
            max_output_tokens: None,
            max_tokens: None,
            max_completion_tokens: None,
            temperature: None,
            top_p: None,
            frequency_penalty: None,
            presence_penalty: None,
            logprobs: None,
            top_logprobs: None,
            user: None,
            stop: None,
            seed: None,
            logit_bias: None,
            metadata: None,
            service_tier: None,
            store: None,
            n: None,
            stream_options: None,
            modalities: None,
            prediction: None,
            reasoning_effort: None,
            verbosity: None,
            safety_identifier: None,
            prompt_cache_key: None,
            web_search_options: None,
            function_call: None,
            functions: None,
        }
    }
}

impl Clone for ChatMessage {
    fn clone(&self) -> (copy: Self)
        ensures
            copy.deep_view() == self.deep_view(),
    {
        ChatMessage {
            role: self.role.clone(),
            content: self.content.clone(),
            name: self.name.clone(),
            tool_calls: copy_values(&self.tool_calls),
            tool_call_id: self.tool_call_id.clone(),
        }
    }
}

/// A copy of a list of values, if there is one.
pub fn copy_values(values: &Option<Vec<Json>>) -> (copy: Option<Vec<Json>>)
    ensures
        copy.deep_view() == values.deep_view(),
{
    match values {
        Some(given) => {
            let copy = given.clone();
            assert(copy.deep_view() =~= given.deep_view());
            Some(copy)
        },
        None => None,
    }
}

/// A copy of a list of texts, if there is one.
pub fn copy_texts(texts: &Option<Vec<String>>) -> (copy: Option<Vec<String>>)
    ensures
        copy.deep_view() == texts.deep_view(),
{
    match texts {
        Some(given) => {
            let copy = given.clone();
            assert(copy.deep_view() =~= given.deep_view());
            Some(copy)
        },
        None => None,
    }
}

impl ResponseTool {
    /// The kind of the tool.
    pub fn type_(&self) -> (kind: &str)
        ensures
            kind@ == self.deep_view().type_,
    {
        self.type_.as_str()
    }

    /// The function that the tool offers.
    pub fn function_def(&self) -> (function: &FunctionDef)
        ensures
            function.deep_view() == self.deep_view().function,
    {
        &self.function
    }
}

} // verus!

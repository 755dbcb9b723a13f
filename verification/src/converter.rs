//! Conversion of a Responses API request to a Chat Completions request.
use vstd::prelude::*;

use crate::conversation::{
    conversation_messages, convert_items, first_of, items_error, plain_message,
};
use crate::json::{object, set_member, Json, JsonModel};
use crate::models::{
    copy_texts, copy_values, ChatCompletionRequest, ChatFunction, ChatMessage, ChatTool,
    InputModel, MessageModel, ResponseInput, ResponseRequest, ResponseTool, StreamOptions,
    ToolChoice, ToolModel,
};
use crate::text::text_eq;

verus! {

/// How tools are called by a model with native tool calls.
pub const NATIVE_TOOL_OVERRIDE: &'static str = "\n\n---\n\nIMPORTANT: Tool Calling Format Override\n\
When calling functions/tools, you MUST use the standard OpenAI Chat Completions JSON format, NOT any XML or custom syntax. \
The system will automatically handle tool execution. Never output tool calls as text - use the native function calling mechanism.";

/// How tools are called by a model without native tool calls.
pub const XML_TOOL_OVERRIDE: &'static str = "\n\n---\n\nIMPORTANT: Tool Calling Format Override\n\
To call a function, you MUST use the following XML format:\n\
<function=function_name>\n\
<parameter=param_name>value</parameter>\n\
...\n\
</function>\n\
\n\
Do not use JSON tool calls. Use the XML format above.";

/// How a model should work with files.
pub const FILE_OPS_GUIDANCE: &'static str = "\n\nFile Operation Best Practices:\n\
- Use relative paths (e.g. 'test.py', 'src/main.rs') for files in the workspace\n\
- Read each file ONCE before editing - do not re-read files you've already successfully read\n\
- After receiving file contents from read_file, proceed directly to editing without redundant reads\n\
- For apply_patch, include 3-5 lines of surrounding context for reliable matching\n\
- Never announce \"I will read the file\" after you've already read it - just use the content you received";

/// The text in an option; nothing counts as empty text.
pub open spec fn text_or_empty(text: Option<Seq<char>>) -> Seq<char> {
    match text {
        Some(text) => text,
        None => Seq::empty(),
    }
}

/// The system instructions: those of the client, and, where tools are given, how to call tools and
/// to work with files.
pub open spec fn system_text(
    instructions: Option<Seq<char>>,
    tools_given: bool,
    supports_native_tools: bool,
) -> Seq<char> {
    if !tools_given {
        text_or_empty(instructions)
    } else if supports_native_tools {
        text_or_empty(instructions) + NATIVE_TOOL_OVERRIDE@ + FILE_OPS_GUIDANCE@
    } else {
        text_or_empty(instructions) + XML_TOOL_OVERRIDE@ + FILE_OPS_GUIDANCE@
    }
}

/// A system message with the given text; none for empty text.
pub open spec fn system_messages(text: Seq<char>) -> Seq<MessageModel> {
    if text.len() == 0 {
        Seq::empty()
    } else {
        seq![plain_message("system"@, JsonModel::String(text), None)]
    }
}

/// What is present among some options, in order.
pub open spec fn present<T>(options: Seq<Option<T>>) -> Seq<T>
    decreases options.len(),
{
    if options.len() == 0 {
        Seq::empty()
    } else {
        match options.last() {
            Some(value) => present(options.drop_last()).push(value),
            None => present(options.drop_last()),
        }
    }
}

/// The messages that the client gave in Chat Completions form.
pub open spec fn given_messages(messages: Option<Seq<Option<MessageModel>>>) -> Seq<MessageModel> {
    match messages {
        Some(options) => present(options),
        None => Seq::empty(),
    }
}

/// The given messages followed by those that the input makes up.
pub open spec fn input_messages(
    messages: Seq<MessageModel>,
    input: Option<InputModel>,
) -> Seq<MessageModel> {
    match input {
        Some(InputModel::String(text)) => messages.push(
            plain_message("user"@, JsonModel::String(text), None),
        ),
        Some(InputModel::Array(items)) => conversation_messages(messages, items),
        None => messages,
    }
}

/// All messages of the converted request: the system message, the given messages, the input.
pub open spec fn request_messages<F>(
    req: ResponseRequest<F>,
    supports_native_tools: bool,
) -> Seq<MessageModel> {
    input_messages(
        system_messages(
            system_text(req.instructions.deep_view(), req.tools is Some, supports_native_tools),
        ) + given_messages(req.messages.deep_view()),
        req.input.deep_view(),
    )
}

/// Why a request cannot be converted, where it cannot.
pub open spec fn conversion_error<F>(req: ResponseRequest<F>) -> Option<Seq<char>> {
    if req.model is None {
        Some("Model is required"@)
    } else {
        match req.input.deep_view() {
            Some(InputModel::Array(items)) => items_error(items),
            _ => None,
        }
    }
}

/// The log probability settings. A count of zero asks for nothing, a count alone asks for log
/// probabilities too, and log probabilities without a count are those of five tokens.
pub open spec fn chat_logprobs(logprobs: Option<bool>, top_logprobs: Option<u32>) -> (
    Option<bool>,
    Option<u32>,
) {
    if top_logprobs == Some(0u32) {
        (None, None)
    } else if top_logprobs is Some {
        (Some(true), top_logprobs)
    } else if logprobs == Some(true) {
        (Some(true), Some(5u32))
    } else {
        (None, None)
    }
}

/// The tools that are functions, in order.
pub open spec fn function_tools(tools: Seq<ToolModel>) -> Seq<ToolModel>
    decreases tools.len(),
{
    if tools.len() == 0 {
        Seq::empty()
    } else if tools.last().type_ == "function"@ {
        function_tools(tools.drop_last()).push(tools.last())
    } else {
        function_tools(tools.drop_last())
    }
}

/// The tools of the converted request: the functions among those given, if there are any.
pub open spec fn chat_tools(tools: Option<Seq<ToolModel>>) -> Option<Seq<ToolModel>> {
    match tools {
        Some(given) if function_tools(given).len() > 0 => Some(function_tools(given)),
        _ => None,
    }
}

/// The response format: that of the text settings, else that of the request.
pub open spec fn chat_response_format<F>(req: ResponseRequest<F>) -> Option<JsonModel> {
    first_of(
        match req.text.deep_view() {
            Some(format) => format,
            None => None,
        },
        req.response_format.deep_view(),
    )
}

/// The stream options: those given, `{}` where they cannot be serialized, and
/// `{"include_usage": true}` where none are given.
pub open spec fn chat_stream_options(options: Option<Option<JsonModel>>) -> JsonModel {
    match options {
        Some(Some(serialized)) => serialized,
        Some(None) => JsonModel::Object(Map::empty()),
        None => JsonModel::Object(map!["include_usage"@ => JsonModel::Bool(true)]),
    }
}

/// Whether `chat` is the conversion of `req`.
pub open spec fn is_conversion<F>(
    req: ResponseRequest<F>,
    supports_native_tools: bool,
    chat: ChatCompletionRequest<F>,
) -> bool {
    &&& Some(chat.model@) == req.model.deep_view()
    &&& chat.messages.deep_view() == request_messages(req, supports_native_tools)
    &&& chat.max_tokens == first_of(req.max_output_tokens, req.max_tokens)
    &&& chat.temperature == req.temperature
    &&& chat.top_p == req.top_p
    &&& chat.response_format.deep_view() == chat_response_format(req)
    &&& chat.tools.deep_view() == chat_tools(req.tools.deep_view())
    &&& chat.tool_choice.deep_view() == req.tool_choice.deep_view()
    &&& chat.parallel_tool_calls == req.parallel_tool_calls
    &&& chat.user.deep_view() == req.user.deep_view()
    &&& (chat.logprobs, chat.top_logprobs) == chat_logprobs(req.logprobs, req.top_logprobs)
    &&& chat.stream
    &&& chat.stop.deep_view() == req.stop.deep_view()
    &&& chat.frequency_penalty == req.frequency_penalty
    &&& chat.presence_penalty == req.presence_penalty
    &&& chat.seed == req.seed
    &&& chat.logit_bias.deep_view() == req.logit_bias.deep_view()
    &&& chat.metadata.deep_view() == req.metadata.deep_view()
    &&& chat.service_tier.deep_view() == req.service_tier.deep_view()
    &&& chat.store == req.store
    &&& chat.n == req.n
    &&& chat.stream_options.deep_view() == Some(chat_stream_options(req.stream_options.deep_view()))
    &&& chat.max_completion_tokens == req.max_completion_tokens
    &&& chat.modalities.deep_view() == req.modalities.deep_view()
    &&& chat.prediction.deep_view() == req.prediction.deep_view()
    &&& chat.reasoning_effort.deep_view() == req.reasoning_effort.deep_view()
    &&& chat.verbosity.deep_view() == req.verbosity.deep_view()
    &&& chat.safety_identifier.deep_view() == req.safety_identifier.deep_view()
    &&& chat.prompt_cache_key.deep_view() == req.prompt_cache_key.deep_view()
    &&& chat.web_search_options.deep_view() == req.web_search_options.deep_view()
    &&& chat.function_call.deep_view() == req.function_call.deep_view()
    &&& chat.functions.deep_view() == req.functions.deep_view()
}

/// The status of a response whose generation finished for the given reason.
pub open spec fn finish_status(finish_reason: Option<Seq<char>>) -> Seq<char> {
    match finish_reason {
        Some(reason) => if reason == "length"@ {
            "incomplete"@
        } else if reason == "content_filter"@ {
            "failed"@
        } else {
            "completed"@
        },
        None => "in_progress"@,
    }
}

/// Builds the system instructions.
fn system_instructions(
    instructions: &Option<String>,
    tools_given: bool,
    supports_native_tools: bool,
) -> (text: String)
    ensures
        text@ == system_text(instructions.deep_view(), tools_given, supports_native_tools),
{
    let mut text = match instructions {
        Some(given) => given.clone(),
        None => String::new(),
    };
    if tools_given {
        if supports_native_tools {
            text.append(NATIVE_TOOL_OVERRIDE);
        } else {
            text.append(XML_TOOL_OVERRIDE);
        }
        text.append(FILE_OPS_GUIDANCE);
    }
    text
}

/// The messages before the input: the system message and the given messages.
fn leading_messages(text: String, given: &Option<Vec<Option<ChatMessage>>>) -> (messages: Vec<
    ChatMessage,
>)
    ensures
        messages.deep_view() == system_messages(text@) + given_messages(given.deep_view()),
{
    let ghost system = system_messages(text@);
    let mut messages: Vec<ChatMessage> = Vec::new();
    if !text.as_str().is_empty() {
        messages.push(
            ChatMessage {
                role: "system".to_string(),
                content: Some(Json::String(text)),
                name: None,
                tool_calls: None,
                tool_call_id: None,
            },
        );
    }
    assert(messages.deep_view() =~= system);
    if let Some(options) = given {
        let ghost models = options.deep_view();
        let mut i: usize = 0;
        assert(messages.deep_view() =~= system + present(models.take(0)));
        while i < options.len()
            invariant
                i <= options@.len(),
                models == options.deep_view(),
                messages.deep_view() == system + present(models.take(i as int)),
            decreases options@.len() - i,
        {
            let ghost before = messages.deep_view();
            proof {
                assert(models.take(i + 1).drop_last() =~= models.take(i as int));
                assert(models.take(i + 1).last() == options@[i as int].deep_view());
            }
            if let Some(message) = &options[i] {
                let copy = message.clone();
                messages.push(copy);
                assert(messages.deep_view() =~= before.push(message.deep_view()));
            }
            assert(messages.deep_view() =~= system + present(models.take(i + 1)));
            i += 1;
        }
        assert(models.take(i as int) =~= models);
    }
    assert(messages.deep_view() =~= system + given_messages(given.deep_view()));
    messages
}

/// The function tools in Chat Completions form.
fn convert_tools(tools: &Option<Vec<ResponseTool>>) -> (converted: Option<Vec<ChatTool>>)
    ensures
        converted.deep_view() == chat_tools(tools.deep_view()),
{
    let mut functions: Vec<ChatTool> = Vec::new();
    assert(functions.deep_view() =~= Seq::empty());
    if let Some(given) = tools {
        let ghost models = given.deep_view();
        let mut i: usize = 0;
        while i < given.len()
            invariant
                i <= given@.len(),
                models == given.deep_view(),
                functions.deep_view() == function_tools(models.take(i as int)),
            decreases given@.len() - i,
        {
            let ghost before = functions.deep_view();
            let tool = &given[i];
            proof {
                assert(models.take(i + 1).drop_last() =~= models.take(i as int));
                assert(models.take(i + 1).last() == tool.deep_view());
            }
            if text_eq(tool.type_(), "function") {
                let function = tool.function_def();
                functions.push(
                    ChatTool::Function {
                        type_: "function".to_string(),
                        function: ChatFunction {
                            name: function.name.clone(),
                            description: function.description.clone(),
                            parameters: function.parameters.clone(),
                        },
                    },
                );
                assert(functions.deep_view() =~= before.push(tool.deep_view()));
            }
            i += 1;
        }
        assert(models.take(i as int) =~= models);
    }
    if functions.is_empty() {
        None
    } else {
        Some(functions)
    }
}

/// The log probability settings in Chat Completions form.
pub fn convert_logprobs(logprobs: Option<bool>, top_logprobs: Option<u32>) -> (converted: (
    Option<bool>,
    Option<u32>,
))
    ensures
        converted == chat_logprobs(logprobs, top_logprobs),
{
    match (logprobs, top_logprobs) {
        (_, Some(0)) => (None, None),
        (Some(true), Some(value)) => (Some(true), Some(value)),
        (Some(true), None) => (Some(true), Some(5)),
        (_, Some(value)) => (Some(true), Some(value)),
        (_, None) => (None, None),
    }
}

/// The tool choice as a value.
fn convert_tool_choice(choice: &Option<ToolChoice>) -> (converted: Option<Json>)
    ensures
        converted.deep_view() == choice.deep_view(),
{
    match choice {
        Some(ToolChoice::String(mode)) => Some(Json::String(mode.clone())),
        Some(ToolChoice::Specific(value)) => Some(value.clone()),
        None => None,
    }
}

/// The stream options as a value.
fn convert_stream_options(options: &Option<StreamOptions>) -> (converted: Json)
    ensures
        converted.deep_view() == chat_stream_options(options.deep_view()),
{
    match options {
        Some(given) => match &given.serialized {
            Some(value) => value.clone(),
            None => {
                let entries: Vec<(String, Json)> = Vec::new();
                assert(entries.deep_view() =~= Seq::empty());
                object(entries)
            },
        },
        None => {
            let mut entries: Vec<(String, Json)> = Vec::new();
            assert(entries.deep_view() =~= Seq::empty());
            set_member(&mut entries, "include_usage", Json::Bool(true));
            object(entries)
        },
    }
}

/// The response format of the converted request.
fn convert_response_format<F>(req: &ResponseRequest<F>) -> (format: Option<Json>)
    ensures
        format.deep_view() == chat_response_format(*req),
{
    if let Some(text) = &req.text {
        if text.format.is_some() {
            return text.format.clone();
        }
    }
    req.response_format.clone()
}

/// Converts a Responses API request to a Chat Completions request.
///
/// The messages are the system message, the messages given in Chat Completions form, and those that
/// the input makes up. Only function tools are passed on. The converted request always streams.
/// It fails where no model is named, and with the error of the first input item that cannot be
/// converted.
pub fn convert_to_chat_completions<F: Copy>(
    req: &ResponseRequest<F>,
    supports_native_tools: bool,
) -> (result: Result<ChatCompletionRequest<F>, String>)
    ensures
        match result {
            Ok(chat) => {
                &&& conversion_error(*req) is None
                &&& is_conversion(*req, supports_native_tools, chat)
            },
            Err(error) => conversion_error(*req) == Some(error@),
        },
{
    let model = match &req.model {
        Some(model) => model.clone(),
        None => return Err("Model is required".to_string()),
    };
    let system = system_instructions(
        &req.instructions,
        req.tools.is_some(),
        supports_native_tools,
    );
    let mut messages = leading_messages(system, &req.messages);
    let ghost leading = messages.deep_view();
    if let Some(input) = &req.input {
        match input {
            ResponseInput::String(text) => {
                messages.push(
                    ChatMessage {
                        role: "user".to_string(),
                        content: Some(Json::String(text.clone())),
                        name: None,
                        tool_calls: None,
                        tool_call_id: None,
                    },
                );
                assert(messages.deep_view() =~= input_messages(leading, req.input.deep_view()));
            },
            ResponseInput::Array(items) => {
                messages = match convert_items(messages, items) {
                    Ok(all) => all,
                    Err(error) => return Err(error),
                };
            },
        }
    }
    let (logprobs, top_logprobs) = convert_logprobs(req.logprobs, req.top_logprobs);
    let max_tokens = match req.max_output_tokens {
        Some(limit) => Some(limit),
        None => req.max_tokens,
    };
    Ok(
        ChatCompletionRequest {
            model,
            messages,
            max_tokens,
            temperature: req.temperature,
            top_p: req.top_p,
            response_format: convert_response_format(req),
            tools: convert_tools(&req.tools),
            tool_choice: convert_tool_choice(&req.tool_choice),
            parallel_tool_calls: req.parallel_tool_calls,
            user: req.user.clone(),
            logprobs,
            top_logprobs,
            stream: true,
            stop: req.stop.clone(),
            frequency_penalty: req.frequency_penalty,
            presence_penalty: req.presence_penalty,
            seed: req.seed,
            logit_bias: req.logit_bias.clone(),
            metadata: req.metadata.clone(),
            service_tier: req.service_tier.clone(),
            store: req.store,
            n: req.n,
            stream_options: Some(convert_stream_options(&req.stream_options)),
            max_completion_tokens: req.max_completion_tokens,
            modalities: copy_texts(&req.modalities),
            prediction: req.prediction.clone(),
            reasoning_effort: req.reasoning_effort.clone(),
            verbosity: req.verbosity.clone(),
            safety_identifier: req.safety_identifier.clone(),
            prompt_cache_key: req.prompt_cache_key.clone(),
            web_search_options: req.web_search_options.clone(),
            function_call: req.function_call.clone(),
            functions: copy_values(&req.functions),
        },
    )
}

/// Translates the reason for which generation finished to the status of a response.
pub fn translate_finish_reason(finish_reason: Option<&str>) -> (status: &'static str)
    ensures
        status@ == finish_status(finish_reason.deep_view()),
{
    match finish_reason {
        Some(reason) => if text_eq(reason, "length") {
            "incomplete"
        } else if text_eq(reason, "content_filter") {
            "failed"
        } else {
            "completed"
        },
        None => "in_progress",
    }
}

} // verus!

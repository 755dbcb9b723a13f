//! How a converted request follows from the request of the client.
use vstd::prelude::*;

use crate::conversation::{conversation_messages, items_error};
use crate::converter::{
    chat_logprobs, conversion_error, finish_status, function_tools, is_conversion, present,
    FILE_OPS_GUIDANCE, NATIVE_TOOL_OVERRIDE, XML_TOOL_OVERRIDE,
};
use crate::json::JsonModel;
use crate::models::{
    ChatCompletionRequest, MessageModel, ResponseInput, ResponseRequest, ToolModel,
};
use crate::request_laws::law_system_message_leads;

verus! {

/// A message that only has a role and a text.
pub open spec fn text_message(role: Seq<char>, text: Seq<char>) -> MessageModel {
    MessageModel {
        role,
        content: Some(JsonModel::String(text)),
        name: None,
        tool_calls: None,
        tool_call_id: None,
    }
}

/// What is told about tools: how to call them, by the kind of the model, and how to work with
/// files.
pub open spec fn tool_guidance(supports_native_tools: bool) -> Seq<char> {
    if supports_native_tools {
        NATIVE_TOOL_OVERRIDE@ + FILE_OPS_GUIDANCE@
    } else {
        XML_TOOL_OVERRIDE@ + FILE_OPS_GUIDANCE@
    }
}

/// The messages that the client gave: those of the entries that are messages, in order.
pub open spec fn client_messages(entries: Seq<Option<MessageModel>>) -> Seq<MessageModel> {
    entries.filter(|entry: Option<MessageModel>| entry is Some).map_values(
        |entry: Option<MessageModel>| entry->0,
    )
}

proof fn lemma_client_messages(entries: Seq<Option<MessageModel>>)
    ensures
        present(entries) == client_messages(entries),
    decreases entries.len(),
{
    reveal(Seq::filter);
    if entries.len() > 0 {
        lemma_client_messages(entries.drop_last());
    }
    assert(present(entries) =~= client_messages(entries));
}

/// The client's instructions are never dropped: they begin the text of the system message, which is
/// the first message, for either kind of model. Where no tools are given they are all of it; where
/// tools are given, what is told about tools follows.
pub proof fn law_instructions_lead<F>(
    req: ResponseRequest<F>,
    supports_native_tools: bool,
    chat: ChatCompletionRequest<F>,
    instructions: String,
)
    requires
        is_conversion(req, supports_native_tools, chat),
        req.instructions == Some(instructions),
        instructions@.len() > 0,
    ensures
        chat.messages.deep_view().len() > 0,
        req.tools is None ==> chat.messages.deep_view()[0] == text_message(
            "system"@,
            instructions@,
        ),
        req.tools is Some ==> chat.messages.deep_view()[0] == text_message(
            "system"@,
            instructions@ + tool_guidance(supports_native_tools),
        ),
{
    assert(instructions@ + NATIVE_TOOL_OVERRIDE@ + FILE_OPS_GUIDANCE@ =~= instructions@ + (
    NATIVE_TOOL_OVERRIDE@ + FILE_OPS_GUIDANCE@));
    assert(instructions@ + XML_TOOL_OVERRIDE@ + FILE_OPS_GUIDANCE@ =~= instructions@ + (
    XML_TOOL_OVERRIDE@ + FILE_OPS_GUIDANCE@));
    law_system_message_leads(req, supports_native_tools);
}

/// The messages come in order: the system message, where there is anything to tell; the messages
/// that the client gave; and then the input. A text is one message of the user, items make up the
/// rest of the conversation, and without input nothing follows.
pub proof fn law_messages_come_in_order<F>(
    req: ResponseRequest<F>,
    supports_native_tools: bool,
    chat: ChatCompletionRequest<F>,
)
    requires
        is_conversion(req, supports_native_tools, chat),
    ensures
        ({
            let instructions = match req.instructions {
                Some(text) => text@,
                None => Seq::empty(),
            };
            let told = if req.tools is Some {
                instructions + tool_guidance(supports_native_tools)
            } else {
                instructions
            };
            let system = if told.len() > 0 {
                seq![text_message("system"@, told)]
            } else {
                Seq::empty()
            };
            let given = match req.messages {
                Some(entries) => client_messages(entries.deep_view()),
                None => Seq::empty(),
            };
            match req.input {
                Some(ResponseInput::String(text)) => chat.messages.deep_view() == (system
                    + given).push(text_message("user"@, text@)),
                Some(ResponseInput::Array(items)) => chat.messages.deep_view()
                    == conversation_messages(system + given, items.deep_view()),
                None => chat.messages.deep_view() == system + given,
            }
        }),
{
    let instructions = match req.instructions {
        Some(text) => text@,
        None => Seq::empty(),
    };
    assert(instructions + NATIVE_TOOL_OVERRIDE@ + FILE_OPS_GUIDANCE@ =~= instructions + (
    NATIVE_TOOL_OVERRIDE@ + FILE_OPS_GUIDANCE@));
    assert(instructions + XML_TOOL_OVERRIDE@ + FILE_OPS_GUIDANCE@ =~= instructions + (
    XML_TOOL_OVERRIDE@ + FILE_OPS_GUIDANCE@));
    if let Some(entries) = req.messages {
        lemma_client_messages(entries.deep_view());
    }
}

/// A text is never dropped: it is the last message, one of the user, whatever messages stand before
/// it.
pub proof fn law_text_input_comes_last<F>(
    req: ResponseRequest<F>,
    supports_native_tools: bool,
    chat: ChatCompletionRequest<F>,
    text: String,
)
    requires
        is_conversion(req, supports_native_tools, chat),
        req.input == Some(ResponseInput::String(text)),
    ensures
        chat.messages.deep_view().len() > 0,
        chat.messages.deep_view().last() == text_message("user"@, text@),
{
    law_messages_come_in_order(req, supports_native_tools, chat);
}

/// Input follows what the request would become without it: a text adds one message behind that,
/// and items continue the conversation from it.
pub proof fn law_input_follows_all_else<F>(
    req: ResponseRequest<F>,
    bare: ResponseRequest<F>,
    supports_native_tools: bool,
    chat: ChatCompletionRequest<F>,
    bare_chat: ChatCompletionRequest<F>,
)
    requires
        bare == (ResponseRequest { input: None, ..req }),
        is_conversion(req, supports_native_tools, chat),
        is_conversion(bare, supports_native_tools, bare_chat),
    ensures
        match req.input {
            Some(ResponseInput::String(text)) => chat.messages.deep_view()
                == bare_chat.messages.deep_view().push(text_message("user"@, text@)),
            Some(ResponseInput::Array(items)) => chat.messages.deep_view()
                == conversation_messages(bare_chat.messages.deep_view(), items.deep_view()),
            None => chat.messages.deep_view() == bare_chat.messages.deep_view(),
        },
{
    law_messages_come_in_order(req, supports_native_tools, chat);
    law_messages_come_in_order(bare, supports_native_tools, bare_chat);
}

/// A request without a model is refused; one with a model is refused where an item of its input is,
/// and converted otherwise.
pub proof fn law_requests_are_refused<F>(req: ResponseRequest<F>)
    ensures
        req.model is None ==> conversion_error(req) == Some("Model is required"@),
        req.model is Some ==> match req.input {
            Some(ResponseInput::Array(items)) => conversion_error(req) == items_error(
                items.deep_view(),
            ),
            _ => conversion_error(req) is None,
        },
{
}

/// The model, the limits and the stream settings of the converted request: the model is the one
/// that the client names, the limit on tokens is that on output tokens where there is one, the
/// response format is that of the text settings where there is one, and the request always streams,
/// with the usage where the client does not say otherwise.
pub proof fn law_limits_and_formats_are_chosen<F>(
    req: ResponseRequest<F>,
    supports_native_tools: bool,
    chat: ChatCompletionRequest<F>,
)
    requires
        is_conversion(req, supports_native_tools, chat),
    ensures
        req.model is Some,
        chat.model@ == req.model->0@,
        req.max_output_tokens is Some ==> chat.max_tokens == req.max_output_tokens,
        req.max_output_tokens is None ==> chat.max_tokens == req.max_tokens,
        chat.max_completion_tokens == req.max_completion_tokens,
        match req.text {
            Some(settings) if settings.format is Some => chat.response_format.deep_view()
                == settings.format.deep_view(),
            _ => chat.response_format.deep_view() == req.response_format.deep_view(),
        },
        chat.stream,
        chat.stream_options is Some,
        match req.stream_options {
            Some(options) => match options.serialized {
                Some(value) => chat.stream_options->0.deep_view() == value.deep_view(),
                None => chat.stream_options->0.deep_view() == JsonModel::Object(Map::empty()),
            },
            None => chat.stream_options->0.deep_view() == JsonModel::Object(
                map!["include_usage"@ => JsonModel::Bool(true)],
            ),
        },
{
    assert(chat.stream_options.deep_view() is Some);
}

/// All other settings are passed on as they are.
pub proof fn law_settings_are_passed_on<F>(
    req: ResponseRequest<F>,
    supports_native_tools: bool,
    chat: ChatCompletionRequest<F>,
)
    requires
        is_conversion(req, supports_native_tools, chat),
    ensures
        chat.temperature == req.temperature,
        chat.top_p == req.top_p,
        chat.frequency_penalty == req.frequency_penalty,
        chat.presence_penalty == req.presence_penalty,
        chat.tool_choice.deep_view() == req.tool_choice.deep_view(),
        chat.parallel_tool_calls == req.parallel_tool_calls,
        chat.user.deep_view() == req.user.deep_view(),
        chat.stop.deep_view() == req.stop.deep_view(),
        chat.seed == req.seed,
        chat.logit_bias.deep_view() == req.logit_bias.deep_view(),
        chat.metadata.deep_view() == req.metadata.deep_view(),
        chat.service_tier.deep_view() == req.service_tier.deep_view(),
        chat.store == req.store,
        chat.n == req.n,
        chat.modalities.deep_view() == req.modalities.deep_view(),
        chat.prediction.deep_view() == req.prediction.deep_view(),
        chat.reasoning_effort.deep_view() == req.reasoning_effort.deep_view(),
        chat.verbosity.deep_view() == req.verbosity.deep_view(),
        chat.safety_identifier.deep_view() == req.safety_identifier.deep_view(),
        chat.prompt_cache_key.deep_view() == req.prompt_cache_key.deep_view(),
        chat.web_search_options.deep_view() == req.web_search_options.deep_view(),
        chat.function_call.deep_view() == req.function_call.deep_view(),
        chat.functions.deep_view() == req.functions.deep_view(),
{
}

/// The function tools are passed on in order and as they are, others are left out, and where none
/// is left there are no tools.
pub proof fn law_functions_are_passed_on_in_order<F>(
    req: ResponseRequest<F>,
    supports_native_tools: bool,
    chat: ChatCompletionRequest<F>,
)
    requires
        is_conversion(req, supports_native_tools, chat),
    ensures
        req.tools is None ==> chat.tools is None,
        req.tools matches Some(tools) ==> {
            let functions = tools.deep_view().filter(
                |tool: ToolModel| tool.type_ == "function"@,
            );
            &&& functions.len() == 0 ==> chat.tools is None
            &&& functions.len() > 0 ==> chat.tools.deep_view() == Some(functions)
        },
{
    if let Some(tools) = req.tools {
        lemma_functions(tools.deep_view());
    }
    assert(chat.tools is None <==> chat.tools.deep_view() is None);
}

proof fn lemma_functions(tools: Seq<ToolModel>)
    ensures
        function_tools(tools) == tools.filter(|tool: ToolModel| tool.type_ == "function"@),
    decreases tools.len(),
{
    reveal(Seq::filter);
    if tools.len() > 0 {
        lemma_functions(tools.drop_last());
    }
    assert(function_tools(tools) =~= tools.filter(
        |tool: ToolModel| tool.type_ == "function"@,
    ));
}

/// A count of top log probabilities is passed on and asks for log probabilities, unless it is zero,
/// which asks for nothing; without a count, only where log probabilities are asked for, those of
/// five tokens are.
pub proof fn law_log_probabilities_follow_the_count<F>(
    req: ResponseRequest<F>,
    supports_native_tools: bool,
    chat: ChatCompletionRequest<F>,
)
    requires
        is_conversion(req, supports_native_tools, chat),
    ensures
        req.top_logprobs == Some(0u32) ==> chat.logprobs is None && chat.top_logprobs is None,
        req.top_logprobs is Some && req.top_logprobs->0 > 0 ==> chat.logprobs == Some(true)
            && chat.top_logprobs == req.top_logprobs,
        req.top_logprobs is None && req.logprobs == Some(true) ==> chat.logprobs == Some(true)
            && chat.top_logprobs == Some(5u32),
        req.top_logprobs is None && req.logprobs != Some(true) ==> chat.logprobs is None
            && chat.top_logprobs is None,
{
}

/// The same of the log probability settings by themselves.
pub proof fn law_counts_decide(logprobs: Option<bool>, count: u32)
    ensures
        chat_logprobs(logprobs, Some(count)) == if count == 0 {
            (None::<bool>, None::<u32>)
        } else {
            (Some(true), Some(count))
        },
        chat_logprobs(Some(true), None) == (Some(true), Some(5u32)),
        logprobs != Some(true) ==> chat_logprobs(logprobs, None) == (None::<bool>, None::<u32>),
{
}

/// Generation that has not finished is in progress; one that ran into its limit is incomplete, one
/// that was filtered failed, and for any other reason it is completed.
pub proof fn law_reasons_give_their_status(reason: Seq<char>)
    ensures
        finish_status(None) == "in_progress"@,
        finish_status(Some("length"@)) == "incomplete"@,
        finish_status(Some("content_filter"@)) == "failed"@,
        reason != "length"@ && reason != "content_filter"@ ==> finish_status(Some(reason))
            == "completed"@,
{
    reveal_strlit("length");
    reveal_strlit("content_filter");
    assert("length"@.len() == 6);
    assert("content_filter"@.len() == 14);
}

/// What is told about tools and files, in full.
pub proof fn law_guidance_reads_as_follows()
    ensures
        NATIVE_TOOL_OVERRIDE@ == "\n\n---\n\nIMPORTANT: Tool Calling Format Override\n\
When calling functions/tools, you MUST use the standard OpenAI Chat Completions JSON format, NOT any XML or custom syntax. \
The system will automatically handle tool execution. Never output tool calls as text - use the native function calling mechanism."@,
        XML_TOOL_OVERRIDE@ == "\n\n---\n\nIMPORTANT: Tool Calling Format Override\n\
To call a function, you MUST use the following XML format:\n\
<function=function_name>\n\
<parameter=param_name>value</parameter>\n\
...\n\
</function>\n\
\n\
Do not use JSON tool calls. Use the XML format above."@,
        FILE_OPS_GUIDANCE@ == "\n\nFile Operation Best Practices:\n\
- Use relative paths (e.g. 'test.py', 'src/main.rs') for files in the workspace\n\
- Read each file ONCE before editing - do not re-read files you've already successfully read\n\
- After receiving file contents from read_file, proceed directly to editing without redundant reads\n\
- For apply_patch, include 3-5 lines of surrounding context for reliable matching\n\
- Never announce \"I will read the file\" after you've already read it - just use the content you received"@,
{
}

} // verus!

//! The messages of a conversation, built up from input items one by one.
use vstd::prelude::*;

use crate::calls::{
    flush_pending_tool_calls, left_reasoning, no_calls, recorded, resolve_tool_call, resolved,
    think_above, thinking_above, thinking_of, with_calls, CallsModel, OpenCalls,
};
use crate::content::{
    content_error, content_reasoning, content_value, convert_response_content,
    extract_tool_message_body, tool_body, tool_body_error,
};
use crate::json::{object, set_member, string, Json, JsonModel};
use crate::models::{
    Attachment, ChatMessage, ItemModel, MessageModel, ResponseContent, ResponseInputItem,
};
use crate::output::{function_output_to_string, output_text};
use crate::text::{
    append_decimal, blank, decimal, is_blank, join, lemma_empty_text, text_eq,
};

verus! {

/// A conversation under construction.
pub struct Conversation {
    messages: Vec<ChatMessage>,
    accumulated_reasoning: Vec<String>,
    pending_tool_calls: Vec<Json>,
    calls: OpenCalls,
    synthetic_call_seq: usize,
}

/// What a [`Conversation`] means.
#[verifier::ext_equal]
pub struct ConversationModel {
    /// The messages so far.
    pub messages: Seq<MessageModel>,
    /// Reasoning that waits for the next message of the assistant.
    pub reasoning: Seq<Seq<char>>,
    /// Tool calls that wait for the end of the assistant's turn.
    pub pending: Seq<JsonModel>,
    /// The calls that may still be answered.
    pub calls: CallsModel,
    /// How many identifiers have been made up.
    pub synthetic: nat,
}

impl DeepView for Conversation {
    type V = ConversationModel;

    closed spec fn deep_view(&self) -> ConversationModel {
        ConversationModel {
            messages: self.messages.deep_view(),
            reasoning: self.accumulated_reasoning.deep_view(),
            pending: self.pending_tool_calls.deep_view(),
            calls: self.calls.deep_view(),
            synthetic: self.synthetic_call_seq as nat,
        }
    }
}

/// A conversation that starts with the given messages.
pub open spec fn started(messages: Seq<MessageModel>) -> ConversationModel {
    ConversationModel {
        messages,
        reasoning: Seq::empty(),
        pending: Seq::empty(),
        calls: no_calls(),
        synthetic: 0,
    }
}

/// The conversation after the assistant's turn has ended: its pending calls have been emitted.
pub open spec fn turn_ended(state: ConversationModel) -> ConversationModel {
    ConversationModel {
        messages: with_calls(state.messages, state.pending, state.reasoning),
        reasoning: left_reasoning(state.pending, state.reasoning),
        pending: Seq::empty(),
        ..state
    }
}

/// A message without a name that answers no call.
pub open spec fn plain_message(
    role: Seq<char>,
    content: JsonModel,
    tool_calls: Option<Seq<JsonModel>>,
) -> MessageModel {
    MessageModel { role, content: Some(content), name: None, tool_calls, tool_call_id: None }
}

/// A message with the result of a tool.
pub open spec fn tool_message(
    text: Seq<char>,
    name: Option<Seq<char>>,
    tool_call_id: Option<Seq<char>>,
) -> MessageModel {
    MessageModel {
        role: "tool"@,
        content: Some(JsonModel::String(text)),
        name,
        tool_calls: None,
        tool_call_id,
    }
}

/// `{"id": id, "type": "function", "function": {"name": name, "arguments": arguments}}`.
pub open spec fn call_model(
    id: Seq<char>,
    name: Seq<char>,
    arguments: Seq<char>,
) -> JsonModel {
    JsonModel::Object(
        map![
            "id"@ => JsonModel::String(id),
            "type"@ => JsonModel::String("function"@),
            "function"@ => JsonModel::Object(
                map![
                    "name"@ => JsonModel::String(name),
                    "arguments"@ => JsonModel::String(arguments),
                ],
            ),
        ],
    )
}

/// The identifier that is made up for the call of `name` that is the `seq`-th to need one.
pub open spec fn synthetic_id(name: Seq<char>, seq: nat) -> Seq<char> {
    "call_"@ + name + "_"@ + decimal(seq)
}

/// The arguments of a call; blank arguments are an empty object.
pub open spec fn call_arguments(arguments: Option<Seq<char>>) -> Seq<char> {
    match arguments {
        Some(text) if !blank(text) => text,
        _ => "{}"@,
    }
}

/// The first of two options that holds something.
pub open spec fn first_of<T>(first: Option<T>, second: Option<T>) -> Option<T> {
    if first is Some {
        first
    } else {
        second
    }
}

/// The text of a string; nothing else has a text.
pub open spec fn string_or_empty(value: JsonModel) -> Seq<char> {
    match value {
        JsonModel::String(text) => text,
        _ => Seq::empty(),
    }
}

/// The reasoning with one more piece, if there is one.
pub open spec fn with_reasoning(
    reasoning: Seq<Seq<char>>,
    piece: Option<Seq<char>>,
) -> Seq<Seq<char>> {
    match piece {
        Some(text) => reasoning.push(text),
        None => reasoning,
    }
}

/// The content of an assistant message, with the reasoning that led to it above its text.
pub open spec fn assistant_content(value: JsonModel, reasoning: Seq<Seq<char>>) -> JsonModel {
    match thinking_of(reasoning) {
        Some(thought) => JsonModel::String(think_above(thought, string_or_empty(value))),
        None => value,
    }
}

/// Why an item cannot be converted, where it cannot.
pub open spec fn item_error(item: ItemModel) -> Option<Seq<char>> {
    match item {
        ItemModel::Message { role, content, tool_call_id, attachments } => if attachments is Some
            && attachments->0.len() > 0 {
            Some("attachments_not_supported"@)
        } else if role != "tool"@ {
            content_error(content)
        } else if tool_call_id is None {
            Some("tool_message_missing_tool_call_id"@)
        } else {
            tool_body_error(content)
        },
        ItemModel::AgentMessage { author, recipient, content } => content_error(content),
        _ => None,
    }
}

/// The conversation after a tool result: the assistant's turn ends, and the result answers a call.
pub open spec fn with_tool_result(
    state: ConversationModel,
    call_id: Option<Seq<char>>,
    explicit_name: Option<Seq<char>>,
    text: Seq<char>,
) -> ConversationModel {
    let ended = turn_ended(state);
    let answer = resolved(ended.calls, call_id, explicit_name);
    ConversationModel {
        messages: ended.messages.push(tool_message(text, answer.name, answer.tool_call_id)),
        calls: answer.calls,
        ..ended
    }
}

/// The conversation after a message of the assistant, which takes all that waits for it.
pub open spec fn with_assistant_message(
    state: ConversationModel,
    value: JsonModel,
    piece: Option<Seq<char>>,
) -> ConversationModel {
    let reasoning = with_reasoning(state.reasoning, piece);
    ConversationModel {
        messages: state.messages.push(
            plain_message(
                "assistant"@,
                assistant_content(value, reasoning),
                if state.pending.len() > 0 {
                    Some(state.pending)
                } else {
                    None
                },
            ),
        ),
        reasoning: Seq::empty(),
        pending: Seq::empty(),
        ..state
    }
}

/// The conversation after a message that neither the assistant nor a tool wrote.
pub open spec fn with_other_message(
    state: ConversationModel,
    role: Seq<char>,
    value: JsonModel,
    piece: Option<Seq<char>>,
) -> ConversationModel {
    let ended = turn_ended(state);
    ConversationModel {
        messages: ended.messages.push(plain_message(role, value, None)),
        reasoning: with_reasoning(ended.reasoning, piece),
        ..ended
    }
}

/// The identifier of a call: its own, else one that is made up.
pub open spec fn call_identifier(
    call_id: Option<Seq<char>>,
    id: Option<Seq<char>>,
    name: Seq<char>,
    synthetic: nat,
) -> Seq<char> {
    match first_of(call_id, id) {
        Some(own) => own,
        None => synthetic_id(name, synthetic + 1),
    }
}

/// Whether an item is a function call for which an identifier is made up.
pub open spec fn needs_identifier(item: ItemModel) -> bool {
    match item {
        ItemModel::FunctionCall { call_id, id, .. } => first_of(call_id, id) is None,
        _ => false,
    }
}

/// The conversation after a function call, which waits for the end of the turn.
pub open spec fn with_function_call(
    state: ConversationModel,
    call_id: Option<Seq<char>>,
    id: Option<Seq<char>>,
    name: Seq<char>,
    arguments: Option<Seq<char>>,
) -> ConversationModel {
    let identifier = call_identifier(call_id, id, name, state.synthetic);
    ConversationModel {
        pending: state.pending.push(call_model(identifier, name, call_arguments(arguments))),
        calls: recorded(state.calls, identifier, name),
        synthetic: if first_of(call_id, id) is Some {
            state.synthetic
        } else {
            state.synthetic + 1
        },
        ..state
    }
}

/// The conversation after one more item.
pub open spec fn step(state: ConversationModel, item: ItemModel) -> ConversationModel {
    match item {
        ItemModel::Message { role, content, tool_call_id, attachments } => if role == "tool"@ {
            with_tool_result(state, tool_call_id, None, tool_body(content))
        } else if role == "assistant"@ {
            with_assistant_message(state, content_value(content), content_reasoning(content))
        } else {
            with_other_message(state, role, content_value(content), content_reasoning(content))
        },
        ItemModel::AgentMessage { author, recipient, content } => with_other_message(
            state,
            "user"@,
            content_value(content),
            content_reasoning(content),
        ),
        ItemModel::FunctionCall { call_id, id, name, arguments } => with_function_call(
            state,
            call_id,
            id,
            name,
            arguments,
        ),
        ItemModel::FunctionCallOutput { call_id, id, output, name } => with_tool_result(
            state,
            first_of(call_id, id),
            name,
            output_text(output),
        ),
        ItemModel::Reasoning { text, encrypted_content } => ConversationModel {
            reasoning: with_reasoning(state.reasoning, text),
            ..state
        },
        ItemModel::ItemReference { id } => state,
    }
}

/// The conversation after some more items.
pub open spec fn run(state: ConversationModel, items: Seq<ItemModel>) -> ConversationModel
    decreases items.len(),
{
    if items.len() == 0 {
        state
    } else {
        step(run(state, items.drop_last()), items.last())
    }
}

/// Why some items cannot be converted: the error of the first that cannot.
pub open spec fn items_error(items: Seq<ItemModel>) -> Option<Seq<char>>
    decreases items.len(),
{
    if items.len() == 0 {
        None
    } else {
        first_of(items_error(items.drop_last()), item_error(items.last()))
    }
}

/// The messages that some messages followed by some items make up.
pub open spec fn conversation_messages(
    messages: Seq<MessageModel>,
    items: Seq<ItemModel>,
) -> Seq<MessageModel> {
    turn_ended(run(started(messages), items)).messages
}

/// Builds `{"id": ..., "type": "function", "function": {"name": ..., "arguments": ...}}`.
pub fn tool_call(id: &str, name: &str, arguments: &str) -> (json: Json)
    ensures
        json.deep_view() == call_model(id@, name@, arguments@),
{
    let mut function: Vec<(String, Json)> = Vec::new();
    assert(function.deep_view() =~= Seq::empty());
    set_member(&mut function, "name", string(name));
    set_member(&mut function, "arguments", string(arguments));
    let mut entries: Vec<(String, Json)> = Vec::new();
    assert(entries.deep_view() =~= Seq::empty());
    set_member(&mut entries, "id", string(id));
    set_member(&mut entries, "type", string("function"));
    set_member(&mut entries, "function", object(function));
    object(entries)
}

/// The text in an option, as a slice.
fn as_slice(text: &Option<String>) -> (slice: Option<&str>)
    ensures
        slice.deep_view() == text.deep_view(),
{
    match text {
        Some(text) => Some(text.as_str()),
        None => None,
    }
}

/// Whether files are attached.
fn has_attachments(attachments: &Option<Vec<Attachment>>) -> (r: bool)
    ensures
        r == (attachments.deep_view() is Some && attachments.deep_view()->0.len() > 0),
{
    match attachments {
        Some(attached) => !attached.is_empty(),
        None => false,
    }
}

impl Conversation {
    /// A conversation that starts with the given messages.
    pub fn new(messages: Vec<ChatMessage>) -> (conversation: Conversation)
        ensures
            conversation.deep_view() == started(messages.deep_view()),
    {
        let conversation = Conversation {
            messages,
            accumulated_reasoning: Vec::new(),
            pending_tool_calls: Vec::new(),
            calls: OpenCalls::new(),
            synthetic_call_seq: 0,
        };
        assert(conversation.deep_view() =~= started(messages.deep_view()));
        conversation
    }

    /// How many tool calls wait for the end of the assistant's turn.
    pub fn pending_calls(&self) -> (count: usize)
        ensures
            count == self.deep_view().pending.len(),
    {
        self.pending_tool_calls.len()
    }

    /// How many pieces of reasoning wait for the next message of the assistant.
    pub fn waiting_reasoning(&self) -> (count: usize)
        ensures
            count == self.deep_view().reasoning.len(),
    {
        self.accumulated_reasoning.len()
    }

    /// Ends the assistant's turn.
    pub fn end_turn(&mut self)
        ensures
            final(self).deep_view() == turn_ended(old(self).deep_view()),
    {
        flush_pending_tool_calls(
            &mut self.messages,
            &mut self.pending_tool_calls,
            &mut self.accumulated_reasoning,
        );
        assert(self.deep_view() =~= turn_ended(old(self).deep_view()));
    }

    /// Keeps a piece of reasoning for the next message of the assistant.
    fn keep_reasoning(&mut self, piece: Option<String>)
        ensures
            final(self).deep_view() == (ConversationModel {
                reasoning: with_reasoning(old(self).deep_view().reasoning, piece.deep_view()),
                ..old(self).deep_view()
            }),
    {
        let ghost before = self.deep_view();
        if let Some(text) = piece {
            self.accumulated_reasoning.push(text);
            assert(self.accumulated_reasoning.deep_view() =~= before.reasoning.push(text@));
        }
    }

    /// Adds a message.
    fn push(&mut self, message: ChatMessage)
        ensures
            final(self).deep_view() == (ConversationModel {
                messages: old(self).deep_view().messages.push(message.deep_view()),
                ..old(self).deep_view()
            }),
    {
        let ghost before = self.deep_view();
        self.messages.push(message);
        assert(self.messages.deep_view() =~= before.messages.push(message.deep_view()));
    }

    /// Adds a tool result with the given text.
    pub fn add_tool_result(
        &mut self,
        call_id: Option<&str>,
        explicit_name: Option<&str>,
        text: String,
    )
        ensures
            final(self).deep_view() == with_tool_result(
                old(self).deep_view(),
                call_id.deep_view(),
                explicit_name.deep_view(),
                text@,
            ),
    {
        self.end_turn();
        let (tool_call_id, name) = resolve_tool_call(call_id, explicit_name, &mut self.calls);
        self.push(
            ChatMessage {
                role: "tool".to_string(),
                content: Some(Json::String(text)),
                name,
                tool_calls: None,
                tool_call_id,
            },
        );
    }

    /// Adds a message of the assistant.
    fn add_assistant_message(&mut self, value: Json, piece: Option<String>)
        ensures
            final(self).deep_view() == with_assistant_message(
                old(self).deep_view(),
                value.deep_view(),
                piece.deep_view(),
            ),
    {
        let ghost before = self.deep_view();
        self.keep_reasoning(piece);
        let ghost reasoning = self.deep_view().reasoning;
        let content = if self.accumulated_reasoning.is_empty() {
            value
        } else {
            let thinking = join(&self.accumulated_reasoning, "\n");
            let combined = match &value {
                Json::String(text) => thinking_above(thinking.as_str(), text.as_str()),
                _ => {
                    proof {
                        lemma_empty_text();
                    }
                    thinking_above(thinking.as_str(), "")
                },
            };
            self.accumulated_reasoning.clear();
            Json::String(combined)
        };
        assert(content.deep_view() == assistant_content(value.deep_view(), reasoning));
        assert(self.accumulated_reasoning.deep_view() =~= Seq::empty());
        let mut tool_calls: Option<Vec<Json>> = None;
        if !self.pending_tool_calls.is_empty() {
            let mut calls: Vec<Json> = Vec::new();
            calls.append(&mut self.pending_tool_calls);
            assert(calls.deep_view() =~= before.pending);
            tool_calls = Some(calls);
        }
        assert(self.pending_tool_calls.deep_view() =~= Seq::empty());
        self.push(
            ChatMessage {
                role: "assistant".to_string(),
                content: Some(content),
                name: None,
                tool_calls,
                tool_call_id: None,
            },
        );
    }

    /// Adds a message that neither the assistant nor a tool wrote.
    fn add_other_message(&mut self, role: String, value: Json, piece: Option<String>)
        ensures
            final(self).deep_view() == with_other_message(
                old(self).deep_view(),
                role@,
                value.deep_view(),
                piece.deep_view(),
            ),
    {
        self.end_turn();
        self.keep_reasoning(piece);
        self.push(
            ChatMessage {
                role,
                content: Some(value),
                name: None,
                tool_calls: None,
                tool_call_id: None,
            },
        );
    }

    /// Adds a function call.
    fn add_function_call(
        &mut self,
        call_id: &Option<String>,
        id: &Option<String>,
        name: &String,
        arguments: &Option<String>,
    )
        requires
            first_of(call_id.deep_view(), id.deep_view()) is None
                ==> old(self).deep_view().synthetic < usize::MAX,
        ensures
            final(self).deep_view() == with_function_call(
                old(self).deep_view(),
                call_id.deep_view(),
                id.deep_view(),
                name@,
                arguments.deep_view(),
            ),
    {
        let ghost before = self.deep_view();
        let identifier: String = match call_id {
            Some(own) => own.clone(),
            None => match id {
                Some(own) => own.clone(),
                None => {
                    self.synthetic_call_seq = self.synthetic_call_seq + 1;
                    let mut generated = String::new();
                    generated.append("call_");
                    generated.append(name.as_str());
                    generated.append("_");
                    append_decimal(&mut generated, self.synthetic_call_seq);
                    assert(generated@ =~= synthetic_id(name@, before.synthetic + 1));
                    generated
                },
            },
        };
        let mut given: &str = "{}";
        if let Some(text) = arguments {
            if !is_blank(text.as_str()) {
                given = text.as_str();
            }
        }
        let ghost call = call_model(identifier@, name@, given@);
        self.pending_tool_calls.push(tool_call(identifier.as_str(), name.as_str(), given));
        assert(self.pending_tool_calls.deep_view() =~= before.pending.push(call));
        self.calls.record(&identifier, name);
    }

    /// Adds a message item.
    fn add_message(
        &mut self,
        role: &String,
        content: &ResponseContent,
        tool_call_id: &Option<String>,
        attachments: &Option<Vec<Attachment>>,
    ) -> (result: Result<(), String>)
        ensures
            ({
                let item = ItemModel::Message {
                    role: role@,
                    content: content.deep_view(),
                    tool_call_id: tool_call_id.deep_view(),
                    attachments: attachments.deep_view(),
                };
                match result {
                    Ok(_) => {
                        &&& item_error(item) is None
                        &&& final(self).deep_view() == step(old(self).deep_view(), item)
                    },
                    Err(error) => {
                        &&& item_error(item) == Some(error@)
                        &&& final(self).deep_view() == old(self).deep_view()
                    },
                }
            }),
    {
        if has_attachments(attachments) {
            return Err("attachments_not_supported".to_string());
        }
        if text_eq(role.as_str(), "tool") {
            if tool_call_id.is_none() {
                return Err("tool_message_missing_tool_call_id".to_string());
            }
            let body = match extract_tool_message_body(content) {
                Ok(body) => body,
                Err(error) => return Err(error),
            };
            self.add_tool_result(as_slice(tool_call_id), None, body);
            return Ok(());
        }
        let (value, piece) = match convert_response_content(content) {
            Ok(converted) => converted,
            Err(error) => return Err(error),
        };
        if text_eq(role.as_str(), "assistant") {
            self.add_assistant_message(value, piece);
        } else {
            self.add_other_message(role.clone(), value, piece);
        }
        Ok(())
    }

    /// Adds an item; one that cannot be converted leaves the conversation as it was.
    pub fn add_item(&mut self, item: &ResponseInputItem) -> (result: Result<(), String>)
        requires
            needs_identifier(item.deep_view()) ==> old(self).deep_view().synthetic < usize::MAX,
        ensures
            match result {
                Ok(_) => {
                    &&& item_error(item.deep_view()) is None
                    &&& final(self).deep_view() == step(old(self).deep_view(), item.deep_view())
                },
                Err(error) => {
                    &&& item_error(item.deep_view()) == Some(error@)
                    &&& final(self).deep_view() == old(self).deep_view()
                },
            },
    {
        match item {
            ResponseInputItem::Message { role, content, tool_call_id, attachments } => {
                self.add_message(role, content, tool_call_id, attachments)
            },
            ResponseInputItem::AgentMessage { author: _, recipient: _, content } => {
                let (value, piece) = match convert_response_content(content) {
                    Ok(converted) => converted,
                    Err(error) => return Err(error),
                };
                self.add_other_message("user".to_string(), value, piece);
                Ok(())
            },
            ResponseInputItem::FunctionCall { call_id, id, name, arguments } => {
                self.add_function_call(call_id, id, name, arguments);
                Ok(())
            },
            ResponseInputItem::FunctionCallOutput { call_id, id, output, name } => {
                let text = function_output_to_string(output);
                let given = match call_id {
                    Some(own) => Some(own.as_str()),
                    None => as_slice(id),
                };
                self.add_tool_result(given, as_slice(name), text);
                Ok(())
            },
            ResponseInputItem::Reasoning { text, encrypted_content: _ } => {
                self.keep_reasoning(text.clone());
                Ok(())
            },
            ResponseInputItem::ItemReference { id: _ } => Ok(()),
        }
    }

    /// Ends the last turn and hands out the messages.
    pub fn finish(self) -> (messages: Vec<ChatMessage>)
        ensures
            messages.deep_view() == turn_ended(self.deep_view()).messages,
    {
        let mut conversation = self;
        conversation.end_turn();
        conversation.messages
    }
}

/// Converts items to messages that follow the given ones.
pub fn convert_items(messages: Vec<ChatMessage>, items: &Vec<ResponseInputItem>) -> (result: Result<
    Vec<ChatMessage>,
    String,
>)
    ensures
        match result {
            Ok(all) => {
                &&& items_error(items.deep_view()) is None
                &&& all.deep_view() == conversation_messages(
                    messages.deep_view(),
                    items.deep_view(),
                )
            },
            Err(error) => items_error(items.deep_view()) == Some(error@),
        },
{
    let ghost models = items.deep_view();
    let ghost start = started(messages.deep_view());
    let mut conversation = Conversation::new(messages);
    let mut i: usize = 0;
    while i < items.len()
        invariant
            i <= items@.len(),
            models == items.deep_view(),
            conversation.deep_view() == run(start, models.take(i as int)),
            conversation.deep_view().synthetic <= i,
            items_error(models.take(i as int)) is None,
        decreases items@.len() - i,
    {
        proof {
            let next = models.take(i + 1);
            assert(next.drop_last() =~= models.take(i as int));
            assert(next.last() == items@[i as int].deep_view());
        }
        match conversation.add_item(&items[i]) {
            Ok(_) => {},
            Err(error) => {
                proof {
                    lemma_items_error_first(models, i + 1);
                }
                return Err(error);
            },
        }
        i += 1;
    }
    assert(models.take(i as int) =~= models);
    Ok(conversation.finish())
}

/// The error of a first part of some items is the error of them all.
proof fn lemma_items_error_first(items: Seq<ItemModel>, n: int)
    requires
        0 <= n <= items.len(),
        items_error(items.take(n)) is Some,
    ensures
        items_error(items) == items_error(items.take(n)),
    decreases items.len(),
{
    if n == items.len() {
        assert(items.take(n) =~= items);
    } else {
        assert(items.drop_last().take(n) =~= items.take(n));
        lemma_items_error_first(items.drop_last(), n);
    }
}

} // verus!

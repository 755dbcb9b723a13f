//! Pairing function calls with their outputs, and emitting them as tool calls.
use std::collections::VecDeque;
use vstd::hash_map::StringHashMap;
use vstd::prelude::*;

use crate::json::{Json, JsonModel};
use crate::models::{ChatMessage, MessageModel};
use crate::text::{join, joined, lemma_empty_text, text_eq};

verus! {

/// The function calls that have been seen and may still be answered.
pub struct OpenCalls {
    names: StringHashMap<String>,
    unmatched: VecDeque<(String, String)>,
}

/// What [`OpenCalls`] means.
#[verifier::ext_equal]
pub struct CallsModel {
    /// The function name of each call that has not been answered by its identifier.
    pub names: Map<Seq<char>, Seq<char>>,
    /// The identifiers and function names of the unanswered calls, oldest first.
    pub unmatched: Seq<(Seq<char>, Seq<char>)>,
}

/// What answering a call comes to.
#[verifier::ext_equal]
pub struct Resolution {
    /// The calls that are open afterwards.
    pub calls: CallsModel,
    /// The identifier of the answered call.
    pub tool_call_id: Option<Seq<char>>,
    /// The name of its function.
    pub name: Option<Seq<char>>,
}

impl DeepView for OpenCalls {
    type V = CallsModel;

    closed spec fn deep_view(&self) -> CallsModel {
        CallsModel { names: names_of(self.names@), unmatched: self.unmatched.deep_view() }
    }
}

/// The texts that a map holds.
spec fn names_of(names: Map<Seq<char>, String>) -> Map<Seq<char>, Seq<char>> {
    Map::new(|id: Seq<char>| names.contains_key(id), |id: Seq<char>| names[id]@)
}

/// No calls at all.
pub open spec fn no_calls() -> CallsModel {
    CallsModel { names: Map::empty(), unmatched: Seq::empty() }
}

/// The open calls after one more call.
pub open spec fn recorded(calls: CallsModel, call_id: Seq<char>, name: Seq<char>) -> CallsModel {
    CallsModel {
        names: calls.names.insert(call_id, name),
        unmatched: calls.unmatched.push((call_id, name)),
    }
}

/// `queue` without its first entry for `call_id`.
pub open spec fn without_first(queue: Seq<(Seq<char>, Seq<char>)>, call_id: Seq<char>) -> Seq<
    (Seq<char>, Seq<char>),
>
    decreases queue.len(),
{
    if queue.len() == 0 {
        queue
    } else if queue[0].0 == call_id {
        queue.drop_first()
    } else {
        seq![queue[0]] + without_first(queue.drop_first(), call_id)
    }
}

/// Answers a call.
///
/// An identifier that belongs to an open call answers that call. An unknown identifier stays, and
/// its name is the explicit one, else that of the oldest unanswered call, which counts as answered
/// then. Without an identifier the oldest unanswered call is answered; the name is the explicit
/// one, else that of this call.
pub open spec fn resolved(
    calls: CallsModel,
    call_id: Option<Seq<char>>,
    explicit_name: Option<Seq<char>>,
) -> Resolution {
    let oldest = calls.unmatched[0];
    match call_id {
        Some(id) if id.len() > 0 => if calls.names.contains_key(id) {
            Resolution {
                calls: CallsModel {
                    names: calls.names.remove(id),
                    unmatched: without_first(calls.unmatched, id),
                },
                tool_call_id: Some(id),
                name: Some(calls.names[id]),
            }
        } else if explicit_name is Some || calls.unmatched.len() == 0 {
            Resolution { calls, tool_call_id: Some(id), name: explicit_name }
        } else {
            Resolution {
                calls: CallsModel { unmatched: calls.unmatched.drop_first(), ..calls },
                tool_call_id: Some(id),
                name: Some(oldest.1),
            }
        },
        _ => if calls.unmatched.len() > 0 {
            Resolution {
                calls: CallsModel {
                    names: calls.names.remove(oldest.0),
                    unmatched: calls.unmatched.drop_first(),
                },
                tool_call_id: Some(oldest.0),
                name: if explicit_name is Some {
                    explicit_name
                } else {
                    Some(oldest.1)
                },
            }
        } else {
            Resolution { calls, tool_call_id: None, name: explicit_name }
        },
    }
}

/// `<think>text</think>`.
pub open spec fn think_block(text: Seq<char>) -> Seq<char> {
    "<think>"@ + text + "</think>"@
}

/// `text` below a block with `thinking`.
pub open spec fn think_above(thinking: Seq<char>, text: Seq<char>) -> Seq<char> {
    think_block(thinking) + "\n"@ + text
}

/// The thinking that some pieces of reasoning make up; nothing where there are none.
pub open spec fn thinking_of(reasoning: Seq<Seq<char>>) -> Option<Seq<char>> {
    if reasoning.len() == 0 {
        None
    } else {
        Some(joined(reasoning, "\n"@))
    }
}

/// Whether the last message is one of the assistant without tool calls.
pub open spec fn ends_in_plain_assistant(messages: Seq<MessageModel>) -> bool {
    messages.len() > 0 && messages.last().role == "assistant"@ && messages.last().tool_calls is None
}

/// Content with thinking above it. Structured content has no place for thinking and stays.
pub open spec fn content_with_thinking(
    content: Option<JsonModel>,
    thinking: Option<Seq<char>>,
) -> Option<JsonModel> {
    match thinking {
        Some(thought) => match content {
            Some(JsonModel::String(text)) => Some(JsonModel::String(think_above(thought, text))),
            Some(JsonModel::Null) | None => Some(
                JsonModel::String(think_above(thought, Seq::empty())),
            ),
            Some(_) => content,
        },
        None => content,
    }
}

/// A message of the assistant that only makes tool calls.
pub open spec fn calls_message(
    calls: Seq<JsonModel>,
    thinking: Option<Seq<char>>,
) -> MessageModel {
    MessageModel {
        role: "assistant"@,
        content: Some(
            match thinking {
                Some(thought) => JsonModel::String(think_block(thought)),
                None => JsonModel::Null,
            },
        ),
        name: None,
        tool_calls: Some(calls),
        tool_call_id: None,
    }
}

/// The messages after the pending calls, if any, have been emitted: they join a plain assistant
/// message at the end, else they make up a message of their own.
pub open spec fn with_calls(
    messages: Seq<MessageModel>,
    pending: Seq<JsonModel>,
    reasoning: Seq<Seq<char>>,
) -> Seq<MessageModel> {
    let thinking = thinking_of(reasoning);
    if pending.len() == 0 {
        messages
    } else if ends_in_plain_assistant(messages) {
        messages.drop_last().push(
            MessageModel {
                content: content_with_thinking(messages.last().content, thinking),
                tool_calls: Some(pending),
                ..messages.last()
            },
        )
    } else {
        messages.push(calls_message(pending, thinking))
    }
}

/// The reasoning that is left after the pending calls, if any, have been emitted.
pub open spec fn left_reasoning(
    pending: Seq<JsonModel>,
    reasoning: Seq<Seq<char>>,
) -> Seq<Seq<char>> {
    if pending.len() == 0 {
        reasoning
    } else {
        Seq::empty()
    }
}

impl OpenCalls {
    /// No calls yet.
    pub fn new() -> (calls: OpenCalls)
        ensures
            calls.deep_view() == no_calls(),
    {
        let calls = OpenCalls { names: StringHashMap::new(), unmatched: VecDeque::new() };
        assert(names_of(calls.names@) =~= Map::empty());
        assert(calls.unmatched.deep_view() =~= Seq::empty());
        calls
    }

    /// Notes a call of the function `name`.
    pub fn record(&mut self, call_id: &String, name: &String)
        ensures
            final(self).deep_view() == recorded(old(self).deep_view(), call_id@, name@),
    {
        let ghost before = self.deep_view();
        self.names.insert(call_id.clone(), name.clone());
        self.unmatched.push_back((call_id.clone(), name.clone()));
        assert(names_of(self.names@) =~= before.names.insert(call_id@, name@));
        assert(self.unmatched.deep_view() =~= before.unmatched.push((call_id@, name@)));
    }

    /// Takes the name of the open call with this identifier, which is answered by that.
    fn take_name(&mut self, call_id: &str) -> (name: Option<String>)
        ensures
            match name {
                Some(name) => {
                    &&& old(self).deep_view().names.contains_key(call_id@)
                    &&& name@ == old(self).deep_view().names[call_id@]
                    &&& final(self).deep_view().names == old(self).deep_view().names.remove(
                        call_id@,
                    )
                    &&& final(self).deep_view().unmatched == old(self).deep_view().unmatched
                },
                None => {
                    &&& !old(self).deep_view().names.contains_key(call_id@)
                    &&& final(self).deep_view() == old(self).deep_view()
                },
            },
    {
        let ghost before = self.deep_view();
        let name: Option<String> = match self.names.get(call_id) {
            Some(name) => Some(name.clone()),
            None => None,
        };
        if name.is_some() {
            self.names.remove(call_id);
            assert(names_of(self.names@) =~= before.names.remove(call_id@));
        }
        name
    }

    /// Takes the first unanswered call with this identifier out of the queue.
    fn drop_unmatched(&mut self, call_id: &str)
        ensures
            final(self).deep_view().names == old(self).deep_view().names,
            final(self).deep_view().unmatched == without_first(
                old(self).deep_view().unmatched,
                call_id@,
            ),
    {
        let ghost queue = self.deep_view().unmatched;
        let ghost names = self.deep_view().names;
        let mut i: usize = 0;
        while i < self.unmatched.len()
            invariant
                i <= self.unmatched@.len(),
                queue == self.deep_view().unmatched,
                names == self.deep_view().names,
                queue == old(self).deep_view().unmatched,
                names == old(self).deep_view().names,
                forall|j: int| 0 <= j < i ==> (#[trigger] queue[j]).0 != call_id@,
            decreases self.unmatched@.len() - i,
        {
            if text_eq(self.unmatched[i].0.as_str(), call_id) {
                proof {
                    assert(queue[i as int].0 == call_id@);
                    lemma_without_first_found(queue, call_id@, i as int);
                }
                self.unmatched.remove(i);
                assert(self.unmatched.deep_view() =~= queue.remove(i as int));
                return ;
            }
            assert(queue[i as int].0 != call_id@);
            i += 1;
        }
        proof {
            lemma_without_first_absent(queue, call_id@);
        }
    }

    /// Takes the oldest unanswered call out of the queue.
    fn take_oldest(&mut self) -> (oldest: Option<(String, String)>)
        ensures
            final(self).deep_view().names == old(self).deep_view().names,
            match oldest {
                Some((id, name)) => {
                    &&& old(self).deep_view().unmatched.len() > 0
                    &&& (id@, name@) == old(self).deep_view().unmatched[0]
                    &&& final(self).deep_view().unmatched
                        == old(self).deep_view().unmatched.drop_first()
                },
                None => {
                    &&& old(self).deep_view().unmatched.len() == 0
                    &&& final(self).deep_view().unmatched == old(self).deep_view().unmatched
                },
            },
    {
        let ghost queue = self.deep_view().unmatched;
        let oldest = self.unmatched.pop_front();
        proof {
            if oldest is Some {
                assert(self.unmatched.deep_view() =~= queue.drop_first());
            }
        }
        oldest
    }
}

/// The first entry for an identifier is the one that goes.
pub proof fn lemma_without_first_found(
    queue: Seq<(Seq<char>, Seq<char>)>,
    call_id: Seq<char>,
    at: int,
)
    requires
        0 <= at < queue.len(),
        queue[at].0 == call_id,
        forall|j: int| 0 <= j < at ==> (#[trigger] queue[j]).0 != call_id,
    ensures
        without_first(queue, call_id) == queue.remove(at),
    decreases queue.len(),
{
    if at == 0 {
        assert(queue.drop_first() =~= queue.remove(0));
    } else {
        let rest = queue.drop_first();
        assert(queue[0].0 != call_id);
        assert forall|j: int| 0 <= j < at - 1 implies (#[trigger] rest[j]).0 != call_id by {
            assert(rest[j] == queue[j + 1]);
        }
        lemma_without_first_found(rest, call_id, at - 1);
        assert(seq![queue[0]] + rest.remove(at - 1) =~= queue.remove(at));
    }
}

/// Without an entry for an identifier nothing goes.
pub proof fn lemma_without_first_absent(queue: Seq<(Seq<char>, Seq<char>)>, call_id: Seq<char>)
    requires
        forall|j: int| 0 <= j < queue.len() ==> (#[trigger] queue[j]).0 != call_id,
    ensures
        without_first(queue, call_id) == queue,
    decreases queue.len(),
{
    if queue.len() > 0 {
        let rest = queue.drop_first();
        assert(queue[0].0 != call_id);
        assert forall|j: int| 0 <= j < rest.len() implies (#[trigger] rest[j]).0 != call_id by {
            assert(rest[j] == queue[j + 1]);
        }
        lemma_without_first_absent(rest, call_id);
        assert(seq![queue[0]] + rest =~= queue);
    }
}

/// Finds the identifier and the function name for a tool result.
///
/// The name is that of the call that `call_id` belongs to, else the one that the client gave, else
/// that of the oldest unanswered call.
pub fn resolve_tool_call(
    call_id: Option<&str>,
    explicit_name: Option<&str>,
    calls: &mut OpenCalls,
) -> (found: (Option<String>, Option<String>))
    ensures
        (Resolution {
            calls: final(calls).deep_view(),
            tool_call_id: found.0.deep_view(),
            name: found.1.deep_view(),
        }) == resolved(old(calls).deep_view(), call_id.deep_view(), explicit_name.deep_view()),
{
    let explicit: Option<String> = match explicit_name {
        Some(name) => Some(name.to_string()),
        None => None,
    };
    if let Some(id) = call_id {
        if !id.is_empty() {
            if let Some(name) = calls.take_name(id) {
                calls.drop_unmatched(id);
                return (Some(id.to_string()), Some(name));
            }
            let name: Option<String> = match explicit {
                Some(name) => Some(name),
                None => match calls.take_oldest() {
                    Some((_, name)) => Some(name),
                    None => None,
                },
            };
            return (Some(id.to_string()), name);
        }
    }
    match calls.take_oldest() {
        Some((id, name)) => {
            let _ = calls.take_name(id.as_str());
            assert(calls.deep_view().names =~= old(calls).deep_view().names.remove(id@));
            let name: Option<String> = match explicit {
                Some(given) => Some(given),
                None => Some(name),
            };
            (Some(id), name)
        },
        None => (None, explicit),
    }
}

/// Builds `<think>text</think>`.
pub fn thinking_block(text: &str) -> (block: String)
    ensures
        block@ == think_block(text@),
{
    let mut block = String::new();
    block.append("<think>");
    block.append(text);
    block.append("</think>");
    assert(block@ =~= think_block(text@));
    block
}

/// Builds a block with `thinking` and `text` below it.
pub fn thinking_above(thinking: &str, text: &str) -> (whole: String)
    ensures
        whole@ == think_above(thinking@, text@),
{
    let mut whole = thinking_block(thinking);
    whole.append("\n");
    whole.append(text);
    whole
}

/// Emits the pending calls as the tool calls of one assistant message, with the reasoning that
/// led to them.
///
/// A plain assistant message at the end takes the calls; else they make up a new message, whose
/// content is the reasoning or `null`.
pub fn flush_pending_tool_calls(
    messages: &mut Vec<ChatMessage>,
    pending_tool_calls: &mut Vec<Json>,
    accumulated_reasoning: &mut Vec<String>,
)
    ensures
        final(messages).deep_view() == with_calls(
            old(messages).deep_view(),
            old(pending_tool_calls).deep_view(),
            old(accumulated_reasoning).deep_view(),
        ),
        final(pending_tool_calls)@.len() == 0,
        final(accumulated_reasoning).deep_view() == left_reasoning(
            old(pending_tool_calls).deep_view(),
            old(accumulated_reasoning).deep_view(),
        ),
{
    if pending_tool_calls.is_empty() {
        return ;
    }
    let ghost before = messages.deep_view();
    let ghost pending = pending_tool_calls.deep_view();
    let ghost reasoning = accumulated_reasoning.deep_view();
    let mut tool_calls: Vec<Json> = Vec::new();
    tool_calls.append(pending_tool_calls);
    assert(tool_calls.deep_view() =~= pending);

    let thinking: Option<String> = if accumulated_reasoning.is_empty() {
        None
    } else {
        Some(join(accumulated_reasoning, "\n"))
    };
    accumulated_reasoning.clear();
    assert(accumulated_reasoning.deep_view() =~= Seq::empty());
    assert(thinking.deep_view() == thinking_of(reasoning));

    let count = messages.len();
    if count > 0 && text_eq(messages[count - 1].role.as_str(), "assistant") && messages[count
        - 1].tool_calls.is_none() {
        assert(ends_in_plain_assistant(before));
        if let Some(last) = messages.pop() {
            let ghost old_last = last.deep_view();
            assert(old_last == before.last());
            assert(messages.deep_view() =~= before.drop_last());
            let content: Option<Json> = match thinking {
                Some(thought) => match last.content {
                    Some(Json::String(text)) => Some(
                        Json::String(thinking_above(thought.as_str(), text.as_str())),
                    ),
                    Some(Json::Null) | None => {
                        proof {
                            lemma_empty_text();
                        }
                        Some(Json::String(thinking_above(thought.as_str(), "")))
                    },
                    Some(other) => Some(other),
                },
                None => last.content,
            };
            assert(content.deep_view() == content_with_thinking(
                old_last.content,
                thinking_of(reasoning),
            ));
            messages.push(
                ChatMessage {
                    role: last.role,
                    content,
                    name: last.name,
                    tool_calls: Some(tool_calls),
                    tool_call_id: last.tool_call_id,
                },
            );
            assert(messages.deep_view() =~= with_calls(before, pending, reasoning));
        }
        return ;
    }
    assert(!ends_in_plain_assistant(before));
    let content = match thinking {
        Some(thought) => Json::String(thinking_block(thought.as_str())),
        None => Json::Null,
    };
    messages.push(
        ChatMessage {
            role: "assistant".to_string(),
            content: Some(content),
            name: None,
            tool_calls: Some(tool_calls),
            tool_call_id: None,
        },
    );
    assert(messages.deep_view() =~= with_calls(before, pending, reasoning));
}

} // verus!

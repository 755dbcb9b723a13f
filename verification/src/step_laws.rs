//! What each input item does to a conversation.
use vstd::prelude::*;

use crate::calls::{
    lemma_without_first_absent, lemma_without_first_found, no_calls, recorded, resolved,
    CallsModel,
};
use crate::content::{content_error, content_reasoning, content_value, tool_body, tool_body_error};
use crate::conversation::{
    conversation_messages, item_error, needs_identifier, run, started, step, turn_ended,
    ConversationModel,
};
use crate::conversation_laws::{
    calls_in, calls_made, identifier_of, law_calls_precede_results, lemma_calls_made_holds,
    lemma_roles_differ, lemma_run, made_call, made_up,
};
use crate::json::JsonModel;
use crate::models::{ContentModel, ItemModel, MessageModel};
use crate::output::output_text;
use crate::request_laws::{lemma_joined_holds, occurs_in};
use crate::text::{blank, decimal, joined};

verus! {

/// A conversation starts with the given messages and nothing else: nothing waits, no call is open,
/// and no identifier has been made up.
pub proof fn law_conversations_start_empty(messages: Seq<MessageModel>)
    ensures
        started(messages).messages == messages,
        started(messages).reasoning.len() == 0,
        started(messages).pending.len() == 0,
        started(messages).calls == no_calls(),
        no_calls().names == Map::<Seq<char>, Seq<char>>::empty(),
        no_calls().unmatched == Seq::<(Seq<char>, Seq<char>)>::empty(),
        started(messages).synthetic == 0,
{
}

/// Items count one by one, in order, and each counts once.
pub proof fn law_items_count_in_order(
    state: ConversationModel,
    items: Seq<ItemModel>,
    item: ItemModel,
)
    ensures
        run(state, Seq::empty()) == state,
        run(state, seq![item]) == step(state, item),
        run(state, items.push(item)) == step(run(state, items), item),
{
    assert(items.push(item).drop_last() =~= items);
    assert(seq![item].drop_last() =~= Seq::empty());
    assert(run(state, Seq::empty()) == state);
}

/// At the end of a turn in which no call waits, nothing changes.
pub proof fn law_a_turn_without_calls_adds_nothing(state: ConversationModel)
    requires
        state.pending.len() == 0,
    ensures
        turn_ended(state) == state,
{
    assert(turn_ended(state) =~= state);
}

/// At the end of a turn, the calls that wait become those of the last message, which is the
/// assistant's. Where the last message is the assistant's and makes no calls yet, it takes them and
/// keeps all else but its text, which stands below the reasoning that waited; content that is not
/// text stays. Else they make up a new message, with the reasoning that waited as its content, or
/// `null`. The reasoning is used up, and what else there is stays.
pub proof fn law_waiting_calls_are_made(state: ConversationModel)
    requires
        state.pending.len() > 0,
    ensures
        ({
            let after = turn_ended(state);
            let last = after.messages.last();
            let thinking = "<think>"@ + joined(state.reasoning, "\n"@) + "</think>"@;
            &&& after.pending.len() == 0
            &&& after.reasoning.len() == 0
            &&& after.calls == state.calls
            &&& after.synthetic == state.synthetic
            &&& after.messages.len() > 0
            &&& last.role == "assistant"@
            &&& last.tool_calls == Some(state.pending)
            &&& if state.messages.len() > 0 && state.messages.last().role == "assistant"@
                && state.messages.last().tool_calls is None {
                let joining = state.messages.last();
                &&& after.messages.drop_last() == state.messages.drop_last()
                &&& last.name == joining.name
                &&& last.tool_call_id == joining.tool_call_id
                &&& state.reasoning.len() == 0 ==> last.content == joining.content
                &&& state.reasoning.len() > 0 ==> last.content == match joining.content {
                    Some(JsonModel::String(text)) => Some(
                        JsonModel::String(thinking + seq!['\n'] + text),
                    ),
                    Some(JsonModel::Null) | None => Some(JsonModel::String(thinking + seq!['\n'])),
                    Some(other) => Some(other),
                }
            } else {
                &&& after.messages.drop_last() == state.messages
                &&& last.name is None
                &&& last.tool_call_id is None
                &&& state.reasoning.len() == 0 ==> last.content == Some(JsonModel::Null)
                &&& state.reasoning.len() > 0 ==> last.content == Some(JsonModel::String(thinking))
            }
        }),
{
    reveal_strlit("\n");
    assert("\n"@ =~= seq!['\n']);
    let after = turn_ended(state);
    let thinking = "<think>"@ + joined(state.reasoning, "\n"@) + "</think>"@;
    assert(thinking + seq!['\n'] + Seq::empty() =~= thinking + seq!['\n']);
    if state.messages.len() > 0 && state.messages.last().role == "assistant"@
        && state.messages.last().tool_calls is None {
        assert(after.messages.drop_last() =~= state.messages.drop_last());
    } else {
        assert(after.messages.drop_last() =~= state.messages);
    }
}

/// A function call waits for the end of the turn, behind the calls that wait already. The call that
/// is made carries the item's `call_id`; where there is none, the item's `id`; and only where there
/// is neither, an identifier made up from the function's name and a running number. It names the
/// function and carries the arguments as they are, or `{}` where they are blank or missing. The
/// call can be answered from then on.
pub proof fn law_calls_keep_their_identifiers(
    state: ConversationModel,
    call_id: Option<Seq<char>>,
    id: Option<Seq<char>>,
    name: Seq<char>,
    arguments: Option<Seq<char>>,
)
    ensures
        ({
            let after = step(state, ItemModel::FunctionCall { call_id, id, name, arguments });
            let identifier = if call_id is Some {
                call_id->0
            } else if id is Some {
                id->0
            } else {
                "call_"@ + name + "_"@ + decimal(state.synthetic + 1)
            };
            let given = if arguments is Some && !blank(arguments->0) {
                arguments->0
            } else {
                "{}"@
            };
            &&& after.pending == state.pending.push(
                JsonModel::Object(
                    map![
                        "id"@ => JsonModel::String(identifier),
                        "type"@ => JsonModel::String("function"@),
                        "function"@ => JsonModel::Object(
                            map![
                                "name"@ => JsonModel::String(name),
                                "arguments"@ => JsonModel::String(given),
                            ],
                        ),
                    ],
                ),
            )
            &&& after.calls.names == state.calls.names.insert(identifier, name)
            &&& after.calls.unmatched == state.calls.unmatched.push((identifier, name))
            &&& after.synthetic == if call_id is None && id is None {
                state.synthetic + 1
            } else {
                state.synthetic
            }
            &&& after.messages == state.messages
            &&& after.reasoning == state.reasoning
        }),
{
}

/// An identifier is made up exactly for a function call with neither `call_id` nor `id`.
pub proof fn law_identifiers_are_made_up_for_calls_without_one(item: ItemModel)
    ensures
        needs_identifier(item) <==> {
            &&& item is FunctionCall
            &&& item->FunctionCall_call_id is None
            &&& item->FunctionCall_id is None
        },
{
}

/// An identifier that belongs to an open call gives that call's name, whatever name the result
/// gives. The call is answered by that, once: it leaves the names, and its oldest entry leaves the
/// queue; all other entries stay, in order.
pub proof fn law_known_identifiers_find_their_call(
    calls: CallsModel,
    id: Seq<char>,
    given_name: Option<Seq<char>>,
    at: int,
)
    requires
        id.len() > 0,
        calls.names.contains_key(id),
    ensures
        ({
            let answer = resolved(calls, Some(id), given_name);
            &&& answer.tool_call_id == Some(id)
            &&& answer.name == Some(calls.names[id])
            &&& answer.calls.names == calls.names.remove(id)
            &&& (0 <= at < calls.unmatched.len() && calls.unmatched[at].0 == id && forall|k: int|
                0 <= k < at ==> (#[trigger] calls.unmatched[k]).0 != id)
                ==> answer.calls.unmatched == calls.unmatched.remove(at)
            &&& (forall|k: int|
                0 <= k < calls.unmatched.len() ==> (#[trigger] calls.unmatched[k]).0 != id)
                ==> answer.calls.unmatched == calls.unmatched
        }),
{
    let queue = calls.unmatched;
    if 0 <= at < queue.len() && queue[at].0 == id && forall|k: int|
        0 <= k < at ==> (#[trigger] queue[k]).0 != id {
        lemma_without_first_found(queue, id, at);
    }
    if forall|k: int| 0 <= k < queue.len() ==> (#[trigger] queue[k]).0 != id {
        lemma_without_first_absent(queue, id);
    }
}

/// An identifier that belongs to no open call stays the identifier of the result. The name is the
/// one that the result gives; without one it is that of the oldest unanswered call, which leaves
/// the queue by that; and where all calls are answered, there is none.
pub proof fn law_unknown_identifiers_stay(
    calls: CallsModel,
    id: Seq<char>,
    given_name: Option<Seq<char>>,
)
    requires
        id.len() > 0,
        !calls.names.contains_key(id),
    ensures
        ({
            let answer = resolved(calls, Some(id), given_name);
            &&& answer.tool_call_id == Some(id)
            &&& answer.calls.names == calls.names
            &&& given_name is Some ==> answer.name == given_name && answer.calls == calls
            &&& given_name is None && calls.unmatched.len() == 0 ==> answer.name is None
                && answer.calls == calls
            &&& given_name is None && calls.unmatched.len() > 0 ==> answer.name == Some(
                calls.unmatched[0].1,
            ) && answer.calls.unmatched == calls.unmatched.drop_first()
        }),
{
}

/// A result without an identifier, or with an empty one, answers the oldest unanswered call and
/// takes its identifier; its name is the one that the result gives, else that of the call. Where
/// all calls are answered, it has no identifier, and no name but the one that it gives.
pub proof fn law_results_without_identifiers_answer_the_oldest_call(
    calls: CallsModel,
    call_id: Option<Seq<char>>,
    given_name: Option<Seq<char>>,
)
    requires
        call_id is None || call_id->0.len() == 0,
    ensures
        ({
            let answer = resolved(calls, call_id, given_name);
            &&& calls.unmatched.len() == 0 ==> answer.tool_call_id is None && answer.name
                == given_name && answer.calls == calls
            &&& calls.unmatched.len() > 0 ==> {
                &&& answer.tool_call_id == Some(calls.unmatched[0].0)
                &&& answer.name == if given_name is Some {
                    given_name
                } else {
                    Some(calls.unmatched[0].1)
                }
                &&& answer.calls.names == calls.names.remove(calls.unmatched[0].0)
                &&& answer.calls.unmatched == calls.unmatched.drop_first()
            }
        }),
{
}

/// A call that is noted can be found by its identifier, stands last in the queue, and hides no
/// other.
pub proof fn law_noted_calls_are_open(calls: CallsModel, call_id: Seq<char>, name: Seq<char>)
    ensures
        recorded(calls, call_id, name).names == calls.names.insert(call_id, name),
        recorded(calls, call_id, name).unmatched == calls.unmatched.push((call_id, name)),
{
}

/// The output of a call ends the turn and becomes a tool message with its text. It is paired by the
/// item's `call_id`; only where there is none, by the item's `id`.
pub proof fn law_outputs_become_tool_messages(
    state: ConversationModel,
    call_id: Option<Seq<char>>,
    id: Option<Seq<char>>,
    output: JsonModel,
    name: Option<Seq<char>>,
)
    ensures
        ({
            let after = step(state, ItemModel::FunctionCallOutput { call_id, id, output, name });
            let answer = resolved(
                state.calls,
                if call_id is Some {
                    call_id
                } else {
                    id
                },
                name,
            );
            &&& after.messages == turn_ended(state).messages.push(
                MessageModel {
                    role: "tool"@,
                    content: Some(JsonModel::String(output_text(output))),
                    name: answer.name,
                    tool_calls: None,
                    tool_call_id: answer.tool_call_id,
                },
            )
            &&& after.calls == answer.calls
            &&& after.pending.len() == 0
            &&& after.reasoning == turn_ended(state).reasoning
            &&& after.synthetic == state.synthetic
        }),
{
}

/// A message of a tool ends the turn and becomes a tool message with its body, paired by the
/// item's `tool_call_id`. A plain text is the body as it is.
pub proof fn law_tool_messages_keep_their_body(
    state: ConversationModel,
    content: ContentModel,
    tool_call_id: Option<Seq<char>>,
    attachments: Option<Seq<Seq<char>>>,
)
    ensures
        ({
            let after = step(
                state,
                ItemModel::Message { role: "tool"@, content, tool_call_id, attachments },
            );
            let answer = resolved(state.calls, tool_call_id, None);
            &&& after.messages == turn_ended(state).messages.push(
                MessageModel {
                    role: "tool"@,
                    content: Some(
                        JsonModel::String(
                            match content {
                                ContentModel::String(text) => text,
                                ContentModel::Array(_) => tool_body(content),
                            },
                        ),
                    ),
                    name: answer.name,
                    tool_calls: None,
                    tool_call_id: answer.tool_call_id,
                },
            )
            &&& after.calls == answer.calls
            &&& after.pending.len() == 0
            &&& after.reasoning == turn_ended(state).reasoning
            &&& after.synthetic == state.synthetic
        }),
{
}

/// A message of the assistant stands below all the reasoning that waits for it, be it from earlier
/// items or from its own content, and makes the calls that wait; whether calls wait does not
/// change its content. Without reasoning the content is as it is. Nothing waits afterwards.
pub proof fn law_replies_stand_below_their_reasoning(
    state: ConversationModel,
    content: ContentModel,
    tool_call_id: Option<Seq<char>>,
    attachments: Option<Seq<Seq<char>>>,
)
    ensures
        ({
            let after = step(
                state,
                ItemModel::Message { role: "assistant"@, content, tool_call_id, attachments },
            );
            let reasoning = match content_reasoning(content) {
                Some(inline) => state.reasoning.push(inline),
                None => state.reasoning,
            };
            let shown = match content_value(content) {
                JsonModel::String(text) => text,
                _ => Seq::empty(),
            };
            let last = after.messages.last();
            &&& after.messages.len() == state.messages.len() + 1
            &&& after.messages.drop_last() == state.messages
            &&& last.role == "assistant"@
            &&& last.name is None
            &&& last.tool_call_id is None
            &&& state.pending.len() == 0 ==> last.tool_calls is None
            &&& state.pending.len() > 0 ==> last.tool_calls == Some(state.pending)
            &&& reasoning.len() == 0 ==> last.content == Some(content_value(content))
            &&& reasoning.len() > 0 ==> last.content == Some(
                JsonModel::String(
                    "<think>"@ + joined(reasoning, "\n"@) + "</think>"@ + seq!['\n'] + shown,
                ),
            )
            &&& after.reasoning.len() == 0
            &&& after.pending.len() == 0
            &&& after.calls == state.calls
            &&& after.synthetic == state.synthetic
        }),
{
    lemma_roles_differ();
    reveal_strlit("\n");
    assert("\n"@ =~= seq!['\n']);
    let after = step(
        state,
        ItemModel::Message { role: "assistant"@, content, tool_call_id, attachments },
    );
    assert(after.messages.drop_last() =~= state.messages);
}

/// No reasoning is lost: every piece that waits occurs in the content of the next message of the
/// assistant, whether or not calls wait, and the text of the message ends that content.
pub proof fn law_waiting_reasoning_is_shown(
    state: ConversationModel,
    text: Seq<char>,
    tool_call_id: Option<Seq<char>>,
    attachments: Option<Seq<Seq<char>>>,
    k: int,
)
    requires
        0 <= k < state.reasoning.len(),
    ensures
        ({
            let after = step(
                state,
                ItemModel::Message {
                    role: "assistant"@,
                    content: ContentModel::String(text),
                    tool_call_id,
                    attachments,
                },
            );
            &&& after.messages.last().content matches Some(JsonModel::String(whole))
            &&& occurs_in(state.reasoning[k], whole)
            &&& whole.len() >= text.len()
            &&& whole.skip(whole.len() - text.len()) == text
        }),
{
    law_replies_stand_below_their_reasoning(
        state,
        ContentModel::String(text),
        tool_call_id,
        attachments,
    );
    let piece = state.reasoning[k];
    let thinking = joined(state.reasoning, "\n"@);
    let whole = "<think>"@ + thinking + "</think>"@ + seq!['\n'] + text;
    lemma_joined_holds(state.reasoning, "\n"@, k);
    let start = choose|start: int|
        {
            &&& 0 <= start <= thinking.len() - piece.len()
            &&& #[trigger] thinking.subrange(start, start + piece.len()) == piece
        };
    let moved = "<think>"@.len() + start;
    assert(whole.subrange(moved, moved + piece.len()) =~= thinking.subrange(
        start,
        start + piece.len(),
    ));
    assert(whole.skip(whole.len() - text.len()) =~= text);
}

/// A message that neither a tool nor the assistant wrote ends the turn and is passed on with its
/// role and content. Reasoning inside it waits for the assistant, behind what waits already.
pub proof fn law_other_messages_are_passed_on(
    state: ConversationModel,
    role: Seq<char>,
    content: ContentModel,
    tool_call_id: Option<Seq<char>>,
    attachments: Option<Seq<Seq<char>>>,
)
    requires
        role != "tool"@,
        role != "assistant"@,
    ensures
        ({
            let after = step(
                state,
                ItemModel::Message { role, content, tool_call_id, attachments },
            );
            &&& after.messages == turn_ended(state).messages.push(
                MessageModel {
                    role,
                    content: Some(content_value(content)),
                    name: None,
                    tool_calls: None,
                    tool_call_id: None,
                },
            )
            &&& after.reasoning == match content_reasoning(content) {
                Some(inline) => turn_ended(state).reasoning.push(inline),
                None => turn_ended(state).reasoning,
            }
            &&& after.pending.len() == 0
            &&& after.calls == state.calls
            &&& after.synthetic == state.synthetic
        }),
{
}

/// What another agent says counts as a message of the user with the same content.
pub proof fn law_agents_count_as_users(
    state: ConversationModel,
    author: Option<Seq<char>>,
    recipient: Option<Seq<char>>,
    content: ContentModel,
    tool_call_id: Option<Seq<char>>,
    attachments: Option<Seq<Seq<char>>>,
)
    ensures
        step(state, ItemModel::AgentMessage { author, recipient, content }) == step(
            state,
            ItemModel::Message { role: "user"@, content, tool_call_id, attachments },
        ),
{
    lemma_roles_differ();
}

/// Reasoning waits, behind the reasoning that waits already; encrypted reasoning is left out. A
/// reference to an item changes nothing.
pub proof fn law_reasoning_waits(
    state: ConversationModel,
    text: Seq<char>,
    encrypted_content: Option<Seq<char>>,
    id: Seq<char>,
)
    ensures
        step(state, ItemModel::Reasoning { text: Some(text), encrypted_content }) == (
        ConversationModel { reasoning: state.reasoning.push(text), ..state }),
        step(state, ItemModel::Reasoning { text: None, encrypted_content }) == state,
        step(state, ItemModel::ItemReference { id }) == state,
{
}

/// Messages with attachments are refused, then messages of a tool without an identifier, and then
/// those whose content is; what another agent says is refused where its content is, and all other
/// items can be converted.
pub proof fn law_items_are_refused(
    role: Seq<char>,
    content: ContentModel,
    tool_call_id: Option<Seq<char>>,
    attachments: Option<Seq<Seq<char>>>,
    author: Option<Seq<char>>,
    recipient: Option<Seq<char>>,
    item: ItemModel,
)
    ensures
        ({
            let error = item_error(
                ItemModel::Message { role, content, tool_call_id, attachments },
            );
            &&& attachments is Some && attachments->0.len() > 0 ==> error == Some(
                "attachments_not_supported"@,
            )
            &&& attachments is None || attachments->0.len() == 0 ==> {
                &&& role == "tool"@ && tool_call_id is None ==> error == Some(
                    "tool_message_missing_tool_call_id"@,
                )
                &&& role == "tool"@ && tool_call_id is Some ==> error == tool_body_error(content)
                &&& role != "tool"@ ==> error == content_error(content)
            }
        }),
        item_error(ItemModel::AgentMessage { author, recipient, content }) == content_error(
            content,
        ),
        !(item is Message) && !(item is AgentMessage) ==> item_error(item) is None,
{
}

/// Without items a conversation is the messages that it started with.
pub proof fn law_no_items_add_nothing(messages: Seq<MessageModel>)
    ensures
        conversation_messages(messages, Seq::empty()) == messages,
{
}

/// The messages of a conversation are those after its last item, once the turn has ended; an item
/// more counts before the turn ends.
pub proof fn law_the_last_turn_ends(
    messages: Seq<MessageModel>,
    items: Seq<ItemModel>,
    item: ItemModel,
)
    ensures
        conversation_messages(messages, items.push(item)) == turn_ended(
            step(run(started(messages), items), item),
        ).messages,
        conversation_messages(messages, items) == turn_ended(
            run(started(messages), items),
        ).messages,
{
    assert(items.push(item).drop_last() =~= items);
}

/// One more item that neither a tool nor the assistant wrote adds one message behind those that the
/// items before it make up.
pub proof fn law_one_more_message(
    messages: Seq<MessageModel>,
    items: Seq<ItemModel>,
    role: Seq<char>,
    content: ContentModel,
    tool_call_id: Option<Seq<char>>,
    attachments: Option<Seq<Seq<char>>>,
)
    requires
        role != "tool"@,
        role != "assistant"@,
    ensures
        conversation_messages(
            messages,
            items.push(ItemModel::Message { role, content, tool_call_id, attachments }),
        ) == conversation_messages(messages, items).push(
            MessageModel {
                role,
                content: Some(content_value(content)),
                name: None,
                tool_calls: None,
                tool_call_id: None,
            },
        ),
{
    law_the_last_turn_ends(
        messages,
        items,
        ItemModel::Message { role, content, tool_call_id, attachments },
    );
}

/// One more output of a call adds one tool message with its text behind those that the items before
/// it make up. The message carries the item's `call_id` where that is not empty, and without a
/// `call_id` the item's `id` where that is not empty.
pub proof fn law_one_more_output(
    messages: Seq<MessageModel>,
    items: Seq<ItemModel>,
    call_id: Option<Seq<char>>,
    id: Option<Seq<char>>,
    output: JsonModel,
    name: Option<Seq<char>>,
)
    ensures
        ({
            let all = conversation_messages(
                messages,
                items.push(ItemModel::FunctionCallOutput { call_id, id, output, name }),
            );
            &&& all.len() == conversation_messages(messages, items).len() + 1
            &&& all.drop_last() == conversation_messages(messages, items)
            &&& all.last().role == "tool"@
            &&& all.last().content == Some(JsonModel::String(output_text(output)))
            &&& all.last().tool_calls is None
            &&& call_id is Some && call_id->0.len() > 0 ==> all.last().tool_call_id == call_id
            &&& call_id is None && id is Some && id->0.len() > 0 ==> all.last().tool_call_id == id
        }),
{
    let item = ItemModel::FunctionCallOutput { call_id, id, output, name };
    law_the_last_turn_ends(messages, items, item);
    let all = conversation_messages(messages, items.push(item));
    assert(all.drop_last() =~= conversation_messages(messages, items));
}

/// One more message of a tool adds one tool message with its body behind those that the items
/// before it make up, and carries the item's `tool_call_id` where that is not empty. A plain text
/// is passed on as it is.
pub proof fn law_one_more_tool_message(
    messages: Seq<MessageModel>,
    items: Seq<ItemModel>,
    content: ContentModel,
    tool_call_id: Option<Seq<char>>,
    attachments: Option<Seq<Seq<char>>>,
)
    ensures
        ({
            let all = conversation_messages(
                messages,
                items.push(
                    ItemModel::Message { role: "tool"@, content, tool_call_id, attachments },
                ),
            );
            &&& all.len() == conversation_messages(messages, items).len() + 1
            &&& all.drop_last() == conversation_messages(messages, items)
            &&& all.last().role == "tool"@
            &&& content matches ContentModel::String(text) ==> all.last().content == Some(
                JsonModel::String(text),
            )
            &&& content is Array ==> all.last().content == Some(
                JsonModel::String(tool_body(content)),
            )
            &&& all.last().tool_calls is None
            &&& tool_call_id is Some && tool_call_id->0.len() > 0 ==> all.last().tool_call_id
                == tool_call_id
        }),
{
    let item = ItemModel::Message { role: "tool"@, content, tool_call_id, attachments };
    law_the_last_turn_ends(messages, items, item);
    let all = conversation_messages(messages, items.push(item));
    assert(all.drop_last() =~= conversation_messages(messages, items));
}

/// One more function call is the last call of the last message, which is the assistant's, under the
/// item's `call_id`, else its `id`, else an identifier with the number of such calls so far.
pub proof fn law_one_more_call(
    messages: Seq<MessageModel>,
    items: Seq<ItemModel>,
    call_id: Option<Seq<char>>,
    id: Option<Seq<char>>,
    name: Seq<char>,
    arguments: Option<Seq<char>>,
)
    ensures
        ({
            let all = conversation_messages(
                messages,
                items.push(ItemModel::FunctionCall { call_id, id, name, arguments }),
            );
            let identifier = if call_id is Some {
                call_id->0
            } else if id is Some {
                id->0
            } else {
                "call_"@ + name + "_"@ + decimal(made_up(items) + 1)
            };
            let given = if arguments is Some && !blank(arguments->0) {
                arguments->0
            } else {
                "{}"@
            };
            &&& all.len() > 0
            &&& all.last().role == "assistant"@
            &&& all.last().tool_calls is Some
            &&& all.last().tool_calls->0.len() > 0
            &&& all.last().tool_calls->0.last() == JsonModel::Object(
                map![
                    "id"@ => JsonModel::String(identifier),
                    "type"@ => JsonModel::String("function"@),
                    "function"@ => JsonModel::Object(
                        map![
                            "name"@ => JsonModel::String(name),
                            "arguments"@ => JsonModel::String(given),
                        ],
                    ),
                ],
            )
        }),
{
    let item = ItemModel::FunctionCall { call_id, id, name, arguments };
    let before = run(started(messages), items);
    law_the_last_turn_ends(messages, items, item);
    lemma_run(started(messages), items);
    law_calls_keep_their_identifiers(before, call_id, id, name, arguments);
    law_waiting_calls_are_made(step(before, item));
}

/// One more message of the assistant right behind reasoning shows that reasoning, and its own text
/// at the end.
pub proof fn law_reply_behind_reasoning(
    messages: Seq<MessageModel>,
    items: Seq<ItemModel>,
    thought: Seq<char>,
    encrypted_content: Option<Seq<char>>,
    text: Seq<char>,
    tool_call_id: Option<Seq<char>>,
    attachments: Option<Seq<Seq<char>>>,
)
    ensures
        ({
            let all = conversation_messages(
                messages,
                items.push(ItemModel::Reasoning { text: Some(thought), encrypted_content }).push(
                    ItemModel::Message {
                        role: "assistant"@,
                        content: ContentModel::String(text),
                        tool_call_id,
                        attachments,
                    },
                ),
            );
            &&& all.len() > 0
            &&& all.last().role == "assistant"@
            &&& all.last().content matches Some(JsonModel::String(whole))
            &&& occurs_in(thought, whole)
            &&& whole.len() >= text.len()
            &&& whole.skip(whole.len() - text.len()) == text
        }),
{
    let reasoning = ItemModel::Reasoning { text: Some(thought), encrypted_content };
    let longer = items.push(reasoning);
    let before = run(started(messages), longer);
    let content = ContentModel::String(text);
    let reply = ItemModel::Message { role: "assistant"@, content, tool_call_id, attachments };
    assert(longer.drop_last() =~= items);
    assert(before.reasoning.last() == thought);
    law_the_last_turn_ends(messages, longer, reply);
    law_replies_stand_below_their_reasoning(before, content, tool_call_id, attachments);
    law_waiting_reasoning_is_shown(
        before,
        text,
        tool_call_id,
        attachments,
        before.reasoning.len() - 1,
    );
    law_a_turn_without_calls_adds_nothing(step(before, reply));
}

/// A function call and a later output with the same `call_id` become a tool call and a tool message
/// with the same identifier, whatever else the two items and all others hold: the tool message
/// carries the `call_id`, and among the calls before it is one whose `id` is the `call_id`.
pub proof fn law_call_and_output_pair_by_call_id(
    messages: Seq<MessageModel>,
    items: Seq<ItemModel>,
    i: int,
    j: int,
    call_id: Seq<char>,
)
    requires
        0 <= i < j < items.len(),
        call_id.len() > 0,
        items[i] is FunctionCall,
        items[i]->FunctionCall_call_id == Some(call_id),
        items[j] is FunctionCallOutput,
        items[j]->FunctionCallOutput_call_id == Some(call_id),
    ensures
        ({
            let all = conversation_messages(messages, items);
            let at = run(started(messages), items.take(j + 1)).messages.len() - 1;
            &&& 0 <= at < all.len()
            &&& all[at].role == "tool"@
            &&& all[at].tool_call_id == Some(call_id)
            &&& exists|k: int|
                {
                    &&& 0 <= k < calls_in(all.take(at)).len()
                    &&& #[trigger] calls_in(all.take(at))[k] is Object
                    &&& calls_in(all.take(at))[k]->Object_0.contains_key("id"@)
                    &&& calls_in(all.take(at))[k]->Object_0["id"@] == JsonModel::String(call_id)
                }
        }),
{
    let all = conversation_messages(messages, items);
    let through = run(started(messages), items.take(j + 1)).messages;
    let at = through.len() - 1;
    let before = run(started(messages), items.take(j));
    assert(items.take(j + 1).drop_last() =~= items.take(j));
    assert(items.take(j + 1).last() == items[j]);
    law_calls_precede_results(messages, items, j);
    assert(through.last().tool_call_id == Some(call_id));
    assert(all.take(through.len() as int)[at] == through.last());
    assert(all.take(at) =~= through.drop_last());
    let upto = items.take(j);
    assert(upto[i] == items[i]);
    lemma_calls_made_holds(upto, 0, i);
    let made = calls_made(upto, 0);
    let call = made_call(items[i], made_up(upto.take(i)));
    let k = choose|k: int| 0 <= k < made.len() && made[k] == call;
    assert(calls_in(all.take(at))[calls_in(messages).len() + k] == call);
    lemma_call_has_id(items[i], made_up(upto.take(i)));
}

/// The tool call that a function call becomes has the call's identifier under `id`.
proof fn lemma_call_has_id(item: ItemModel, earlier: nat)
    ensures
        made_call(item, earlier)->Object_0.contains_key("id"@),
        made_call(item, earlier)->Object_0["id"@] == JsonModel::String(identifier_of(item, earlier)),
{
    reveal_strlit("id");
    reveal_strlit("type");
    reveal_strlit("function");
    assert("id"@.len() == 2);
    assert("type"@.len() == 4);
    assert("function"@.len() == 8);
}

} // verus!

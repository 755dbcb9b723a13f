//! What holds of every conversation.
use vstd::prelude::*;

use crate::calls::{
    calls_message, ends_in_plain_assistant, recorded, resolved, thinking_of, with_calls,
    without_first, CallsModel,
};
use crate::content::{content_reasoning, content_value};
use crate::conversation::{
    conversation_messages, item_error, items_error, run, started, step, turn_ended,
    ConversationModel,
};
use crate::json::JsonModel;
use crate::models::{ItemModel, MessageModel};
use crate::text::{blank, decimal, joined};

verus! {

/// Whether an item is a message of the given role.
pub open spec fn has_role(item: ItemModel, expected: Seq<char>) -> bool {
    match item {
        ItemModel::Message { role, .. } => role == expected,
        _ => false,
    }
}

/// Whether an item is the result of a tool: a function call output or a message of a tool.
pub open spec fn is_tool_result(item: ItemModel) -> bool {
    item is FunctionCallOutput || has_role(item, "tool"@)
}

/// The identifier that a tool result gives.
pub open spec fn result_id(item: ItemModel) -> Option<Seq<char>> {
    match item {
        ItemModel::FunctionCallOutput { call_id: Some(own), .. } => Some(own),
        ItemModel::FunctionCallOutput { call_id: None, id, .. } => id,
        ItemModel::Message { tool_call_id, .. } => tool_call_id,
        _ => None,
    }
}

/// The function name that a tool result gives.
pub open spec fn result_name(item: ItemModel) -> Option<Seq<char>> {
    match item {
        ItemModel::FunctionCallOutput { name, .. } => name,
        _ => None,
    }
}

/// Whether an item is a function call that comes without an identifier.
pub open spec fn is_anonymous_call(item: ItemModel) -> bool {
    item matches ItemModel::FunctionCall { call_id: None, id: None, .. }
}

/// How many of some items are function calls for which an identifier is made up.
pub open spec fn made_up(items: Seq<ItemModel>) -> nat
    decreases items.len(),
{
    if items.len() == 0 {
        0
    } else if is_anonymous_call(items.last()) {
        made_up(items.drop_last()) + 1
    } else {
        made_up(items.drop_last())
    }
}

/// The identifier of a function call after `earlier` made-up identifiers.
pub open spec fn identifier_of(item: ItemModel, earlier: nat) -> Seq<char> {
    match item {
        ItemModel::FunctionCall { call_id: Some(own), .. } => own,
        ItemModel::FunctionCall { call_id: None, id: Some(own), .. } => own,
        ItemModel::FunctionCall { call_id: None, id: None, name, .. } => "call_"@ + name + "_"@
            + decimal(earlier + 1),
        _ => Seq::empty(),
    }
}

/// The function name of a function call.
pub open spec fn name_of(item: ItemModel) -> Seq<char> {
    match item {
        ItemModel::FunctionCall { name, .. } => name,
        _ => Seq::empty(),
    }
}

/// The arguments of a function call: those given, or an empty object where they are blank or
/// missing.
pub open spec fn arguments_of(item: ItemModel) -> Seq<char> {
    match item {
        ItemModel::FunctionCall { arguments: Some(given), .. } if !blank(given) => given,
        _ => "{}"@,
    }
}

/// The tool call that a function call becomes after `earlier` made-up identifiers.
pub open spec fn made_call(item: ItemModel, earlier: nat) -> JsonModel {
    JsonModel::Object(
        map![
            "id"@ => JsonModel::String(identifier_of(item, earlier)),
            "type"@ => JsonModel::String("function"@),
            "function"@ => JsonModel::Object(
                map![
                    "name"@ => JsonModel::String(name_of(item)),
                    "arguments"@ => JsonModel::String(arguments_of(item)),
                ],
            ),
        ],
    )
}

/// The tool calls that some items make after `earlier` made-up identifiers, in order.
pub open spec fn calls_made(items: Seq<ItemModel>, earlier: nat) -> Seq<JsonModel>
    decreases items.len(),
{
    if items.len() == 0 {
        Seq::empty()
    } else if items.last() is FunctionCall {
        calls_made(items.drop_last(), earlier).push(
            made_call(items.last(), earlier + made_up(items.drop_last())),
        )
    } else {
        calls_made(items.drop_last(), earlier)
    }
}

/// The tool calls of a message.
pub open spec fn message_calls(message: MessageModel) -> Seq<JsonModel> {
    match message.tool_calls {
        Some(calls) => calls,
        None => Seq::empty(),
    }
}

/// The tool calls of some messages, in order.
pub open spec fn calls_in(messages: Seq<MessageModel>) -> Seq<JsonModel>
    decreases messages.len(),
{
    if messages.len() == 0 {
        Seq::empty()
    } else {
        calls_in(messages.drop_last()) + message_calls(messages.last())
    }
}

/// How many of some messages have the given role.
pub open spec fn count_role(messages: Seq<MessageModel>, role: Seq<char>) -> nat
    decreases messages.len(),
{
    if messages.len() == 0 {
        0
    } else if messages.last().role == role {
        count_role(messages.drop_last(), role) + 1
    } else {
        count_role(messages.drop_last(), role)
    }
}

/// How many of some items are tool results.
pub open spec fn count_results(items: Seq<ItemModel>) -> nat
    decreases items.len(),
{
    if items.len() == 0 {
        0
    } else if is_tool_result(items.last()) {
        count_results(items.drop_last()) + 1
    } else {
        count_results(items.drop_last())
    }
}

/// Whether `longer` goes on from `messages`: all of them are there, in place, save that a plain
/// assistant message at the end may have changed.
pub open spec fn continues(messages: Seq<MessageModel>, longer: Seq<MessageModel>) -> bool {
    &&& messages.len() <= longer.len()
    &&& forall|i: int|
        0 <= i < messages.len() - 1 ==> #[trigger] longer[i] == messages[i]
    &&& messages.len() > 0 && (messages.last().role != "assistant"@ || messages.last().tool_calls
        is Some) ==> longer[messages.len() - 1] == messages.last()
    &&& messages.len() > 0 ==> longer[messages.len() - 1].role == messages.last().role
}

/// The roles that are treated differently differ.
pub proof fn lemma_roles_differ()
    ensures
        "tool"@ != "assistant"@,
        "tool"@ != "user"@,
        "assistant"@ != "user"@,
        "system"@ != "assistant"@,
{
    reveal_strlit("tool");
    reveal_strlit("assistant");
    reveal_strlit("user");
    reveal_strlit("system");
    assert("tool"@.len() == 4);
    assert("assistant"@.len() == 9);
    assert("user"@.len() == 4);
    assert("system"@.len() == 6);
    assert("tool"@[0] == 't');
    assert("user"@[0] == 'u');
}

proof fn lemma_calls_in_push(messages: Seq<MessageModel>, message: MessageModel)
    ensures
        calls_in(messages.push(message)) == calls_in(messages) + message_calls(message),
{
    assert(messages.push(message).drop_last() =~= messages);
}

proof fn lemma_count_role_push(messages: Seq<MessageModel>, message: MessageModel, role: Seq<char>)
    ensures
        count_role(messages.push(message), role) == count_role(messages, role) + if message.role
            == role {
            1nat
        } else {
            0nat
        },
{
    assert(messages.push(message).drop_last() =~= messages);
}

/// Ending a turn emits the pending calls behind all earlier ones.
proof fn lemma_turn_ended_calls(state: ConversationModel)
    ensures
        calls_in(turn_ended(state).messages) == calls_in(state.messages) + state.pending,
{
    let messages = state.messages;
    let ended = turn_ended(state).messages;
    if state.pending.len() == 0 {
        assert(state.pending =~= Seq::empty());
        assert(calls_in(messages) + state.pending =~= calls_in(messages));
    } else if ends_in_plain_assistant(messages) {
        assert(ended.drop_last() =~= messages.drop_last());
        assert(message_calls(ended.last()) == state.pending);
        assert(message_calls(messages.last()) =~= Seq::empty());
        assert(calls_in(messages) =~= calls_in(messages.drop_last()));
    } else {
        lemma_calls_in_push(messages, calls_message(state.pending, thinking_of(state.reasoning)));
    }
}

/// Ending a turn adds no tool message and takes none away.
proof fn lemma_turn_ended_tool_count(state: ConversationModel)
    ensures
        count_role(turn_ended(state).messages, "tool"@) == count_role(state.messages, "tool"@),
{
    lemma_roles_differ();
    let messages = state.messages;
    let ended = turn_ended(state).messages;
    if state.pending.len() == 0 {
    } else if ends_in_plain_assistant(messages) {
        assert(ended.drop_last() =~= messages.drop_last());
    } else {
        lemma_count_role_push(
            messages,
            calls_message(state.pending, thinking_of(state.reasoning)),
            "tool"@,
        );
    }
}

/// Ending a turn goes on from the messages.
proof fn lemma_turn_ended_continues(state: ConversationModel)
    ensures
        continues(state.messages, turn_ended(state).messages),
{
}

/// One more item goes on from the messages, keeps the calls and counts as it should.
#[verifier::rlimit(40)]
proof fn lemma_step(state: ConversationModel, item: ItemModel)
    ensures
        continues(state.messages, step(state, item).messages),
        calls_in(step(state, item).messages) + step(state, item).pending == calls_in(state.messages)
            + state.pending + (if item is FunctionCall {
            seq![made_call(item, state.synthetic)]
        } else {
            Seq::empty()
        }),
        step(state, item).synthetic == state.synthetic + (if is_anonymous_call(item) {
            1nat
        } else {
            0nat
        }),
        count_role(step(state, item).messages, "tool"@) == count_role(state.messages, "tool"@) + (
        if is_tool_result(item) {
            1nat
        } else {
            0nat
        }),
        is_tool_result(item) ==> {
            &&& step(state, item).pending.len() == 0
            &&& step(state, item).messages.len() > 0
            &&& step(state, item).messages.last().role == "tool"@
            &&& calls_in(step(state, item).messages.drop_last()) == calls_in(state.messages)
                + state.pending
        },
{
    lemma_roles_differ();
    lemma_turn_ended_calls(state);
    lemma_turn_ended_tool_count(state);
    lemma_turn_ended_continues(state);
    let next = step(state, item);
    let ended = turn_ended(state);
    if item is FunctionCall {
        assert(calls_in(next.messages) + next.pending =~= calls_in(state.messages) + state.pending
            + seq![made_call(item, state.synthetic)]);
    } else if item is Reasoning || item is ItemReference {
        assert(calls_in(next.messages) + next.pending =~= calls_in(state.messages) + state.pending
            + Seq::empty());
    } else if has_role(item, "assistant"@) {
        let message = next.messages.last();
        assert(next.messages =~= state.messages.push(message));
        lemma_calls_in_push(state.messages, message);
        lemma_count_role_push(state.messages, message, "tool"@);
        assert(message_calls(message) =~= state.pending);
        assert(calls_in(next.messages) + next.pending =~= calls_in(state.messages) + state.pending
            + Seq::empty());
    } else {
        let message = next.messages.last();
        assert(next.messages =~= ended.messages.push(message));
        lemma_calls_in_push(ended.messages, message);
        lemma_count_role_push(ended.messages, message, "tool"@);
        assert(message_calls(message) =~= Seq::empty());
        assert(calls_in(next.messages) + next.pending =~= calls_in(state.messages) + state.pending
            + Seq::empty());
        assert(next.messages.drop_last() =~= ended.messages);
    }
}

/// Going on is transitive.
proof fn lemma_continues_transitive(
    first: Seq<MessageModel>,
    second: Seq<MessageModel>,
    third: Seq<MessageModel>,
)
    requires
        continues(first, second),
        continues(second, third),
    ensures
        continues(first, third),
{
    assert forall|i: int| 0 <= i < first.len() - 1 implies #[trigger] third[i] == first[i] by {
        assert(second[i] == first[i]);
    }
    if first.len() > 0 {
        let last = first.len() - 1;
        if last < second.len() - 1 {
            assert(third[last] == second[last]);
        }
    }
}

/// Some more items go on from the messages, keep the calls and count as they should.
pub proof fn lemma_run(state: ConversationModel, items: Seq<ItemModel>)
    ensures
        continues(state.messages, run(state, items).messages),
        calls_in(run(state, items).messages) + run(state, items).pending == calls_in(state.messages)
            + state.pending + calls_made(items, state.synthetic),
        run(state, items).synthetic == state.synthetic + made_up(items),
        count_role(run(state, items).messages, "tool"@) == count_role(state.messages, "tool"@)
            + count_results(items),
    decreases items.len(),
{
    let start = calls_in(state.messages) + state.pending;
    if items.len() == 0 {
        assert(start + Seq::<JsonModel>::empty() =~= start);
    } else {
        let earlier = items.drop_last();
        let before = run(state, earlier);
        lemma_run(state, earlier);
        lemma_step(before, items.last());
        lemma_continues_transitive(
            state.messages,
            before.messages,
            step(before, items.last()).messages,
        );
        assert(start + calls_made(earlier, state.synthetic) + (if items.last() is FunctionCall {
            seq![made_call(items.last(), before.synthetic)]
        } else {
            Seq::empty()
        }) =~= start + calls_made(items, state.synthetic));
    }
}

/// A run can be split anywhere.
proof fn lemma_run_split(state: ConversationModel, items: Seq<ItemModel>, n: int)
    requires
        0 <= n <= items.len(),
    ensures
        run(state, items) == run(run(state, items.take(n)), items.skip(n)),
    decreases items.len(),
{
    if n == items.len() {
        assert(items.take(n) =~= items);
        assert(items.skip(n) =~= Seq::empty());
    } else {
        let earlier = items.drop_last();
        lemma_run_split(state, earlier, n);
        assert(earlier.take(n) =~= items.take(n));
        assert(earlier.skip(n) =~= items.skip(n).drop_last());
        assert(items.skip(n).last() == items.last());
    }
}

/// No function call is dropped, repeated or moved: the tool calls of the converted messages are
/// those of the messages that came first and those that the items make, in order.
pub proof fn law_calls_are_conserved(messages: Seq<MessageModel>, items: Seq<ItemModel>)
    ensures
        calls_in(conversation_messages(messages, items)) == calls_in(messages) + calls_made(
            items,
            0,
        ),
{
    let state = started(messages);
    lemma_run(state, items);
    lemma_turn_ended_calls(run(state, items));
    assert(calls_in(messages) + state.pending =~= calls_in(messages));
}

/// Each tool result becomes exactly one tool message, and nothing else does.
pub proof fn law_one_message_per_result(messages: Seq<MessageModel>, items: Seq<ItemModel>)
    ensures
        count_role(conversation_messages(messages, items), "tool"@) == count_role(
            messages,
            "tool"@,
        ) + count_results(items),
{
    lemma_run(started(messages), items);
    lemma_turn_ended_tool_count(run(started(messages), items));
}

/// The messages that came first stay in front, in place; only a plain assistant message at their
/// end may take tool calls and reasoning.
pub proof fn law_first_messages_stay(messages: Seq<MessageModel>, items: Seq<ItemModel>)
    ensures
        continues(messages, conversation_messages(messages, items)),
{
    let state = started(messages);
    lemma_run(state, items);
    lemma_turn_ended_continues(run(state, items));
    lemma_continues_transitive(
        messages,
        run(state, items).messages,
        conversation_messages(messages, items),
    );
}

/// Whether an item ends the assistant's turn: it becomes a message that the assistant did not
/// write.
pub open spec fn ends_turn(item: ItemModel) -> bool {
    ||| item is FunctionCallOutput
    ||| item is AgentMessage
    ||| item is Message && !has_role(item, "assistant"@)
}

/// An item that ends the assistant's turn becomes one message, behind all calls that were waiting;
/// the message makes no calls, and none is left waiting.
pub proof fn law_turns_end_before_other_messages(state: ConversationModel, item: ItemModel)
    requires
        ends_turn(item),
    ensures
        ({
            let after = step(state, item);
            &&& after.pending.len() == 0
            &&& after.messages.drop_last() == turn_ended(state).messages
            &&& after.messages.last().tool_calls is None
            &&& calls_in(after.messages.drop_last()) == calls_in(state.messages) + state.pending
        }),
{
    lemma_roles_differ();
    lemma_turn_ended_calls(state);
    assert(step(state, item).messages.drop_last() =~= turn_ended(state).messages);
}

/// What another agent says comes from the user's side: it becomes a user message.
pub proof fn law_agents_speak_as_users(state: ConversationModel, item: ItemModel)
    requires
        item is AgentMessage,
    ensures
        step(state, item).messages.last() == (MessageModel {
            role: "user"@,
            content: Some(content_value(item->AgentMessage_content)),
            name: None,
            tool_calls: None,
            tool_call_id: None,
        }),
{
}

/// A tool message comes after every call that was made before its item: the converted messages
/// begin with those up to the tool message, and in front of it stand all the calls of the items
/// before it.
pub proof fn law_calls_precede_results(
    messages: Seq<MessageModel>,
    items: Seq<ItemModel>,
    k: int,
)
    requires
        0 <= k < items.len(),
        is_tool_result(items[k]),
    ensures
        ({
            let through = run(started(messages), items.take(k + 1)).messages;
            let all = conversation_messages(messages, items);
            &&& through.len() > 0
            &&& through.last().role == "tool"@
            &&& calls_in(through.drop_last()) == calls_in(messages) + calls_made(items.take(k), 0)
            &&& through.len() <= all.len()
            &&& all.take(through.len() as int) == through
        }),
{
    lemma_roles_differ();
    let state = started(messages);
    let before = run(state, items.take(k));
    let after = run(state, items.take(k + 1));
    let rest = items.skip(k + 1);
    let all = conversation_messages(messages, items);
    assert(items.take(k + 1).drop_last() =~= items.take(k));
    assert(items.take(k + 1).last() == items[k]);
    lemma_run(state, items.take(k));
    lemma_step(before, items[k]);
    assert(calls_in(messages) + state.pending =~= calls_in(messages));
    lemma_run_split(state, items, k + 1);
    lemma_run(after, rest);
    lemma_turn_ended_continues(run(after, rest));
    lemma_continues_transitive(after.messages, run(after, rest).messages, all);
    assert(all.take(after.messages.len() as int) =~= after.messages) by {
        assert forall|i: int| 0 <= i < after.messages.len() implies all[i] == after.messages[i] by {
            if i < after.messages.len() - 1 {
                assert(all[i] == after.messages[i]);
            }
        }
    }
}

/// Whether an item leaves an open call alone: it makes no call with this identifier, and it does
/// not become a tool message with it.
pub open spec fn leaves_alone(
    state: ConversationModel,
    item: ItemModel,
    call_id: Seq<char>,
) -> bool {
    &&& item is FunctionCall ==> identifier_of(item, state.synthetic) != call_id
    &&& is_tool_result(item) ==> step(state, item).messages.last().tool_call_id != Some(call_id)
}

/// An open call that an item leaves alone stays open.
proof fn lemma_name_kept(state: ConversationModel, item: ItemModel, call_id: Seq<char>)
    requires
        state.calls.names.contains_key(call_id),
        leaves_alone(state, item, call_id),
    ensures
        step(state, item).calls.names.contains_key(call_id),
        step(state, item).calls.names[call_id] == state.calls.names[call_id],
{
    lemma_roles_differ();
}

/// An open call that some items leave alone stays open.
proof fn lemma_name_kept_by_all(
    state: ConversationModel,
    items: Seq<ItemModel>,
    call_id: Seq<char>,
)
    requires
        state.calls.names.contains_key(call_id),
        forall|k: int|
            0 <= k < items.len() ==> leaves_alone(
                run(state, items.take(k)),
                #[trigger] items[k],
                call_id,
            ),
    ensures
        run(state, items).calls.names.contains_key(call_id),
        run(state, items).calls.names[call_id] == state.calls.names[call_id],
    decreases items.len(),
{
    if items.len() > 0 {
        let earlier = items.drop_last();
        assert forall|k: int| 0 <= k < earlier.len() implies leaves_alone(
            run(state, earlier.take(k)),
            #[trigger] earlier[k],
            call_id,
        ) by {
            assert(earlier[k] == items[k]);
            assert(earlier.take(k) =~= items.take(k));
        }
        lemma_name_kept_by_all(state, earlier, call_id);
        assert(items[items.len() - 1] == items.last());
        assert(items.take(items.len() - 1) =~= earlier);
        lemma_name_kept(run(state, earlier), items.last(), call_id);
    }
}

/// The call that an item makes is among the calls made.
pub proof fn lemma_calls_made_holds(items: Seq<ItemModel>, earlier: nat, i: int)
    requires
        0 <= i < items.len(),
        items[i] is FunctionCall,
    ensures
        calls_made(items, earlier).contains(made_call(items[i], earlier + made_up(items.take(i)))),
    decreases items.len(),
{
    let fewer = items.drop_last();
    let call = made_call(items[i], earlier + made_up(items.take(i)));
    if i == items.len() - 1 {
        assert(items.take(i) =~= fewer);
        assert(calls_made(items, earlier)[calls_made(fewer, earlier).len() as int] == call);
    } else {
        assert(fewer.take(i) =~= items.take(i));
        lemma_calls_made_holds(fewer, earlier, i);
        let k = choose|k: int|
            0 <= k < calls_made(fewer, earlier).len() && calls_made(fewer, earlier)[k] == call;
        assert(calls_made(items, earlier)[k] == call);
    }
}

/// A tool result carries the name of the call that it answers: where a function call has an
/// identifier that is not empty, a later result gives that identifier, and the items between leave
/// the call alone (none makes another call with the identifier or answers the call), the result
/// becomes a tool message with that identifier and the call's name, and the messages before it make
/// the call.
#[verifier::rlimit(40)]
pub proof fn law_results_carry_names(
    messages: Seq<MessageModel>,
    items: Seq<ItemModel>,
    i: int,
    j: int,
)
    requires
        0 <= i < j < items.len(),
        items[i] is FunctionCall,
        is_tool_result(items[j]),
        identifier_of(items[i], made_up(items.take(i))).len() > 0,
        result_id(items[j]) == Some(identifier_of(items[i], made_up(items.take(i)))),
        forall|k: int|
            i < k < j ==> leaves_alone(
                run(started(messages), items.take(k)),
                #[trigger] items[k],
                identifier_of(items[i], made_up(items.take(i))),
            ),
    ensures
        ({
            let through = run(started(messages), items.take(j + 1)).messages;
            let all = conversation_messages(messages, items);
            &&& 0 < through.len() <= all.len()
            &&& all[through.len() - 1].role == "tool"@
            &&& all[through.len() - 1].tool_call_id == Some(
                identifier_of(items[i], made_up(items.take(i))),
            )
            &&& all[through.len() - 1].name == Some(name_of(items[i]))
            &&& calls_in(all.take(through.len() - 1)).contains(
                made_call(items[i], made_up(items.take(i))),
            )
        }),
{
    lemma_roles_differ();
    let call_id = identifier_of(items[i], made_up(items.take(i)));
    let start = started(messages);
    let before = run(start, items.take(i));
    let called = run(start, items.take(i + 1));
    lemma_run(start, items.take(i));
    lemma_run(start, items.take(i + 1));
    assert(items.take(i + 1).drop_last() =~= items.take(i));
    assert(items.take(i + 1).last() == items[i]);
    assert(called == step(before, items[i]));
    assert(called.calls.names[call_id] == name_of(items[i]));

    let between = items.subrange(i + 1, j);
    let upto = items.take(j);
    assert(upto.take(i + 1) =~= items.take(i + 1));
    assert(upto.skip(i + 1) =~= between);
    lemma_run_split(start, upto, i + 1);
    assert forall|k: int| 0 <= k < between.len() implies leaves_alone(
        run(called, between.take(k)),
        #[trigger] between[k],
        call_id,
    ) by {
        let at = i + 1 + k;
        assert(between[k] == items[at]);
        assert(items.take(at).take(i + 1) =~= items.take(i + 1));
        assert(items.take(at).skip(i + 1) =~= between.take(k));
        lemma_run_split(start, items.take(at), i + 1);
    }
    lemma_name_kept_by_all(called, between, call_id);

    let answered = run(start, items.take(j + 1));
    assert(items.take(j + 1).drop_last() =~= upto);
    assert(items.take(j + 1).last() == items[j]);
    assert(answered == step(run(start, upto), items[j]));
    let last = answered.messages.last();
    assert(last.tool_call_id == Some(call_id));
    assert(last.name == Some(name_of(items[i])));
    law_calls_precede_results(messages, items, j);
    let all = conversation_messages(messages, items);
    assert(all.take(answered.messages.len() as int)[answered.messages.len() - 1] == last);

    let call = made_call(items[i], made_up(items.take(i)));
    assert(all.take(answered.messages.len() - 1) =~= answered.messages.drop_last());
    assert(upto[i] == items[i]);
    assert(upto.take(i) =~= items.take(i));
    lemma_calls_made_holds(upto, 0, i);
    let made = calls_made(upto, 0);
    let k = choose|k: int| 0 <= k < made.len() && made[k] == call;
    assert((calls_in(messages) + made)[calls_in(messages).len() + k] == call);
}

/// The names that results can get from open calls are names of calls that were made.
pub open spec fn names_are_of_calls(calls: CallsModel, items: Seq<ItemModel>) -> bool {
    &&& forall|id: Seq<char>| #[trigger]
        calls.names.contains_key(id) ==> is_called(items, calls.names[id])
    &&& forall|k: int|
        0 <= k < calls.unmatched.len() ==> is_called(items, (#[trigger] calls.unmatched[k]).1)
}

/// Whether some item calls the function `name`.
pub open spec fn is_called(items: Seq<ItemModel>, name: Seq<char>) -> bool {
    exists|i: int|
        0 <= i < items.len() && #[trigger] items[i] is FunctionCall && name_of(items[i]) == name
}

proof fn lemma_is_called_push(items: Seq<ItemModel>, item: ItemModel, name: Seq<char>)
    requires
        is_called(items, name) || (item is FunctionCall && name_of(item) == name),
    ensures
        is_called(items.push(item), name),
{
    let longer = items.push(item);
    if is_called(items, name) {
        let i = choose|i: int|
            0 <= i < items.len() && #[trigger] items[i] is FunctionCall && name_of(items[i])
                == name;
        assert(longer[i] is FunctionCall);
    } else {
        assert(longer[items.len() as int] is FunctionCall);
    }
}

/// Taking an entry out of a queue leaves entries that were there before.
proof fn lemma_without_first_entries(queue: Seq<(Seq<char>, Seq<char>)>, call_id: Seq<char>)
    ensures
        forall|k: int|
            0 <= k < without_first(queue, call_id).len() ==> queue.contains(
                #[trigger] without_first(queue, call_id)[k],
            ),
    decreases queue.len(),
{
    if queue.len() > 0 {
        let rest = queue.drop_first();
        let left = without_first(queue, call_id);
        lemma_without_first_entries(rest, call_id);
        assert forall|k: int| 0 <= k < left.len() implies queue.contains(#[trigger] left[k]) by {
            if queue[0].0 == call_id {
                assert(left[k] == queue[k + 1]);
            } else if k == 0 {
                assert(left[0] == queue[0]);
            } else {
                let entry = without_first(rest, call_id)[k - 1];
                assert(left[k] == entry);
                let at = choose|at: int| 0 <= at < rest.len() && rest[at] == entry;
                assert(queue[at + 1] == entry);
            }
        }
    }
}

proof fn lemma_names_are_of_calls(messages: Seq<MessageModel>, items: Seq<ItemModel>)
    ensures
        names_are_of_calls(run(started(messages), items).calls, items),
    decreases items.len(),
{
    if items.len() > 0 {
        let earlier = items.drop_last();
        let item = items.last();
        let before = run(started(messages), earlier);
        let after = step(before, item).calls;
        lemma_names_are_of_calls(messages, earlier);
        assert(items =~= earlier.push(item));
        assert forall|id: Seq<char>| #[trigger] after.names.contains_key(id) implies is_called(
            items,
            after.names[id],
        ) by {
            if !(item is FunctionCall) {
                assert(before.calls.names.contains_key(id));
            } else if before.calls.names.contains_key(id) {
                assert(is_called(earlier, before.calls.names[id]));
            }
            lemma_is_called_push(earlier, item, after.names[id]);
        }
        assert forall|k: int| 0 <= k < after.unmatched.len() implies is_called(
            items,
            (#[trigger] after.unmatched[k]).1,
        ) by {
            let entry = after.unmatched[k];
            let queue = before.calls.unmatched;
            if item is FunctionCall {
                if k < queue.len() {
                    assert(queue[k] == entry);
                }
            } else {
                if let Some(id) = result_id(item) {
                    lemma_without_first_entries(queue, id);
                }
                assert(queue.contains(entry)) by {
                    if after.unmatched == queue {
                        assert(queue[k] == entry);
                    } else if after.unmatched == queue.drop_first() {
                        assert(queue[k + 1] == entry);
                    }
                }
                let at = choose|at: int| 0 <= at < queue.len() && queue[at] == entry;
                assert(is_called(earlier, queue[at].1));
            }
            lemma_is_called_push(earlier, item, entry.1);
        }
    }
}

/// A tool message gets no name from nowhere: its name is the one that its item gives, or that of
/// a function that an earlier item calls.
pub proof fn law_names_come_from_calls(
    messages: Seq<MessageModel>,
    items: Seq<ItemModel>,
    j: int,
)
    requires
        0 <= j < items.len(),
        is_tool_result(items[j]),
    ensures
        ({
            let message = run(started(messages), items.take(j + 1)).messages.last();
            message.name is Some ==> message.name == result_name(items[j]) || is_called(
                items.take(j),
                message.name->0,
            )
        }),
{
    lemma_roles_differ();
    let before = run(started(messages), items.take(j));
    lemma_names_are_of_calls(messages, items.take(j));
    assert(items.take(j + 1).drop_last() =~= items.take(j));
    assert(items.take(j + 1).last() == items[j]);
    if before.calls.unmatched.len() > 0 {
        assert(is_called(items.take(j), before.calls.unmatched[0].1));
    }
}

/// How many of some items are function calls.
pub open spec fn count_calls(items: Seq<ItemModel>) -> nat
    decreases items.len(),
{
    if items.len() == 0 {
        0
    } else if items.last() is FunctionCall {
        count_calls(items.drop_last()) + 1
    } else {
        count_calls(items.drop_last())
    }
}

/// At most one entry goes.
proof fn lemma_without_first_len(queue: Seq<(Seq<char>, Seq<char>)>, call_id: Seq<char>)
    ensures
        without_first(queue, call_id).len() + 1 >= queue.len(),
    decreases queue.len(),
{
    if queue.len() > 0 {
        lemma_without_first_len(queue.drop_first(), call_id);
    }
}

/// Each result answers at most one call.
proof fn lemma_unanswered_calls(messages: Seq<MessageModel>, items: Seq<ItemModel>)
    ensures
        run(started(messages), items).calls.unmatched.len() + count_results(items) >= count_calls(
            items,
        ),
    decreases items.len(),
{
    if items.len() > 0 {
        lemma_roles_differ();
        lemma_unanswered_calls(messages, items.drop_last());
        let before = run(started(messages), items.drop_last());
        if let Some(id) = result_id(items.last()) {
            lemma_without_first_len(before.calls.unmatched, id);
        }
    }
}

/// A tool message has a name as long as calls are left: where the items before a result make more
/// calls than they answer, or the result gives a name itself, its tool message has a name.
pub proof fn law_results_have_names(messages: Seq<MessageModel>, items: Seq<ItemModel>, j: int)
    requires
        0 <= j < items.len(),
        is_tool_result(items[j]),
        count_calls(items.take(j)) > count_results(items.take(j)) || result_name(items[j]) is Some,
    ensures
        run(started(messages), items.take(j + 1)).messages.last().name is Some,
{
    lemma_roles_differ();
    lemma_unanswered_calls(messages, items.take(j));
    assert(items.take(j + 1).drop_last() =~= items.take(j));
    assert(items.take(j + 1).last() == items[j]);
}

/// A name that the client gives comes before that of the oldest unanswered call: it is the name of
/// a result whose identifier belongs to no open call, or that has none.
pub proof fn law_given_names_come_before_the_oldest_call(
    calls: CallsModel,
    call_id: Option<Seq<char>>,
    name: Seq<char>,
)
    requires
        call_id matches Some(id) ==> id.len() == 0 || !calls.names.contains_key(id),
    ensures
        resolved(calls, call_id, Some(name)).name == Some(name),
{
}

/// The calls that are open after `n` results without an identifier.
pub open spec fn after_unnamed_results(calls: CallsModel, n: nat) -> CallsModel
    decreases n,
{
    if n == 0 {
        calls
    } else {
        resolved(after_unnamed_results(calls, (n - 1) as nat), None, None).calls
    }
}

/// Results without an identifier answer the unanswered calls in order.
pub proof fn law_unnamed_results_answer_in_order(calls: CallsModel, n: nat)
    requires
        n < calls.unmatched.len(),
    ensures
        after_unnamed_results(calls, n).unmatched == calls.unmatched.skip(n as int),
        ({
            let answer = resolved(after_unnamed_results(calls, n), None, None);
            &&& answer.tool_call_id == Some(calls.unmatched[n as int].0)
            &&& answer.name == Some(calls.unmatched[n as int].1)
        }),
    decreases n,
{
    if n == 0 {
        assert(calls.unmatched.skip(0) =~= calls.unmatched);
    } else {
        let fewer = (n - 1) as nat;
        law_unnamed_results_answer_in_order(calls, fewer);
        assert(calls.unmatched.skip(fewer as int).drop_first() =~= calls.unmatched.skip(n as int));
    }
}

/// A conversion fails exactly where an item cannot be converted, with the error of the first such
/// item; what other items there are does not matter.
pub proof fn law_first_error_counts(items: Seq<ItemModel>)
    ensures
        items_error(items) is None <==> forall|i: int|
            0 <= i < items.len() ==> item_error(#[trigger] items[i]) is None,
        items_error(items) is Some ==> exists|i: int|
            {
                &&& 0 <= i < items.len()
                &&& item_error(#[trigger] items[i]) == items_error(items)
                &&& forall|k: int| 0 <= k < i ==> item_error(#[trigger] items[k]) is None
            },
    decreases items.len(),
{
    if items.len() > 0 {
        let earlier = items.drop_last();
        law_first_error_counts(earlier);
        assert(forall|i: int| 0 <= i < earlier.len() ==> earlier[i] == items[i]);
        if items_error(earlier) is Some {
            let i = choose|i: int|
                {
                    &&& 0 <= i < earlier.len()
                    &&& item_error(#[trigger] earlier[i]) == items_error(earlier)
                    &&& forall|k: int| 0 <= k < i ==> item_error(#[trigger] earlier[k]) is None
                };
            assert(items[i] == earlier[i]);
            assert forall|k: int| 0 <= k < i implies item_error(#[trigger] items[k]) is None by {
                assert(earlier[k] == items[k]);
            }
        } else {
            assert forall|k: int| 0 <= k < earlier.len() implies item_error(
                #[trigger] items[k],
            ) is None by {
                assert(earlier[k] == items[k]);
            }
            assert(items[items.len() - 1] == items.last());
        }
    }
}

/// Whether an item is a message that neither answers a call nor holds reasoning.
pub open spec fn is_plain_message(item: ItemModel) -> bool {
    match item {
        ItemModel::Message { role, content, .. } => role != "tool"@ && content_reasoning(
            content,
        ) is None,
        _ => false,
    }
}

/// The message that a plain message item becomes.
pub open spec fn plainly_converted(item: ItemModel) -> MessageModel {
    match item {
        ItemModel::Message { role, content, .. } => MessageModel {
            role,
            content: Some(content_value(content)),
            name: None,
            tool_calls: None,
            tool_call_id: None,
        },
        _ => MessageModel {
            role: Seq::empty(),
            content: None,
            name: None,
            tool_calls: None,
            tool_call_id: None,
        },
    }
}

/// A conversation of plain messages is converted message by message.
pub proof fn law_plain_conversation_is_unchanged(
    messages: Seq<MessageModel>,
    items: Seq<ItemModel>,
)
    requires
        forall|i: int| 0 <= i < items.len() ==> is_plain_message(#[trigger] items[i]),
    ensures
        conversation_messages(messages, items) == messages + items.map_values(
            |item: ItemModel| plainly_converted(item),
        ),
{
    lemma_plain_run(messages, items);
}

proof fn lemma_plain_run(messages: Seq<MessageModel>, items: Seq<ItemModel>)
    requires
        forall|i: int| 0 <= i < items.len() ==> is_plain_message(#[trigger] items[i]),
    ensures
        run(started(messages), items).messages == messages + items.map_values(
            |item: ItemModel| plainly_converted(item),
        ),
        run(started(messages), items).pending.len() == 0,
        run(started(messages), items).reasoning.len() == 0,
    decreases items.len(),
{
    let converted = items.map_values(|item: ItemModel| plainly_converted(item));
    if items.len() == 0 {
        assert(messages + converted =~= messages);
    } else {
        let earlier = items.drop_last();
        assert forall|i: int| 0 <= i < earlier.len() implies is_plain_message(
            #[trigger] earlier[i],
        ) by {
            assert(earlier[i] == items[i]);
        }
        lemma_plain_run(messages, earlier);
        assert(is_plain_message(items[items.len() - 1]));
        let before = run(started(messages), earlier);
        let converted_earlier = earlier.map_values(|item: ItemModel| plainly_converted(item));
        assert(run(started(messages), items).messages =~= before.messages.push(
            plainly_converted(items.last()),
        ));
        assert(messages + converted =~= (messages + converted_earlier).push(
            plainly_converted(items.last()),
        ));
    }
}

/// Consecutive function calls wait for the end of the turn and then come in one message, the last
/// one, together with the calls that were waiting before. A plain assistant message at the end
/// becomes that message; otherwise it is added.
pub proof fn law_consecutive_calls_merge(state: ConversationModel, items: Seq<ItemModel>)
    requires
        items.len() > 0,
        forall|i: int| 0 <= i < items.len() ==> #[trigger] items[i] is FunctionCall,
    ensures
        run(state, items).messages == state.messages,
        run(state, items).reasoning == state.reasoning,
        ({
            let ended = turn_ended(run(state, items)).messages;
            &&& ended.last().role == "assistant"@
            &&& ended.last().tool_calls == Some(
                state.pending + calls_made(items, state.synthetic),
            )
            &&& ends_in_plain_assistant(state.messages) ==> ended.len() == state.messages.len()
            &&& !ends_in_plain_assistant(state.messages) ==> ended.drop_last() == state.messages
        }),
{
    lemma_calls_wait(state, items);
    let waiting = run(state, items);
    let ended = turn_ended(waiting).messages;
    if !ends_in_plain_assistant(state.messages) {
        assert(ended.drop_last() =~= state.messages);
    }
}

proof fn lemma_calls_wait(state: ConversationModel, items: Seq<ItemModel>)
    requires
        forall|i: int| 0 <= i < items.len() ==> #[trigger] items[i] is FunctionCall,
    ensures
        run(state, items).messages == state.messages,
        run(state, items).reasoning == state.reasoning,
        run(state, items).pending == state.pending + calls_made(items, state.synthetic),
        items.len() > 0 ==> run(state, items).pending.len() > 0,
    decreases items.len(),
{
    if items.len() == 0 {
        assert(state.pending + calls_made(items, state.synthetic) =~= state.pending);
    } else {
        let earlier = items.drop_last();
        assert forall|i: int| 0 <= i < earlier.len() implies #[trigger] earlier[i] is FunctionCall by {
            assert(earlier[i] == items[i]);
        }
        lemma_calls_wait(state, earlier);
        lemma_run(state, earlier);
        assert(items[items.len() - 1] is FunctionCall);
        assert(run(state, items).pending =~= state.pending + calls_made(items, state.synthetic));
    }
}

/// Reasoning belongs to the next turn of the assistant and to no later one: after a message of the
/// assistant, and at the end of any turn that made calls, no reasoning is left over.
pub proof fn law_reasoning_does_not_leak(state: ConversationModel, item: ItemModel)
    ensures
        has_role(item, "assistant"@) ==> step(state, item).reasoning.len() == 0,
        is_tool_result(item) && state.pending.len() > 0 ==> step(state, item).reasoning.len() == 0,
        state.pending.len() > 0 ==> turn_ended(state).reasoning.len() == 0,
{
    lemma_roles_differ();
}

/// Reasoning before a call stands in the message that makes the call: a call and its result become
/// a message that makes the call, with the reasoning that waited, and a tool message. From a turn
/// in which no call waits yet, behind any message but a plain assistant one, the reasoning is all
/// the content of the message that makes the call.
pub proof fn law_reasoning_lands_on_the_call(
    state: ConversationModel,
    call: ItemModel,
    result: ItemModel,
)
    requires
        call is FunctionCall,
        is_tool_result(result),
    ensures
        ({
            let after = step(step(state, call), result);
            &&& after.messages.drop_last() == with_calls(
                state.messages,
                state.pending.push(made_call(call, state.synthetic)),
                state.reasoning,
            )
            &&& after.messages.drop_last().last().tool_calls == Some(
                state.pending.push(made_call(call, state.synthetic)),
            )
            &&& after.messages.last().role == "tool"@
            &&& after.reasoning.len() == 0
            &&& state.pending.len() == 0 && !ends_in_plain_assistant(state.messages)
                ==> after.messages.drop_last() == state.messages.push(
                MessageModel {
                    role: "assistant"@,
                    content: Some(
                        if state.reasoning.len() == 0 {
                            JsonModel::Null
                        } else {
                            JsonModel::String(
                                "<think>"@ + joined(state.reasoning, "\n"@) + "</think>"@,
                            )
                        },
                    ),
                    name: None,
                    tool_calls: Some(seq![made_call(call, state.synthetic)]),
                    tool_call_id: None,
                },
            )
        }),
{
    lemma_roles_differ();
    let after = step(step(state, call), result);
    assert(after.messages.drop_last() =~= turn_ended(step(state, call)).messages);
    if state.pending.len() == 0 {
        assert(step(state, call).pending =~= seq![made_call(call, state.synthetic)]);
    }
}

/// Answering a call by its identifier undoes noting it, where no other call with this identifier
/// is open.
pub proof fn law_answering_undoes_recording(
    calls: CallsModel,
    call_id: Seq<char>,
    name: Seq<char>,
    explicit_name: Option<Seq<char>>,
)
    requires
        call_id.len() > 0,
        !calls.names.contains_key(call_id),
        forall|k: int|
            0 <= k < calls.unmatched.len() ==> (#[trigger] calls.unmatched[k]).0 != call_id,
    ensures
        ({
            let answer = resolved(recorded(calls, call_id, name), Some(call_id), explicit_name);
            &&& answer.calls == calls
            &&& answer.tool_call_id == Some(call_id)
            &&& answer.name == Some(name)
        }),
{
    assert(calls.names.insert(call_id, name).remove(call_id) =~= calls.names);
    lemma_without_first_pushed(calls.unmatched, (call_id, name));
}

proof fn lemma_without_first_pushed(
    queue: Seq<(Seq<char>, Seq<char>)>,
    entry: (Seq<char>, Seq<char>),
)
    requires
        forall|k: int| 0 <= k < queue.len() ==> (#[trigger] queue[k]).0 != entry.0,
    ensures
        without_first(queue.push(entry), entry.0) == queue,
    decreases queue.len(),
{
    let longer = queue.push(entry);
    if queue.len() == 0 {
        assert(longer.drop_first() =~= queue);
    } else {
        let rest = queue.drop_first();
        assert forall|k: int| 0 <= k < rest.len() implies (#[trigger] rest[k]).0 != entry.0 by {
            assert(rest[k] == queue[k + 1]);
        }
        lemma_without_first_pushed(rest, entry);
        assert(longer[0] == queue[0]);
        assert(longer.drop_first() =~= rest.push(entry));
        assert(seq![queue[0]] + rest =~= queue);
    }
}

} // verus!

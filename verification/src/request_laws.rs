//! What holds of every converted request, and of the parts that it is made from.
use vstd::prelude::*;

use crate::calls::ends_in_plain_assistant;
use crate::content::{content_value, part_text, part_texts, part_values, text_part_model};
use crate::conversation::{conversation_messages, item_error, plain_message, synthetic_id};
use crate::conversation_laws::{
    law_first_error_counts, law_first_messages_stay, lemma_roles_differ,
};
use crate::converter::{
    chat_logprobs, chat_tools, conversion_error, function_tools, given_messages, input_messages,
    request_messages, system_messages, system_text,
};
use crate::json::{member_of, parsed, rendered, JsonModel};
use crate::models::{ContentModel, InputModel, PartModel, ResponseRequest, ToolModel};
use crate::output::output_text;
use crate::text::{decimal, digit, joined};

verus! {

/// System instructions lead: where there are any, the first message is the system message.
pub proof fn law_system_message_leads<F>(req: ResponseRequest<F>, supports_native_tools: bool)
    requires
        system_text(req.instructions.deep_view(), req.tools is Some, supports_native_tools).len()
            > 0,
    ensures
        request_messages(req, supports_native_tools).len() > 0,
        request_messages(req, supports_native_tools)[0] == plain_message(
            "system"@,
            JsonModel::String(
                system_text(req.instructions.deep_view(), req.tools is Some, supports_native_tools),
            ),
            None,
        ),
{
    let system = system_messages(
        system_text(req.instructions.deep_view(), req.tools is Some, supports_native_tools),
    );
    let leading = system + given_messages(req.messages.deep_view());
    assert(leading[0] == system[0]);
    lemma_roles_differ();
    if let Some(InputModel::Array(items)) = req.input.deep_view() {
        law_first_messages_stay(leading, items);
        let all = conversation_messages(leading, items);
        if leading.len() == 1 {
            assert(leading.last() == leading[0]);
            assert(!ends_in_plain_assistant(leading));
        }
        assert(all[0] == leading[0]);
    }
}

/// Without instructions and tools there is no system message.
pub proof fn law_nothing_is_added_without_tools<F>(
    req: ResponseRequest<F>,
    supports_native_tools: bool,
)
    requires
        req.tools is None,
        req.instructions is None,
    ensures
        request_messages(req, supports_native_tools) == input_messages(
            given_messages(req.messages.deep_view()),
            req.input.deep_view(),
        ),
{
    let given = given_messages(req.messages.deep_view());
    assert(system_messages(Seq::empty()) + given =~= given);
}

/// A request is converted exactly where it names a model and each item of its input can be
/// converted.
pub proof fn law_conversion_succeeds<F>(req: ResponseRequest<F>)
    ensures
        conversion_error(req) is None <==> {
            &&& req.model is Some
            &&& req.input.deep_view() matches Some(InputModel::Array(items)) ==> forall|i: int|
                0 <= i < items.len() ==> item_error(#[trigger] items[i]) is None
        },
{
    if let Some(InputModel::Array(items)) = req.input.deep_view() {
        law_first_error_counts(items);
    }
}

/// Exactly the function tools are passed on.
pub proof fn law_only_functions_are_passed_on(tools: Seq<ToolModel>)
    ensures
        forall|tool: ToolModel| #[trigger]
            function_tools(tools).contains(tool) <==> tools.contains(tool) && tool.type_
                == "function"@,
        chat_tools(Some(tools)) is None <==> forall|i: int|
            0 <= i < tools.len() ==> (#[trigger] tools[i]).type_ != "function"@,
{
    lemma_function_tools(tools);
    if function_tools(tools).len() > 0 {
        let first = function_tools(tools)[0];
        assert(function_tools(tools).contains(first));
        let i = choose|i: int| 0 <= i < tools.len() && tools[i] == first;
        assert(tools[i].type_ == "function"@);
    } else {
        assert forall|i: int| 0 <= i < tools.len() implies (#[trigger] tools[i]).type_
            != "function"@ by {
            assert(tools.contains(tools[i]));
            assert(!function_tools(tools).contains(tools[i]));
        }
    }
}

proof fn lemma_function_tools(tools: Seq<ToolModel>)
    ensures
        forall|tool: ToolModel| #[trigger]
            function_tools(tools).contains(tool) <==> tools.contains(tool) && tool.type_
                == "function"@,
    decreases tools.len(),
{
    if tools.len() > 0 {
        let earlier = tools.drop_last();
        let last = tools.last();
        lemma_function_tools(earlier);
        assert(tools =~= earlier.push(last));
        assert forall|tool: ToolModel| #[trigger]
            function_tools(tools).contains(tool) <==> tools.contains(tool) && tool.type_
                == "function"@ by {
            lemma_push_contains(earlier, last, tool);
            lemma_push_contains(function_tools(earlier), last, tool);
        }
    }
}

proof fn lemma_push_contains<T>(items: Seq<T>, item: T, wanted: T)
    ensures
        items.push(item).contains(wanted) <==> items.contains(wanted) || item == wanted,
{
    let longer = items.push(item);
    if items.contains(wanted) {
        let i = choose|i: int| 0 <= i < items.len() && items[i] == wanted;
        assert(longer[i] == wanted);
    }
    if item == wanted {
        assert(longer[items.len() as int] == wanted);
    }
    if longer.contains(wanted) && item != wanted {
        let i = choose|i: int| 0 <= i < longer.len() && longer[i] == wanted;
        assert(items[i] == wanted);
    }
}

/// Log probabilities are asked for exactly where a count is given along, and the count is not zero.
pub proof fn law_logprobs_agree(logprobs: Option<bool>, top_logprobs: Option<u32>)
    ensures
        chat_logprobs(logprobs, top_logprobs).0 is Some <==> chat_logprobs(
            logprobs,
            top_logprobs,
        ).1 is Some,
        chat_logprobs(logprobs, top_logprobs).0 != Some(false),
        chat_logprobs(logprobs, top_logprobs).1 != Some(0u32),
{
}

/// A text that does not read as an envelope is passed on as it is, whether or not it is JSON.
pub proof fn law_other_output_is_verbatim(text: Seq<char>)
    requires
        parsed(text) is None || member_of(parsed(text)->0, "output"@) is None,
    ensures
        output_text(JsonModel::String(text)) == text,
{
}

/// An envelope gives its output, whether it is sent as a value or as a text that reads as it.
pub proof fn law_envelope_is_unwrapped(text: Seq<char>, envelope: JsonModel, inner: JsonModel)
    requires
        parsed(text) == Some(envelope),
        member_of(envelope, "output"@) == Some(inner),
    ensures
        output_text(JsonModel::String(text)) == output_text(envelope),
        inner matches JsonModel::String(held) ==> output_text(envelope) == held,
        !(inner is String) ==> output_text(envelope) == rendered(inner),
{
}

/// Whether `piece` stands somewhere in `text`.
pub open spec fn occurs_in(piece: Seq<char>, text: Seq<char>) -> bool {
    exists|start: int|
        {
            &&& 0 <= start <= text.len() - piece.len()
            &&& #[trigger] text.subrange(start, start + piece.len()) == piece
        }
}

/// Every text of the content survives: where the parts make up one text, the text of each part
/// stands in it, and where they stay apart, there is a part with that text.
pub proof fn law_texts_survive(parts: Seq<PartModel>, i: int)
    requires
        0 <= i < parts.len(),
        part_text(parts[i]) is Some,
    ensures
        match content_value(ContentModel::Array(parts)) {
            JsonModel::String(text) => occurs_in(part_text(parts[i])->0, text),
            JsonModel::Array(values) => values.contains(text_part_model(part_text(parts[i])->0)),
            _ => false,
        },
{
    lemma_part_texts(parts, i);
    let k = choose|k: int|
        0 <= k < part_texts(parts).len() && part_texts(parts)[k] == part_text(parts[i])->0;
    lemma_joined_holds(part_texts(parts), "\n"@, k);
}

proof fn lemma_part_texts(parts: Seq<PartModel>, i: int)
    requires
        0 <= i < parts.len(),
        part_text(parts[i]) is Some,
    ensures
        part_texts(parts).contains(part_text(parts[i])->0),
        part_values(parts).contains(text_part_model(part_text(parts[i])->0)),
    decreases parts.len(),
{
    let text = part_text(parts[i])->0;
    let earlier = parts.drop_last();
    let value = text_part_model(text);
    if i == parts.len() - 1 {
        assert(part_texts(parts)[part_texts(earlier).len() as int] == text);
        assert(part_values(parts)[part_values(earlier).len() as int] == value);
    } else {
        assert(earlier[i] == parts[i]);
        lemma_part_texts(earlier, i);
        let k = choose|k: int|
            0 <= k < part_texts(earlier).len() && part_texts(earlier)[k] == text;
        assert(part_texts(parts)[k] == text);
        let v = choose|v: int|
            0 <= v < part_values(earlier).len() && part_values(earlier)[v] == value;
        assert(part_values(parts)[v] == value);
    }
}

pub proof fn lemma_joined_holds(pieces: Seq<Seq<char>>, separator: Seq<char>, k: int)
    requires
        0 <= k < pieces.len(),
    ensures
        occurs_in(pieces[k], joined(pieces, separator)),
    decreases pieces.len(),
{
    let text = joined(pieces, separator);
    if pieces.len() == 1 {
        assert(text.subrange(0int, 0int + pieces[k].len()) =~= pieces[k]);
    } else {
        let earlier = joined(pieces.drop_last(), separator);
        if k == pieces.len() - 1 {
            let start = (earlier.len() + separator.len()) as int;
            assert(text.subrange(start, start + pieces[k].len()) =~= pieces[k]);
        } else {
            assert(pieces.drop_last()[k] == pieces[k]);
            lemma_joined_holds(pieces.drop_last(), separator, k);
            let start = choose|start: int|
                {
                    &&& 0 <= start <= earlier.len() - pieces[k].len()
                    &&& #[trigger] earlier.subrange(start, start + pieces[k].len()) == pieces[k]
                };
            assert(text.subrange(start, start + pieces[k].len()) =~= earlier.subrange(
                start,
                start + pieces[k].len(),
            ));
        }
    }
}

/// Numbers in decimal consist of digits.
proof fn lemma_decimal_digits(n: nat)
    ensures
        decimal(n).len() > 0,
        forall|i: int| 0 <= i < decimal(n).len() ==> '0' <= #[trigger] decimal(n)[i] <= '9',
    decreases n,
{
    if n >= 10 {
        lemma_decimal_digits(n / 10);
    }
}

/// Different numbers differ in decimal.
proof fn lemma_decimal_injective(m: nat, n: nat)
    requires
        decimal(m) == decimal(n),
    ensures
        m == n,
    decreases m,
{
    lemma_decimal_digits(m / 10);
    lemma_decimal_digits(n / 10);
    assert(decimal(m).last() == digit(m % 10));
    assert(decimal(n).last() == digit(n % 10));
    assert(m % 10 == n % 10);
    if m >= 10 && n >= 10 {
        assert(decimal(m).drop_last() =~= decimal(m / 10));
        assert(decimal(n).drop_last() =~= decimal(n / 10));
        lemma_decimal_injective(m / 10, n / 10);
    } else if m >= 10 {
        assert(decimal(m).len() > 1);
    } else if n >= 10 {
        assert(decimal(n).len() > 1);
    }
}

/// Identifiers that are made up for different calls differ, whatever the functions are called.
pub proof fn law_made_up_identifiers_differ(
    first_name: Seq<char>,
    first: nat,
    second_name: Seq<char>,
    second: nat,
)
    requires
        first != second,
    ensures
        synthetic_id(first_name, first) != synthetic_id(second_name, second),
{
    if synthetic_id(first_name, first) == synthetic_id(second_name, second) {
        let a = synthetic_id(first_name, first);
        let b = synthetic_id(second_name, second);
        let x = decimal(first);
        let y = decimal(second);
        reveal_strlit("_");
        lemma_decimal_digits(first);
        lemma_decimal_digits(second);
        assert("_"@.len() == 1 && "_"@[0] == '_');
        assert(a[a.len() - x.len() - 1] == '_');
        assert(b[b.len() - y.len() - 1] == '_');
        assert(a.subrange(a.len() - x.len(), a.len() as int) =~= x);
        assert(b.subrange(b.len() - y.len(), b.len() as int) =~= y);
        if x.len() == y.len() {
            lemma_decimal_injective(first, second);
        } else if x.len() < y.len() {
            assert(b[b.len() - x.len() - 1] == y[y.len() - x.len() - 1]);
        } else {
            assert(a[a.len() - y.len() - 1] == x[x.len() - y.len() - 1]);
        }
        assert(false);
    }
}

} // verus!

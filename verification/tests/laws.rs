//! The laws of the conversion, each on an example.
use chat_converter::calls::{resolve_tool_call, OpenCalls};
use chat_converter::content::convert_response_content;
use chat_converter::conversation::convert_items;
use chat_converter::converter::{convert_logprobs, convert_to_chat_completions};
use chat_converter::json::{string, Json};
use chat_converter::models::{
    ChatMessage, ContentPart, ImageUrl, ResponseContent, ResponseInput, ResponseInputItem,
    ResponseRequest,
};
use chat_converter::output::function_output_to_string;

fn said(role: &str, text: &str) -> ResponseInputItem {
    ResponseInputItem::Message {
        role: role.to_string(),
        content: ResponseContent::String(text.to_string()),
        tool_call_id: None,
        attachments: None,
    }
}

fn called(call_id: Option<&str>, name: &str) -> ResponseInputItem {
    ResponseInputItem::FunctionCall {
        call_id: call_id.map(str::to_string),
        id: None,
        name: name.to_string(),
        arguments: None,
    }
}

fn answered(call_id: Option<&str>, output: &str) -> ResponseInputItem {
    ResponseInputItem::FunctionCallOutput {
        call_id: call_id.map(str::to_string),
        id: None,
        output: string(output),
        name: None,
    }
}

fn reasoned(text: &str) -> ResponseInputItem {
    ResponseInputItem::Reasoning { text: Some(text.to_string()), encrypted_content: None }
}

fn agent_said(text: &str) -> ResponseInputItem {
    ResponseInputItem::AgentMessage {
        author: None,
        recipient: None,
        content: ResponseContent::String(text.to_string()),
    }
}

fn call_ids(messages: &[ChatMessage]) -> Vec<String> {
    messages
        .iter()
        .flat_map(|message| message.tool_calls.iter().flatten())
        .map(|call| call.to_value()["id"].as_str().unwrap().to_string())
        .collect()
}

fn roles(messages: &[ChatMessage]) -> Vec<&str> {
    messages.iter().map(|message| message.role.as_str()).collect()
}

fn text_of(message: &ChatMessage) -> String {
    match &message.content {
        Some(Json::String(text)) => text.clone(),
        other => panic!("no text: {other:?}"),
    }
}

fn converted(items: Vec<ResponseInputItem>) -> Vec<ChatMessage> {
    convert_items(Vec::new(), &items).unwrap()
}

#[test]
fn calls_are_conserved_in_order() {
    let messages = converted(vec![
        called(Some("a"), "f"),
        said("assistant", "text"),
        called(Some("b"), "g"),
        called(None, "h"),
        said("user", "wait"),
        called(Some("a"), "f"),
    ]);
    assert_eq!(call_ids(&messages), vec!["a", "b", "call_h_1", "a"]);
}

#[test]
fn each_result_becomes_one_tool_message() {
    let messages = converted(vec![
        answered(None, "1"),
        called(Some("a"), "f"),
        answered(Some("a"), "2"),
        answered(Some("a"), "3"),
    ]);
    assert_eq!(roles(&messages), vec!["tool", "assistant", "tool", "tool"]);
}

#[test]
fn calls_stand_before_their_results() {
    let messages = converted(vec![
        called(Some("a"), "f"),
        called(Some("b"), "g"),
        answered(Some("b"), "2"),
        called(Some("c"), "h"),
        answered(Some("a"), "1"),
    ]);
    assert_eq!(roles(&messages), vec!["assistant", "tool", "assistant", "tool"]);
    assert_eq!(call_ids(&messages[..1]), vec!["a", "b"]);
    assert_eq!(call_ids(&messages[..3]), vec!["a", "b", "c"]);
    assert_eq!(messages[1].name, Some("g".to_string()));
    assert_eq!(messages[3].name, Some("f".to_string()));
}

#[test]
fn turns_end_before_messages_of_others() {
    for item in [said("user", "x"), said("developer", "x"), agent_said("x")] {
        let messages = converted(vec![called(Some("a"), "f"), item]);
        assert_eq!(call_ids(&messages[..1]), vec!["a"]);
        assert!(messages[1].tool_calls.is_none());
    }
}

#[test]
fn agents_speak_as_users() {
    assert_eq!(roles(&converted(vec![agent_said("done")])), vec!["user"]);
}

#[test]
fn first_messages_stay_in_front() {
    let first = ChatMessage {
        role: "assistant".to_string(),
        content: Some(string("hello")),
        name: None,
        tool_calls: None,
        tool_call_id: None,
    };
    let messages = convert_items(vec![first.clone(), first], &vec![called(Some("a"), "f")]).unwrap();
    assert_eq!(messages.len(), 2);
    assert!(messages[0].tool_calls.is_none());
    assert_eq!(call_ids(&messages), vec!["a"]);
}

#[test]
fn results_without_identifiers_answer_in_order() {
    let mut calls = OpenCalls::new();
    for (id, name) in [("c1", "one"), ("c2", "two")] {
        calls.record(&id.to_string(), &name.to_string());
    }
    for (id, name) in [("c1", "one"), ("c2", "two")] {
        let found = resolve_tool_call(None, None, &mut calls);
        assert_eq!(found, (Some(id.to_string()), Some(name.to_string())));
    }
    assert_eq!(resolve_tool_call(None, None, &mut calls), (None, None));
}

#[test]
fn given_names_come_before_the_oldest_call() {
    for call_id in [None, Some(""), Some("unknown")] {
        let mut calls = OpenCalls::new();
        calls.record(&"c1".to_string(), &"one".to_string());
        let (_, name) = resolve_tool_call(call_id, Some("given"), &mut calls);
        assert_eq!(name, Some("given".to_string()));
    }
}

#[test]
fn answering_a_call_undoes_recording_it() {
    let mut calls = OpenCalls::new();
    calls.record(&"c1".to_string(), &"one".to_string());
    calls.record(&"c2".to_string(), &"two".to_string());
    let found = resolve_tool_call(Some("c2"), None, &mut calls);
    assert_eq!(found, (Some("c2".to_string()), Some("two".to_string())));
    let found = resolve_tool_call(Some("c2"), Some("other"), &mut calls);
    assert_eq!(found, (Some("c2".to_string()), Some("other".to_string())));
    let found = resolve_tool_call(None, None, &mut calls);
    assert_eq!(found, (Some("c1".to_string()), Some("one".to_string())));
}

#[test]
fn texts_of_all_parts_survive() {
    let parts = |image: bool| {
        let mut parts = vec![ContentPart::InputText { text: "one".to_string() }];
        if image {
            parts.push(ContentPart::InputImage { image_url: ImageUrl { url: "u".to_string() } });
        }
        parts.push(ContentPart::EncryptedContent { encrypted_content: "two".to_string() });
        ResponseContent::Array(parts)
    };
    let (value, _) = convert_response_content(&parts(false)).unwrap();
    assert_eq!(value.to_value(), "one\ntwo");
    let (value, _) = convert_response_content(&parts(true)).unwrap();
    let value = value.to_value();
    assert_eq!(value[0]["text"], "one");
    assert_eq!(value[2]["text"], "two");
    assert_eq!(value.as_array().unwrap().len(), 3);
}

#[test]
fn unknown_results_get_no_name_from_nowhere() {
    let messages = converted(vec![answered(Some("a"), "1")]);
    assert_eq!(messages[0].name, None);
    assert_eq!(messages[0].tool_call_id, Some("a".to_string()));
}

#[test]
fn the_first_error_counts() {
    let file = ResponseInputItem::AgentMessage {
        author: None,
        recipient: None,
        content: ResponseContent::Array(vec![ContentPart::InputFile]),
    };
    let items = vec![said("user", "a"), file, said("tool", "b")];
    assert_eq!(convert_items(Vec::new(), &items).unwrap_err(), "input_file_content_not_supported");
    let req: ResponseRequest<f32> = ResponseRequest {
        model: Some("m".to_string()),
        input: Some(ResponseInput::Array(items)),
        ..ResponseRequest::default()
    };
    assert_eq!(
        convert_to_chat_completions(&req, false).unwrap_err(),
        "input_file_content_not_supported"
    );
}

#[test]
fn consecutive_calls_merge() {
    let messages = converted(vec![
        said("assistant", "text"),
        called(Some("a"), "f"),
        reasoned("why"),
        called(Some("b"), "g"),
        said("user", "x"),
    ]);
    assert_eq!(roles(&messages), vec!["assistant", "user"]);
    assert_eq!(call_ids(&messages[..1]), vec!["a", "b"]);
    assert_eq!(text_of(&messages[0]), "<think>why</think>\ntext");
}

#[test]
fn reasoning_stays_with_its_turn() {
    let messages = converted(vec![
        reasoned("why"),
        called(Some("a"), "f"),
        answered(Some("a"), "1"),
        said("assistant", "text"),
        said("assistant", "more"),
    ]);
    assert_eq!(text_of(&messages[0]), "<think>why</think>");
    assert_eq!(text_of(&messages[2]), "text");
    assert_eq!(text_of(&messages[3]), "more");
}

#[test]
fn the_system_message_leads() {
    let req: ResponseRequest<f64> = ResponseRequest {
        model: Some("m".to_string()),
        instructions: Some("Be brief.".to_string()),
        input: Some(ResponseInput::Array(vec![called(Some("a"), "f")])),
        ..ResponseRequest::default()
    };
    let chat = convert_to_chat_completions(&req, true).unwrap();
    assert_eq!(roles(&chat.messages), vec!["system", "assistant"]);
    assert_eq!(text_of(&chat.messages[0]), "Be brief.");
}

#[test]
fn log_probability_settings_agree() {
    for logprobs in [None, Some(false), Some(true)] {
        for count in [None, Some(0), Some(1), Some(20)] {
            let (asked, top) = convert_logprobs(logprobs, count);
            assert_eq!(asked == Some(true), top.is_some());
            assert_ne!(asked, Some(false));
            assert_ne!(top, Some(0));
        }
    }
}

#[test]
fn other_output_is_verbatim_and_envelopes_are_unwrapped() {
    assert_eq!(function_output_to_string(&string(" [1,  2]\n")), " [1,  2]\n");
    let envelope = r#"{"output":{"b":1,"a":2}}"#;
    assert_eq!(function_output_to_string(&string(envelope)), r#"{"a":2,"b":1}"#);
    assert_eq!(
        function_output_to_string(&Json::parse(envelope).unwrap()),
        function_output_to_string(&string(envelope))
    );
}

#[test]
fn made_up_identifiers_differ() {
    let mut items: Vec<ResponseInputItem> = (0..12).map(|_| called(None, "f")).collect();
    items.push(called(None, "f_1"));
    let mut ids = call_ids(&converted(items));
    assert_eq!(ids[12], "call_f_1_13");
    ids.sort();
    ids.dedup();
    assert_eq!(ids.len(), 13);
}

#[test]
fn results_have_names_while_calls_are_left() {
    let messages = converted(vec![
        called(Some("a"), "f"),
        called(Some("b"), "g"),
        answered(Some("x"), "1"),
        answered(Some("y"), "2"),
        answered(Some("z"), "3"),
    ]);
    let names: Vec<Option<&str>> = messages[1..].iter().map(|m| m.name.as_deref()).collect();
    assert_eq!(names, vec![Some("f"), Some("g"), None]);
}

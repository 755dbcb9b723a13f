//! The pieces of a conversion, each by itself.
use chat_converter::calls::{flush_pending_tool_calls, resolve_tool_call, OpenCalls};
use chat_converter::content::{convert_response_content, extract_tool_message_body};
use chat_converter::conversation::{convert_items, tool_call, Conversation};
use chat_converter::converter::{
    convert_logprobs, convert_to_chat_completions, translate_finish_reason, FILE_OPS_GUIDANCE,
    NATIVE_TOOL_OVERRIDE, XML_TOOL_OVERRIDE,
};
use chat_converter::json::{array, object, set_member, string, Json};
use chat_converter::models::{
    Attachment, ChatMessage, ChatTool, ContentPart, FunctionDef, ImageUrl, ResponseContent,
    ResponseInput, ResponseInputItem, ResponseRequest, ResponseTool, StreamOptions, TextConfig,
    ToolChoice,
};
use chat_converter::output::{extract_output_envelope, function_output_to_string, unwrap_reading};
use chat_converter::text::{append_decimal, append_line, is_blank, join, text_eq};
use serde_json::Value;

fn value(text: &str) -> Value {
    serde_json::from_str(text).unwrap()
}

fn json(text: &str) -> Json {
    Json::parse(text).expect("JSON text")
}

fn chat_message(role: &str, content: Option<Json>) -> ChatMessage {
    ChatMessage {
        role: role.to_string(),
        content,
        name: None,
        tool_calls: None,
        tool_call_id: None,
    }
}

fn said(role: &str, text: &str) -> ResponseInputItem {
    ResponseInputItem::Message {
        role: role.to_string(),
        content: ResponseContent::String(text.to_string()),
        tool_call_id: None,
        attachments: None,
    }
}

fn input_text(text: &str) -> ContentPart {
    ContentPart::InputText { text: text.to_string() }
}

fn thought(text: &str) -> ContentPart {
    ContentPart::Reasoning { text: text.to_string() }
}

fn image(url: &str) -> ContentPart {
    ContentPart::InputImage { image_url: ImageUrl { url: url.to_string() } }
}

fn called(call_id: Option<&str>, name: &str, arguments: Option<&str>) -> ResponseInputItem {
    ResponseInputItem::FunctionCall {
        call_id: call_id.map(str::to_string),
        id: None,
        name: name.to_string(),
        arguments: arguments.map(str::to_string),
    }
}

fn request() -> ResponseRequest<f64> {
    ResponseRequest { model: Some("m".to_string()), ..ResponseRequest::default() }
}

fn text_of(content: &Option<Json>) -> String {
    match content {
        Some(Json::String(text)) => text.clone(),
        other => panic!("no text: {other:?}"),
    }
}

#[test]
fn texts_compare_by_their_characters() {
    assert!(text_eq("", ""));
    assert!(text_eq("größe", "größe"));
    assert!(!text_eq("größe", "grösse"));
    assert!(!text_eq("tool", "tools"));
}

#[test]
fn blank_text_is_white_space_of_any_kind() {
    assert!(is_blank(""));
    assert!(is_blank(" \t\r\n"));
    assert!(is_blank("\u{85}\u{a0}\u{1680}\u{2003}\u{2028}\u{2029}\u{202f}\u{205f}\u{3000}"));
    assert!(!is_blank(" x "));
    assert!(!is_blank("\u{200b}"));
}

#[test]
fn lines_are_joined_and_appended() {
    let parts = vec!["a".to_string(), "".to_string(), "b".to_string()];
    assert_eq!(join(&parts, "\n"), "a\n\nb");
    assert_eq!(join(&Vec::new(), "\n"), "");
    let mut text = String::new();
    append_line(&mut text, "");
    append_line(&mut text, "a");
    append_line(&mut text, "b");
    assert_eq!(text, "a\nb");
}

#[test]
fn numbers_are_written_in_decimal() {
    for n in [0usize, 7, 10, 1905, usize::MAX] {
        let mut text = "n=".to_string();
        append_decimal(&mut text, n);
        assert_eq!(text, format!("n={n}"));
    }
}

#[test]
fn json_passes_through_serde_json_unchanged() {
    let text = r#"{"a":[null,true,-3,2.5,"x"],"b":{"c":{}}}"#;
    let read = json(text);
    assert_eq!(read.to_value(), value(text));
    assert_eq!(read.clone().to_value(), value(text));
    assert_eq!(Json::from_value(value(text)).render(), text);
    assert!(Json::parse("{not json").is_none());
    assert!(Json::parse("").is_none());
}

#[test]
fn the_last_entry_of_a_key_counts() {
    let mut entries = Vec::new();
    set_member(&mut entries, "b", string("first"));
    set_member(&mut entries, "a", array(vec![Json::Null]));
    set_member(&mut entries, "b", string("last"));
    let built = object(entries);
    assert_eq!(built.member("b").unwrap().to_value(), "last");
    assert!(built.member("c").is_none());
    assert!(string("b").member("b").is_none());
    assert_eq!(built.render(), r#"{"a":[null],"b":"last"}"#);
}

#[test]
fn outputs_become_text() {
    assert_eq!(function_output_to_string(&Json::Null), "");
    assert_eq!(function_output_to_string(&string("plain")), "plain");
    assert_eq!(function_output_to_string(&string("null")), "null");
    assert_eq!(function_output_to_string(&string(r#"{"output":"x"}"#)), "x");
    assert_eq!(function_output_to_string(&string(r#"{"output":[1, 2]}"#)), "[1,2]");
    assert_eq!(function_output_to_string(&string(r#"{ "rows": [1, 2] }"#)), r#"{ "rows": [1, 2] }"#);
    assert_eq!(function_output_to_string(&json(r#"{"output":null}"#)), "null");
    assert_eq!(function_output_to_string(&json(r#"{"output":"y","z":1}"#)), "y");
    assert_eq!(function_output_to_string(&json("[1, true]")), "[1,true]");
}

#[test]
fn an_envelope_is_an_object_with_an_output() {
    assert_eq!(extract_output_envelope(&json(r#"{"output":"x"}"#)), Some("x".to_string()));
    assert_eq!(extract_output_envelope(&json(r#"{"output":{"a":1}}"#)), Some(r#"{"a":1}"#.to_string()));
    assert_eq!(extract_output_envelope(&json(r#"{"out":"x"}"#)), None);
    assert_eq!(extract_output_envelope(&json(r#"["output"]"#)), None);
    let text = "as sent".to_string();
    assert_eq!(unwrap_reading(&text, &None), "as sent");
    assert_eq!(unwrap_reading(&text, &Some(json("3"))), "as sent");
    assert_eq!(unwrap_reading(&text, &Some(json(r#"{"output":"inner"}"#))), "inner");
}

#[test]
fn text_parts_become_one_text() {
    let content = ResponseContent::Array(vec![
        input_text("one"),
        thought("why"),
        ContentPart::OutputText { text: "two".to_string() },
        ContentPart::ToolOutput { body: "three".to_string() },
        thought("so"),
        ContentPart::EncryptedContent { encrypted_content: "four".to_string() },
    ]);
    let (converted, reasoning) = convert_response_content(&content).unwrap();
    assert_eq!(converted.to_value(), "one\ntwo\nthree\nfour");
    assert_eq!(reasoning, Some("why\nso".to_string()));
}

#[test]
fn images_keep_the_parts_apart() {
    let content = ResponseContent::Array(vec![input_text("look"), image("http://x/y.png")]);
    let (converted, reasoning) = convert_response_content(&content).unwrap();
    assert_eq!(
        converted.to_value(),
        value(r#"[{"type":"text","text":"look"},{"type":"image_url","image_url":{"url":"http://x/y.png"}}]"#)
    );
    assert_eq!(reasoning, None);
}

#[test]
fn content_without_shown_parts_is_an_empty_list() {
    let (converted, reasoning) =
        convert_response_content(&ResponseContent::Array(vec![thought("hm")])).unwrap();
    assert_eq!(converted.to_value(), value("[]"));
    assert_eq!(reasoning, Some("hm".to_string()));
    let (converted, reasoning) =
        convert_response_content(&ResponseContent::Array(vec![thought("")])).unwrap();
    assert_eq!(converted.to_value(), value("[]"));
    assert_eq!(reasoning, None);
}

#[test]
fn files_are_not_supported() {
    let content = ResponseContent::Array(vec![input_text("a"), ContentPart::InputFile]);
    assert_eq!(
        convert_response_content(&content).unwrap_err(),
        "input_file_content_not_supported"
    );
}

#[test]
fn tool_bodies_are_lines_of_text() {
    let content = ResponseContent::Array(vec![
        input_text(""),
        input_text("a"),
        ContentPart::ToolOutput { body: "b".to_string() },
    ]);
    assert_eq!(extract_tool_message_body(&content).unwrap(), "a\nb");
    assert_eq!(extract_tool_message_body(&ResponseContent::String(String::new())).unwrap(), "");
    assert_eq!(
        extract_tool_message_body(&ResponseContent::Array(vec![input_text("")])).unwrap_err(),
        "tool_output_empty"
    );
    assert_eq!(
        extract_tool_message_body(&ResponseContent::Array(Vec::new())).unwrap_err(),
        "tool_output_empty"
    );
    assert_eq!(
        extract_tool_message_body(&ResponseContent::Array(vec![input_text("a"), thought("b")]))
            .unwrap_err(),
        "tool_output_content_not_supported"
    );
}

#[test]
fn results_find_their_calls() {
    let mut calls = OpenCalls::new();
    for (id, name) in [("c1", "one"), ("c2", "two"), ("c3", "three")] {
        calls.record(&id.to_string(), &name.to_string());
    }
    let found = resolve_tool_call(Some("c2"), Some("ignored"), &mut calls);
    assert_eq!(found, (Some("c2".to_string()), Some("two".to_string())));
    let found = resolve_tool_call(Some("new"), Some("given"), &mut calls);
    assert_eq!(found, (Some("new".to_string()), Some("given".to_string())));
    let found = resolve_tool_call(Some("new"), None, &mut calls);
    assert_eq!(found, (Some("new".to_string()), Some("one".to_string())));
    let found = resolve_tool_call(Some(""), None, &mut calls);
    assert_eq!(found, (Some("c3".to_string()), Some("three".to_string())));
    let found = resolve_tool_call(Some("c1"), None, &mut calls);
    assert_eq!(found, (Some("c1".to_string()), Some("one".to_string())));
    let found = resolve_tool_call(Some("c3"), None, &mut calls);
    assert_eq!(found, (Some("c3".to_string()), None));
    let found = resolve_tool_call(None, Some("given"), &mut calls);
    assert_eq!(found, (None, Some("given".to_string())));
}

#[test]
fn a_given_name_comes_before_the_oldest_open_call() {
    for call_id in [None, Some("")] {
        let mut calls = OpenCalls::new();
        calls.record(&"c1".to_string(), &"python".to_string());
        let found = resolve_tool_call(call_id, Some("shell"), &mut calls);
        assert_eq!(found, (Some("c1".to_string()), Some("shell".to_string())));
        let found = resolve_tool_call(Some("c1"), None, &mut calls);
        assert_eq!(found, (Some("c1".to_string()), None));
    }
    let items = vec![
        called(Some("c1"), "python", None),
        ResponseInputItem::FunctionCallOutput {
            call_id: None,
            id: None,
            output: string("2"),
            name: Some("shell".to_string()),
        },
    ];
    let messages = convert_items(Vec::new(), &items).unwrap();
    assert_eq!(messages[1].tool_call_id, Some("c1".to_string()));
    assert_eq!(messages[1].name, Some("shell".to_string()));
}

#[test]
fn waiting_calls_and_reasoning_are_counted() {
    let mut conversation = Conversation::new(Vec::new());
    let reasoning =
        ResponseInputItem::Reasoning { text: Some("why".to_string()), encrypted_content: None };
    conversation.add_item(&reasoning).unwrap();
    conversation.add_item(&called(Some("c1"), "f", None)).unwrap();
    assert_eq!(conversation.pending_calls(), 1);
    assert_eq!(conversation.waiting_reasoning(), 1);
    conversation.end_turn();
    assert_eq!(conversation.pending_calls(), 0);
    assert_eq!(conversation.waiting_reasoning(), 0);
}

#[test]
fn flushing_without_calls_changes_nothing() {
    let mut messages = vec![chat_message("user", Some(string("hi")))];
    let mut reasoning = vec!["why".to_string()];
    flush_pending_tool_calls(&mut messages, &mut Vec::new(), &mut reasoning);
    assert_eq!(messages.len(), 1);
    assert_eq!(reasoning, vec!["why".to_string()]);
}

#[test]
fn flushing_joins_a_plain_assistant_message() {
    for (content, expected) in [
        (Some(string("text")), value(r#""<think>a\nb</think>\ntext""#)),
        (None, value(r#""<think>a\nb</think>\n""#)),
        (Some(Json::Null), value(r#""<think>a\nb</think>\n""#)),
        (Some(array(vec![Json::Null])), value("[null]")),
    ] {
        let mut messages = vec![chat_message("assistant", content)];
        let mut pending = vec![tool_call("c1", "f", "{}")];
        let mut reasoning = vec!["a".to_string(), "b".to_string()];
        flush_pending_tool_calls(&mut messages, &mut pending, &mut reasoning);
        assert_eq!(messages.len(), 1);
        assert_eq!(messages[0].content.as_ref().unwrap().to_value(), expected);
        assert_eq!(
            messages[0].tool_calls.as_ref().unwrap()[0].to_value(),
            value(r#"{"id":"c1","type":"function","function":{"name":"f","arguments":"{}"}}"#)
        );
        assert!(pending.is_empty());
        assert!(reasoning.is_empty());
    }
}

#[test]
fn flushing_after_calls_makes_a_new_message() {
    let mut messages = vec![chat_message("assistant", None)];
    messages[0].tool_calls = Some(Vec::new());
    let mut pending = vec![tool_call("c1", "f", "{}")];
    flush_pending_tool_calls(&mut messages, &mut pending, &mut Vec::new());
    assert_eq!(messages.len(), 2);
    assert_eq!(messages[1].role, "assistant");
    assert_eq!(messages[1].content.as_ref().unwrap().to_value(), Value::Null);
}

#[test]
fn assistant_messages_take_reasoning_and_calls() {
    let items = vec![
        ResponseInputItem::Reasoning { text: Some("first".to_string()), encrypted_content: None },
        called(Some("c1"), "f", Some("  ")),
        ResponseInputItem::Message {
            role: "assistant".to_string(),
            content: ResponseContent::Array(vec![thought("second"), input_text("done")]),
            tool_call_id: None,
            attachments: None,
        },
    ];
    let messages = convert_items(Vec::new(), &items).unwrap();
    assert_eq!(messages.len(), 1);
    assert_eq!(text_of(&messages[0].content), "<think>first\nsecond</think>\ndone");
    let calls = messages[0].tool_calls.as_ref().unwrap();
    assert_eq!(calls[0].to_value()["function"]["arguments"], "{}");
}

#[test]
fn reasoning_replaces_structured_assistant_content() {
    let items = vec![ResponseInputItem::Message {
        role: "assistant".to_string(),
        content: ResponseContent::Array(vec![thought("why"), image("u")]),
        tool_call_id: None,
        attachments: None,
    }];
    let messages = convert_items(Vec::new(), &items).unwrap();
    assert_eq!(text_of(&messages[0].content), "<think>why</think>\n");
}

#[test]
fn calls_without_identifiers_get_made_up_ones() {
    let items = vec![
        called(None, "f", None),
        called(Some("own"), "g", None),
        called(None, "f", None),
    ];
    let messages = convert_items(Vec::new(), &items).unwrap();
    let ids: Vec<Value> = messages[0]
        .tool_calls
        .as_ref()
        .unwrap()
        .iter()
        .map(|call| call.to_value()["id"].clone())
        .collect();
    assert_eq!(ids, vec!["call_f_1", "own", "call_f_2"]);
}

#[test]
fn tool_results_can_be_added_with_their_text() {
    let mut conversation = Conversation::new(Vec::new());
    conversation.add_item(&called(Some("c1"), "f", None)).unwrap();
    conversation.add_tool_result(None, None, "done".to_string());
    let messages = conversation.finish();
    assert_eq!(messages.len(), 2);
    assert_eq!(messages[1].tool_call_id, Some("c1".to_string()));
    assert_eq!(messages[1].name, Some("f".to_string()));
    assert_eq!(text_of(&messages[1].content), "done");
}

#[test]
fn item_references_and_hidden_reasoning_are_skipped() {
    let items = vec![
        ResponseInputItem::ItemReference { id: "x".to_string() },
        ResponseInputItem::Reasoning { text: None, encrypted_content: Some("y".to_string()) },
        said("assistant", "hello"),
    ];
    let messages = convert_items(Vec::new(), &items).unwrap();
    assert_eq!(messages.len(), 1);
    assert_eq!(text_of(&messages[0].content), "hello");
}

#[test]
fn attachments_are_not_supported() {
    let mut item = said("user", "see file");
    if let ResponseInputItem::Message { attachments, .. } = &mut item {
        *attachments = Some(vec![Attachment { file_id: "f".to_string() }]);
    }
    assert_eq!(convert_items(Vec::new(), &vec![item]).unwrap_err(), "attachments_not_supported");
    let mut item = said("user", "no file");
    if let ResponseInputItem::Message { attachments, .. } = &mut item {
        *attachments = Some(Vec::new());
    }
    assert_eq!(convert_items(Vec::new(), &vec![item]).unwrap().len(), 1);
}

#[test]
fn tool_messages_need_an_identifier() {
    assert_eq!(
        convert_items(Vec::new(), &vec![said("tool", "2")]).unwrap_err(),
        "tool_message_missing_tool_call_id"
    );
}

#[test]
fn a_model_is_required() {
    let req: ResponseRequest<f64> = ResponseRequest::default();
    assert_eq!(convert_to_chat_completions(&req, true).unwrap_err(), "Model is required");
}

#[test]
fn plain_input_is_a_user_message() {
    let req = ResponseRequest { input: Some(ResponseInput::String("hi".to_string())), ..request() };
    let chat = convert_to_chat_completions(&req, true).unwrap();
    assert_eq!(chat.messages.len(), 1);
    assert_eq!(chat.messages[0].role, "user");
    assert_eq!(text_of(&chat.messages[0].content), "hi");
}

#[test]
fn system_instructions_speak_of_tools_only_where_there_are_any() {
    let tools = || Some(Vec::new());
    let instructions = || Some("Be brief.".to_string());
    let chat = convert_to_chat_completions(&request(), true).unwrap();
    assert!(chat.messages.is_empty());
    let req = ResponseRequest { instructions: instructions(), ..request() };
    let chat = convert_to_chat_completions(&req, true).unwrap();
    assert_eq!(text_of(&chat.messages[0].content), "Be brief.");
    let req = ResponseRequest { instructions: instructions(), tools: tools(), ..request() };
    let chat = convert_to_chat_completions(&req, true).unwrap();
    assert_eq!(
        text_of(&chat.messages[0].content),
        format!("Be brief.{NATIVE_TOOL_OVERRIDE}{FILE_OPS_GUIDANCE}")
    );
    assert!(NATIVE_TOOL_OVERRIDE.starts_with(
        "\n\n---\n\nIMPORTANT: Tool Calling Format Override\nWhen calling functions/tools, you MUST use"
    ));
    assert!(FILE_OPS_GUIDANCE.starts_with("\n\nFile Operation Best Practices:\n- Use relative paths"));
    assert!(FILE_OPS_GUIDANCE.ends_with("just use the content you received"));
    let req = ResponseRequest { tools: tools(), ..request() };
    let chat = convert_to_chat_completions(&req, false).unwrap();
    assert_eq!(chat.messages[0].role, "system");
    let text = text_of(&chat.messages[0].content);
    assert_eq!(text, format!("{XML_TOOL_OVERRIDE}{FILE_OPS_GUIDANCE}"));
    assert!(text.contains("<function=function_name>\n<parameter=param_name>value</parameter>\n...\n</function>"));
}

#[test]
fn given_messages_come_between_system_and_input() {
    let req = ResponseRequest {
        instructions: Some("Be brief.".to_string()),
        messages: Some(vec![
            Some(chat_message("user", Some(string("one")))),
            None,
            Some(chat_message("assistant", Some(string("two")))),
        ]),
        input: Some(ResponseInput::Array(vec![called(Some("c1"), "f", None)])),
        ..request()
    };
    let chat = convert_to_chat_completions(&req, true).unwrap();
    let roles: Vec<&str> = chat.messages.iter().map(|m| m.role.as_str()).collect();
    assert_eq!(roles, vec!["system", "user", "assistant"]);
    assert_eq!(chat.messages[2].tool_calls.as_ref().unwrap().len(), 1);
    assert_eq!(text_of(&chat.messages[2].content), "two");
}

#[test]
fn settings_are_passed_on() {
    let req = ResponseRequest {
        temperature: Some(0.25),
        top_p: Some(0.5),
        frequency_penalty: Some(-1.5),
        presence_penalty: Some(1.25),
        max_tokens: Some(7),
        seed: Some(-4),
        n: Some(2),
        store: Some(true),
        parallel_tool_calls: Some(false),
        user: Some("u".to_string()),
        stop: Some(json(r#"["a"]"#)),
        metadata: Some(json(r#"{"k":"v"}"#)),
        modalities: Some(vec!["text".to_string()]),
        functions: Some(vec![json("1")]),
        reasoning_effort: Some("low".to_string()),
        tool_choice: Some(ToolChoice::String("auto".to_string())),
        response_format: Some(json("1")),
        ..request()
    };
    let chat = convert_to_chat_completions(&req, true).unwrap();
    assert_eq!(chat.model, "m");
    assert_eq!(chat.temperature, Some(0.25));
    assert_eq!(chat.top_p, Some(0.5));
    assert_eq!(chat.frequency_penalty, Some(-1.5));
    assert_eq!(chat.presence_penalty, Some(1.25));
    assert_eq!(chat.max_tokens, Some(7));
    assert_eq!(chat.seed, Some(-4));
    assert_eq!(chat.n, Some(2));
    assert_eq!(chat.store, Some(true));
    assert_eq!(chat.parallel_tool_calls, Some(false));
    assert_eq!(chat.user, Some("u".to_string()));
    assert_eq!(chat.stop.unwrap().to_value(), value(r#"["a"]"#));
    assert_eq!(chat.metadata.unwrap().to_value(), value(r#"{"k":"v"}"#));
    assert_eq!(chat.modalities, Some(vec!["text".to_string()]));
    assert_eq!(chat.functions.unwrap()[0].to_value(), 1);
    assert_eq!(chat.reasoning_effort, Some("low".to_string()));
    assert_eq!(chat.tool_choice.unwrap().to_value(), "auto");
    assert_eq!(chat.response_format.unwrap().to_value(), 1);
    assert!(chat.stream);
    assert!(chat.tools.is_none());
    assert_eq!(chat.stream_options.unwrap().to_value(), value(r#"{"include_usage":true}"#));
}

#[test]
fn the_newer_names_of_settings_come_first() {
    let req = ResponseRequest {
        max_output_tokens: Some(8),
        max_tokens: Some(7),
        text: Some(TextConfig { format: Some(json("2")) }),
        response_format: Some(json("1")),
        tool_choice: Some(ToolChoice::Specific(json(r#"{"name":"f"}"#))),
        stream_options: Some(StreamOptions { serialized: Some(json("{\"a\":1}")) }),
        ..request()
    };
    let chat = convert_to_chat_completions(&req, true).unwrap();
    assert_eq!(chat.max_tokens, Some(8));
    assert_eq!(chat.response_format.unwrap().to_value(), 2);
    assert_eq!(chat.tool_choice.unwrap().to_value(), value(r#"{"name":"f"}"#));
    assert_eq!(chat.stream_options.unwrap().to_value(), value(r#"{"a":1}"#));
    let req = ResponseRequest {
        text: Some(TextConfig { format: None }),
        response_format: Some(json("1")),
        stream_options: Some(StreamOptions { serialized: None }),
        ..request()
    };
    let chat = convert_to_chat_completions(&req, true).unwrap();
    assert_eq!(chat.response_format.unwrap().to_value(), 1);
    assert_eq!(chat.stream_options.unwrap().to_value(), value("{}"));
}

#[test]
fn only_function_tools_are_passed_on() {
    let tool = |kind: &str, name: &str| ResponseTool {
        type_: kind.to_string(),
        function: FunctionDef {
            name: name.to_string(),
            description: Some("d".to_string()),
            parameters: Some(json("{}")),
        },
    };
    let req = ResponseRequest {
        tools: Some(vec![tool("web_search", "w"), tool("function", "f"), tool("function", "g")]),
        ..request()
    };
    let chat = convert_to_chat_completions(&req, true).unwrap();
    let names: Vec<(String, String)> = chat
        .tools
        .unwrap()
        .into_iter()
        .map(|tool| match tool {
            ChatTool::Function { type_, function } => (type_, function.name),
        })
        .collect();
    let function = "function".to_string();
    assert_eq!(names, vec![(function.clone(), "f".to_string()), (function, "g".to_string())]);
    let req = ResponseRequest { tools: Some(vec![tool("web_search", "w")]), ..request() };
    assert!(convert_to_chat_completions(&req, true).unwrap().tools.is_none());
}

#[test]
fn log_probabilities_follow_the_count() {
    assert_eq!(convert_logprobs(Some(true), Some(0)), (None, None));
    assert_eq!(convert_logprobs(Some(true), Some(3)), (Some(true), Some(3)));
    assert_eq!(convert_logprobs(Some(true), None), (Some(true), Some(5)));
    assert_eq!(convert_logprobs(Some(false), Some(3)), (Some(true), Some(3)));
    assert_eq!(convert_logprobs(None, Some(3)), (Some(true), Some(3)));
    assert_eq!(convert_logprobs(Some(false), None), (None, None));
    assert_eq!(convert_logprobs(None, None), (None, None));
}

#[test]
fn finish_reasons_translate_to_statuses() {
    assert_eq!(translate_finish_reason(Some("stop")), "completed");
    assert_eq!(translate_finish_reason(Some("length")), "incomplete");
    assert_eq!(translate_finish_reason(Some("content_filter")), "failed");
    assert_eq!(translate_finish_reason(Some("tool_calls")), "completed");
    assert_eq!(translate_finish_reason(Some("anything else")), "completed");
    assert_eq!(translate_finish_reason(None), "in_progress");
}

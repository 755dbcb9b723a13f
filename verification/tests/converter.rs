//! Whole requests: the bodies that clients send, and the chat messages that come out.
use chat_converter::converter::convert_to_chat_completions;
use chat_converter::json::Json;
use chat_converter::models::{
    Attachment, ChatMessage, ContentPart, FunctionDef, ImageUrl, ResponseContent, ResponseInput,
    ResponseInputItem, ResponseRequest, ResponseTool,
};
use serde_json::Value;

fn text(value: &Value, key: &str) -> Option<String> {
    value.get(key).and_then(Value::as_str).map(str::to_string)
}

fn part(value: &Value) -> ContentPart {
    match value["type"].as_str().expect("part type") {
        "input_text" => ContentPart::InputText { text: text(value, "text").unwrap() },
        "output_text" => ContentPart::OutputText { text: text(value, "text").unwrap() },
        "tool_output" => ContentPart::ToolOutput { body: text(value, "body").unwrap() },
        "encrypted_content" => ContentPart::EncryptedContent {
            encrypted_content: text(value, "encrypted_content").unwrap(),
        },
        "input_image" => ContentPart::InputImage {
            image_url: ImageUrl { url: text(&value["image_url"], "url").unwrap() },
        },
        "input_file" => ContentPart::InputFile,
        "reasoning" => ContentPart::Reasoning { text: text(value, "text").unwrap() },
        other => panic!("unknown part {other}"),
    }
}

fn content(value: &Value) -> ResponseContent {
    match value {
        Value::String(text) => ResponseContent::String(text.clone()),
        Value::Array(parts) => ResponseContent::Array(parts.iter().map(part).collect()),
        other => panic!("unknown content {other}"),
    }
}

fn item(value: &Value) -> ResponseInputItem {
    match value["type"].as_str().expect("item type") {
        "message" => ResponseInputItem::Message {
            role: text(value, "role").unwrap(),
            content: content(&value["content"]),
            tool_call_id: text(value, "tool_call_id"),
            attachments: value.get("attachments").and_then(Value::as_array).map(|files| {
                files.iter().map(|f| Attachment { file_id: text(f, "file_id").unwrap() }).collect()
            }),
        },
        "agent_message" => ResponseInputItem::AgentMessage {
            author: text(value, "author"),
            recipient: text(value, "recipient"),
            content: content(&value["content"]),
        },
        "function_call" => ResponseInputItem::FunctionCall {
            call_id: text(value, "call_id"),
            id: text(value, "id"),
            name: text(value, "name").unwrap(),
            arguments: text(value, "arguments"),
        },
        "function_call_output" => ResponseInputItem::FunctionCallOutput {
            call_id: text(value, "call_id"),
            id: text(value, "id"),
            output: Json::from_value(value["output"].clone()),
            name: text(value, "name"),
        },
        "reasoning" => ResponseInputItem::Reasoning {
            text: text(value, "text"),
            encrypted_content: text(value, "encrypted_content"),
        },
        other => panic!("unknown item {other}"),
    }
}

fn tool(value: &Value) -> ResponseTool {
    ResponseTool {
        type_: text(value, "type").unwrap(),
        function: FunctionDef {
            name: text(value, "name").unwrap(),
            description: text(value, "description"),
            parameters: value.get("parameters").cloned().map(Json::from_value),
        },
    }
}

fn request(body: &Value) -> ResponseRequest<f64> {
    ResponseRequest {
        model: text(body, "model"),
        instructions: text(body, "instructions"),
        input: body
            .get("input")
            .and_then(Value::as_array)
            .map(|items| ResponseInput::Array(items.iter().map(item).collect())),
        tools: body
            .get("tools")
            .and_then(Value::as_array)
            .map(|tools| tools.iter().map(tool).collect()),
        max_output_tokens: body.get("max_output_tokens").and_then(Value::as_u64).map(|n| n as u32),
        ..ResponseRequest::default()
    }
}

fn message_value(message: &ChatMessage) -> Value {
    let mut object = serde_json::Map::new();
    object.insert("role".to_string(), Value::String(message.role.clone()));
    if let Some(content) = &message.content {
        object.insert("content".to_string(), content.to_value());
    }
    if let Some(name) = &message.name {
        object.insert("name".to_string(), Value::String(name.clone()));
    }
    if let Some(calls) = &message.tool_calls {
        let calls = calls.iter().map(Json::to_value).collect();
        object.insert("tool_calls".to_string(), Value::Array(calls));
    }
    if let Some(id) = &message.tool_call_id {
        object.insert("tool_call_id".to_string(), Value::String(id.clone()));
    }
    Value::Object(object)
}

/// Converts a request body and returns the generated chat messages, minus the system message.
fn messages_for(body: Value) -> Vec<Value> {
    let chat = convert_to_chat_completions(&request(&body), true).expect("conversion should succeed");
    chat.messages.iter().map(message_value).filter(|m| m["role"] != "system").collect()
}

fn json(body: &str) -> Value {
    serde_json::from_str(body).expect("request body should be JSON")
}

fn python_tools() -> Value {
    json(
        r#"[{
            "type": "function",
            "name": "python",
            "parameters": {
                "type": "object",
                "properties": {"code": {"type": "string"}},
                "required": ["code"]
            }
        }]"#,
    )
}

fn with_tools(body: &str) -> Value {
    let mut body = json(body);
    body.as_object_mut().unwrap().insert("tools".to_string(), python_tools());
    body
}

fn roles(messages: &[Value]) -> Vec<&str> {
    messages.iter().map(|m| m["role"].as_str().unwrap()).collect()
}

#[test]
fn second_turn_emits_assistant_tool_calls_before_tool_message() {
    let messages = messages_for(with_tools(
        r#"{
            "model": "moonshotai/Kimi-K3-TEE",
            "instructions": "You are an agent.",
            "input": [
                {"type": "message", "role": "user",
                 "content": [{"type": "input_text", "text": "Run print(1+1), then tell me the answer."}]},
                {"type": "function_call", "call_id": "python:0", "name": "python",
                 "arguments": "{\"code\":\"print(1+1)\"}"},
                {"type": "function_call_output", "call_id": "python:0", "output": "2"}
            ],
            "max_output_tokens": 800,
            "stream": true
        }"#,
    ));

    assert_eq!(messages.len(), 3, "expected user + assistant + tool: {messages:#?}");
    assert_eq!(messages[0]["role"], "user");

    assert_eq!(messages[1]["role"], "assistant");
    assert_eq!(messages[1]["content"], Value::Null);
    let calls = messages[1]["tool_calls"].as_array().expect("tool_calls array");
    assert_eq!(calls.len(), 1);
    assert_eq!(calls[0]["id"], "python:0");
    assert_eq!(calls[0]["type"], "function");
    assert_eq!(calls[0]["function"]["name"], "python");
    assert_eq!(calls[0]["function"]["arguments"], "{\"code\":\"print(1+1)\"}");

    assert_eq!(messages[2]["role"], "tool");
    assert_eq!(messages[2]["tool_call_id"], "python:0");
    assert_eq!(messages[2]["name"], "python", "tool message must carry the function name");
    assert_eq!(messages[2]["content"], "2");
}

#[test]
fn parallel_tool_calls_merge_into_one_assistant_message() {
    let messages = messages_for(with_tools(
        r#"{
            "model": "moonshotai/Kimi-K3-TEE",
            "input": [
                {"type": "message", "role": "user", "content": "list and read"},
                {"type": "function_call", "call_id": "c1", "name": "list_dir", "arguments": "{}"},
                {"type": "function_call", "call_id": "c2", "name": "read_file", "arguments": "{\"p\":\"a\"}"},
                {"type": "function_call_output", "call_id": "c1", "output": "a\nb"},
                {"type": "function_call_output", "call_id": "c2", "output": "hello"}
            ]
        }"#,
    ));

    assert_eq!(messages.len(), 4, "{messages:#?}");
    assert_eq!(messages[1]["role"], "assistant");
    let calls = messages[1]["tool_calls"].as_array().unwrap();
    assert_eq!(calls.len(), 2, "consecutive function_calls must merge");
    assert_eq!(calls[0]["id"], "c1");
    assert_eq!(calls[1]["id"], "c2");

    assert_eq!(messages[2]["tool_call_id"], "c1");
    assert_eq!(messages[2]["name"], "list_dir");
    assert_eq!(messages[3]["tool_call_id"], "c2");
    assert_eq!(messages[3]["name"], "read_file");
}

#[test]
fn interleaved_turns_produce_alternating_assistant_and_tool_messages() {
    let messages = messages_for(with_tools(
        r#"{
            "model": "m",
            "input": [
                {"type": "message", "role": "user", "content": "go"},
                {"type": "function_call", "call_id": "c1", "name": "a", "arguments": "{}"},
                {"type": "function_call_output", "call_id": "c1", "output": "1"},
                {"type": "function_call", "call_id": "c2", "name": "b", "arguments": "{}"},
                {"type": "function_call_output", "call_id": "c2", "output": "2"}
            ]
        }"#,
    ));

    assert_eq!(roles(&messages), vec!["user", "assistant", "tool", "assistant", "tool"]);
    assert_eq!(messages[1]["tool_calls"].as_array().unwrap().len(), 1);
    assert_eq!(messages[3]["tool_calls"].as_array().unwrap().len(), 1);
}

#[test]
fn reasoning_item_before_function_call_lands_on_that_assistant_message() {
    let messages = messages_for(with_tools(
        r#"{
            "model": "m",
            "input": [
                {"type": "message", "role": "user", "content": "go"},
                {"type": "reasoning", "text": "I should run the code."},
                {"type": "function_call", "call_id": "c1", "name": "python", "arguments": "{}"},
                {"type": "function_call_output", "call_id": "c1", "output": "2"},
                {"type": "message", "role": "assistant",
                 "content": [{"type": "output_text", "text": "The answer is 2."}]}
            ]
        }"#,
    ));

    assert_eq!(messages[1]["role"], "assistant");
    assert_eq!(
        messages[1]["content"],
        "<think>I should run the code.</think>",
        "reasoning must attach to the tool-calling assistant turn, not leak to a later one"
    );
    assert!(messages[1]["tool_calls"].is_array());
    assert_eq!(messages[3]["role"], "assistant");
    assert_eq!(messages[3]["content"], "The answer is 2.");
    assert!(messages[3]["tool_calls"].is_null());
}

#[test]
fn assistant_text_then_function_call_merges_into_a_single_message() {
    let messages = messages_for(with_tools(
        r#"{
            "model": "m",
            "input": [
                {"type": "message", "role": "user", "content": "go"},
                {"type": "message", "role": "assistant",
                 "content": [{"type": "output_text", "text": "Let me run that."}]},
                {"type": "function_call", "call_id": "c1", "name": "python", "arguments": "{}"},
                {"type": "function_call_output", "call_id": "c1", "output": "2"}
            ]
        }"#,
    ));

    assert_eq!(roles(&messages), vec!["user", "assistant", "tool"]);
    assert_eq!(messages[1]["content"], "Let me run that.");
    assert_eq!(messages[1]["tool_calls"].as_array().unwrap()[0]["id"], "c1");
}

#[test]
fn codex_output_envelope_is_unwrapped_but_plain_json_is_preserved() {
    let messages = messages_for(with_tools(
        r#"{
            "model": "m",
            "input": [
                {"type": "message", "role": "user", "content": "go"},
                {"type": "function_call", "call_id": "c1", "name": "shell", "arguments": "{}"},
                {"type": "function_call_output", "call_id": "c1",
                 "output": "{\"output\":\"total 4\\n\",\"metadata\":{\"exit_code\":0}}"},
                {"type": "function_call", "call_id": "c2", "name": "api", "arguments": "{}"},
                {"type": "function_call_output", "call_id": "c2", "output": "{\"rows\":[1,2,3]}"},
                {"type": "function_call", "call_id": "c3", "name": "api", "arguments": "{}"},
                {"type": "function_call_output", "call_id": "c3", "output": {"structured": true}}
            ]
        }"#,
    ));

    let tool_messages: Vec<&Value> = messages.iter().filter(|m| m["role"] == "tool").collect();
    assert_eq!(tool_messages.len(), 3);
    assert_eq!(tool_messages[0]["content"], "total 4\n");
    assert_eq!(tool_messages[1]["content"], "{\"rows\":[1,2,3]}");
    assert_eq!(tool_messages[2]["content"], "{\"structured\":true}");
}

#[test]
fn tool_role_message_form_also_gets_a_name() {
    let messages = messages_for(with_tools(
        r#"{
            "model": "m",
            "input": [
                {"type": "message", "role": "user", "content": "go"},
                {"type": "function_call", "call_id": "c1", "name": "python", "arguments": "{}"},
                {"type": "message", "role": "tool", "tool_call_id": "c1",
                 "content": [{"type": "input_text", "text": "2"}]}
            ]
        }"#,
    ));

    assert_eq!(roles(&messages), vec!["user", "assistant", "tool"]);
    assert_eq!(messages[2]["name"], "python");
    assert_eq!(messages[2]["tool_call_id"], "c1");
}

#[test]
fn output_with_unknown_call_id_falls_back_to_positional_match() {
    let messages = messages_for(with_tools(
        r#"{
            "model": "m",
            "input": [
                {"type": "message", "role": "user", "content": "go"},
                {"type": "function_call", "call_id": "c1", "name": "python", "arguments": "{}"},
                {"type": "function_call_output", "call_id": "mismatched", "output": "2"}
            ]
        }"#,
    ));

    assert_eq!(messages[2]["role"], "tool");
    assert_eq!(messages[2]["name"], "python");
}

#[test]
fn function_call_without_call_id_still_pairs_with_its_output() {
    let messages = messages_for(with_tools(
        r#"{
            "model": "m",
            "input": [
                {"type": "message", "role": "user", "content": "go"},
                {"type": "function_call", "id": "fc_123", "name": "python", "arguments": "{}"},
                {"type": "function_call_output", "call_id": "fc_123", "output": "2"}
            ]
        }"#,
    ));

    assert_eq!(messages[1]["tool_calls"].as_array().unwrap()[0]["id"], "fc_123");
    assert_eq!(messages[2]["tool_call_id"], "fc_123");
    assert_eq!(messages[2]["name"], "python");
}

#[test]
fn trailing_function_call_is_not_dropped() {
    let messages = messages_for(with_tools(
        r#"{
            "model": "m",
            "input": [
                {"type": "message", "role": "user", "content": "go"},
                {"type": "function_call", "call_id": "c1", "name": "python", "arguments": "{}"}
            ]
        }"#,
    ));

    assert_eq!(messages.len(), 2);
    assert_eq!(messages[1]["role"], "assistant");
    assert_eq!(messages[1]["tool_calls"].as_array().unwrap()[0]["id"], "c1");
}

#[test]
fn pending_tool_call_is_flushed_before_a_following_user_message() {
    let messages = messages_for(with_tools(
        r#"{
            "model": "m",
            "input": [
                {"type": "message", "role": "user", "content": "go"},
                {"type": "function_call", "call_id": "c1", "name": "python", "arguments": "{}"},
                {"type": "function_call_output", "call_id": "c1", "output": "2"},
                {"type": "message", "role": "user", "content": "and again"},
                {"type": "function_call", "call_id": "c2", "name": "python", "arguments": "{}"},
                {"type": "function_call_output", "call_id": "c2", "output": "4"}
            ]
        }"#,
    ));

    assert_eq!(
        roles(&messages),
        vec!["user", "assistant", "tool", "user", "assistant", "tool"]
    );
}

#[test]
fn plain_conversation_without_tools_is_unchanged() {
    let messages = messages_for(json(
        r#"{
            "model": "m",
            "input": [
                {"type": "message", "role": "user", "content": [{"type": "input_text", "text": "hi"}]},
                {"type": "message", "role": "assistant", "content": [{"type": "output_text", "text": "hello"}]},
                {"type": "message", "role": "user", "content": [{"type": "input_text", "text": "bye"}]}
            ]
        }"#,
    ));

    assert_eq!(messages.len(), 3);
    assert_eq!(messages[0]["content"], "hi");
    assert_eq!(messages[1]["content"], "hello");
    assert!(messages[0]["name"].is_null(), "name must not be emitted for plain messages");
}

#[test]
fn empty_arguments_become_an_empty_json_object() {
    let messages = messages_for(with_tools(
        r#"{
            "model": "m",
            "input": [
                {"type": "message", "role": "user", "content": "go"},
                {"type": "function_call", "call_id": "c1", "name": "now"},
                {"type": "function_call_output", "call_id": "c1", "output": "ok"}
            ]
        }"#,
    ));

    assert_eq!(
        messages[1]["tool_calls"].as_array().unwrap()[0]["function"]["arguments"],
        "{}"
    );
}

#[test]
fn a_sub_agents_task_message_converts_instead_of_being_rejected() {
    let messages = messages_for(with_tools(
        r#"{
            "model": "moonshotai/Kimi-K3-TEE",
            "input": [{
                "type": "agent_message",
                "id": "amsg_019fd6f4-077c-7a50-b796-663fa222ffe7",
                "author": "/root",
                "recipient": "/root/counter",
                "content": [
                    {"type": "input_text",
                     "text": "Message Type: NEW_TASK\nTask name: /root/counter\nSender: /root\nPayload:\n"},
                    {"type": "encrypted_content",
                     "encrypted_content": "Count the .py files. Reply with ONLY the number."}
                ]
            }]
        }"#,
    ));

    assert_eq!(messages.len(), 1, "{messages:#?}");
    assert_eq!(messages[0]["role"], "user");
    let text = messages[0]["content"].as_str().expect("flattened to text");
    assert!(text.contains("Sender: /root"), "{text}");
    assert!(text.contains("Count the .py files"), "{text}");
}

#[test]
fn a_childs_final_answer_converts_in_the_parents_history() {
    let messages = messages_for(with_tools(
        r#"{
            "model": "moonshotai/Kimi-K3-TEE",
            "input": [
                {"type": "message", "role": "user", "content": "delegate the count"},
                {"type": "agent_message", "author": "/root/counter", "recipient": "/root",
                 "content": [{"type": "input_text",
                              "text": "Message Type: FINAL_ANSWER\nSender: /root/counter\nPayload:\n5"}]}
            ]
        }"#,
    ));

    assert_eq!(messages.len(), 2, "{messages:#?}");
    assert_eq!(messages[1]["role"], "user");
    assert!(messages[1]["content"].as_str().unwrap().contains("5"), "{messages:#?}");
}

#[test]
fn an_agent_message_flushes_pending_tool_calls_first() {
    let messages = messages_for(with_tools(
        r#"{
            "model": "moonshotai/Kimi-K3-TEE",
            "input": [
                {"type": "message", "role": "user", "content": "go"},
                {"type": "function_call", "call_id": "c1", "name": "python",
                 "arguments": "{\"code\":\"1\"}"},
                {"type": "function_call_output", "call_id": "c1", "output": "1"},
                {"type": "agent_message", "author": "/root/kid", "recipient": "/root",
                 "content": [{"type": "input_text", "text": "done"}]}
            ]
        }"#,
    ));

    assert_eq!(roles(&messages), vec!["user", "assistant", "tool", "user"], "{messages:#?}");
}

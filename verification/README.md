# chat_converter

Converts requests of the OpenAI Responses API to requests of the Chat Completions API, in Rust
verified with Verus.

In the Responses API a function call is an item of its own. Chat Completions wants each call in an
assistant message, and each tool result behind the message that made its call, with the function's
name. The converter keeps track of the open calls and of the reasoning that led to them, and emits
both when the assistant's turn ends.

- `src/converter.rs`: whole requests, and the status for a finish reason
- `src/conversation.rs`: the input items, one by one
- `src/calls.rs`: pairing results with calls, emitting pending calls
- `src/content.rs`, `src/output.rs`: message contents and function outputs
- `src/json.rs`: JSON values and the passage to `serde_json`
- `src/models.rs`, `src/text.rs`: the request types, text helpers
- `src/conversation_laws.rs`, `src/request_laws.rs`: what holds of every conversion
- `app/`: serialization and logging around the library

//! Converts requests of the OpenAI Responses API to requests of the Chat Completions API.
//!
//! [`converter`] holds the conversion of whole requests, [`conversation`] that of the input items.
//! The modules whose names end in `_laws` state what holds of every conversion: [`conversion_laws`]
//! and [`request_laws`] of whole requests, [`conversation_laws`] of conversations, [`step_laws`] of
//! each item, [`content_laws`] of their content, and [`model_laws`] and [`text_laws`] of the values
//! that all of it is made from.

pub mod calls;
pub mod content;
pub mod content_laws;
pub mod conversation;
pub mod conversation_laws;
pub mod conversion_laws;
pub mod converter;
pub mod json;
pub mod model_laws;
pub mod models;
pub mod output;
pub mod request_laws;
pub mod step_laws;
pub mod text;
pub mod text_laws;

pub use converter::{convert_to_chat_completions, translate_finish_reason};
pub use models::{ChatCompletionRequest, ResponseRequest};

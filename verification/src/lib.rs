//! A provider-agnostic client model for chat APIs of large language models.
//!
//! The crate holds the canonical chat domain model, the mapping between
//! that model and three provider wire formats, the decoding of server-sent
//! event streams, the failover decisions of a router over several providers,
//! and the orchestration of tool calls. Network transport is left to the
//! caller: every function here works on plain values.

pub mod text;
pub mod json;
pub mod model;
pub mod urls;
pub mod http;
pub mod wire;
pub mod openai;
pub mod anthropic;
pub mod gemini;
pub mod sse;
pub mod collect;
pub mod router;
pub mod tools;
pub mod tool_loop;
pub mod replay;
pub mod schema;

pub use crate::anthropic::AnthropicAdapter;
pub use crate::collect::{collect_events, StreamCollector};
pub use crate::gemini::GeminiAdapter;
pub use crate::json::{Json, JsonNumber};
pub use crate::model::{
    validate_request, AdapterInfo, CapabilityMatrix, ChatRequest, ChatResponse, ForgeError,
    Message, Role, StreamEvent, ToolCall, ToolDefinition, Usage,
};
pub use crate::openai::{role_to_openai, OpenAiAdapter};
pub use crate::replay::ReplayEntry;
pub use crate::router::{
    pick_first_healthy, should_failover, Failover, FailoverPolicy, FailoverRouter, Verdict,
};
pub use crate::schema::type_schema;
pub use crate::sse::{Provider, StreamChunk, StreamDecoder};
pub use crate::tool_loop::{
    ToolInvocation, ToolLoop, ToolLoopOptions, ToolLoopResult, ToolLoopTurn,
};
pub use crate::tools::{ToolError, ToolExecutor};

//! Message types streamed to the caller of a query. Identifiers are held as
//! text and JSON payloads as the JSON text that encodes them.

use vstd::prelude::*;

verus! {

/// Subtype of a system message.
#[derive(Debug, Clone, Copy, PartialEq, Eq, Structural)]
pub enum SystemSubtype {
    Init,
    CompactBoundary,
}

/// Status of one MCP server.
#[derive(Debug, Clone)]
pub struct McpServerStatus {
    pub name: String,
    pub status: String,
}

/// What triggered a compaction.
#[derive(Debug, Clone, Copy, PartialEq, Eq, Structural)]
pub enum CompactTrigger {
    Manual,
    Auto,
}

/// Metadata of a compaction boundary.
#[derive(Debug, Clone)]
pub struct CompactMetadata {
    pub trigger: CompactTrigger,
    pub pre_tokens: u64,
}

/// System initialization or compaction boundary message.
#[derive(Debug, Clone)]
pub struct SystemMessage {
    pub subtype: SystemSubtype,
    pub uuid: String,
    pub session_id: String,
    pub agents: Option<Vec<String>>,
    pub runtime_version: Option<String>,
    pub cwd: Option<String>,
    pub tools: Option<Vec<String>>,
    pub mcp_servers: Option<Vec<McpServerStatus>>,
    pub model: Option<String>,
    pub permission_mode: Option<String>,
    pub compact_metadata: Option<CompactMetadata>,
}

/// Content block of an assistant or user message.
#[derive(Debug, Clone)]
pub enum ContentBlock {
    Text { text: String },
    /// `input` is JSON text.
    ToolUse { id: String, name: String, input: String },
    /// `content` is JSON text.
    ToolResult { tool_use_id: String, content: String, is_error: Option<bool> },
    Thinking { thinking: String },
}

/// Kind of error reported on an assistant message.
#[derive(Debug, Clone, Copy, PartialEq, Eq, Structural)]
pub enum AssistantMessageError {
    AuthenticationFailed,
    BillingError,
    RateLimit,
    InvalidRequest,
    ServerError,
    Unknown,
}

/// Token usage information.
#[derive(Debug, Clone, Copy, Default)]
pub struct Usage {
    pub input_tokens: u64,
    pub output_tokens: u64,
    pub cache_creation_input_tokens: u64,
    pub cache_read_input_tokens: u64,
}

/// Assistant response message.
#[derive(Debug, Clone)]
pub struct AssistantMessage {
    pub uuid: String,
    pub session_id: String,
    pub content: Vec<ContentBlock>,
    pub model: String,
    pub stop_reason: Option<String>,
    pub parent_tool_use_id: Option<String>,
    pub usage: Option<Usage>,
    pub error: Option<AssistantMessageError>,
}

/// User input or tool result message.
#[derive(Debug, Clone)]
pub struct UserMessage {
    pub uuid: Option<String>,
    pub session_id: String,
    pub content: Vec<ContentBlock>,
    pub parent_tool_use_id: Option<String>,
    pub is_synthetic: bool,
    pub tool_use_result: Option<String>,
}

/// Subtype of the final result message.
#[derive(Debug, Clone, Copy, PartialEq, Eq, Structural)]
pub enum ResultSubtype {
    Success,
    ErrorMaxTurns,
    ErrorDuringExecution,
    ErrorMaxBudgetUsd,
    ErrorMaxStructuredOutputRetries,
}

/// Information about a denied tool use; `tool_input` is JSON text.
#[derive(Debug, Clone)]
pub struct PermissionDenial {
    pub tool_name: String,
    pub tool_use_id: String,
    pub tool_input: String,
}

/// Streaming partial message; `event` is JSON text.
#[derive(Debug, Clone)]
pub struct StreamEventMessage {
    pub event: String,
    pub parent_tool_use_id: Option<String>,
    pub uuid: String,
    pub session_id: String,
}

/// Usage of a response, with absent cache counters taken as zero.
pub open spec fn usage_of(u: crate::api::ApiUsage) -> Usage {
    Usage {
        input_tokens: u.input_tokens,
        output_tokens: u.output_tokens,
        cache_creation_input_tokens: match u.cache_creation_input_tokens {
            Some(n) => n,
            None => 0,
        },
        cache_read_input_tokens: match u.cache_read_input_tokens {
            Some(n) => n,
            None => 0,
        },
    }
}

/// Convert the usage reported by the API into message usage.
pub fn usage_from_api(u: &crate::api::ApiUsage) -> (r: Usage)
    ensures
        r == usage_of(*u),
{
    Usage {
        input_tokens: u.input_tokens,
        output_tokens: u.output_tokens,
        cache_creation_input_tokens: match u.cache_creation_input_tokens {
            Some(n) => n,
            None => 0,
        },
        cache_read_input_tokens: match u.cache_read_input_tokens {
            Some(n) => n,
            None => 0,
        },
    }
}

} // verus!

//! Canonical Messages-API types shared by every provider.
//!
//! JSON payloads (tool inputs, tool-result content, metadata) are held as the
//! JSON text that encodes them; the types here carry only plain values.

use vstd::prelude::*;

use crate::text::str_eq;

verus! {

/// Which backend provider serves the Messages API.
#[derive(Debug, Clone, Copy, PartialEq, Eq, Structural)]
pub enum Provider {
    Anthropic,
    Bedrock,
    Vertex,
}

/// Provider selection from the two switch variables: Bedrock wins when its
/// switch is exactly `"1"`, then Vertex, else Anthropic.
pub open spec fn provider_for(use_bedrock: Option<Seq<char>>, use_vertex: Option<Seq<char>>) -> Provider {
    if use_bedrock == Some("1"@) {
        Provider::Bedrock
    } else if use_vertex == Some("1"@) {
        Provider::Vertex
    } else {
        Provider::Anthropic
    }
}

pub open spec fn opt_view(o: Option<String>) -> Option<Seq<char>> {
    match o {
        Some(s) => Some(s@),
        None => None,
    }
}

impl Provider {
    /// Pick the provider from the values of the Bedrock and Vertex switch
    /// variables of the environment (read by the caller).
    pub fn from_switches(use_bedrock: Option<String>, use_vertex: Option<String>) -> (p: Provider)
        ensures
            p == provider_for(opt_view(use_bedrock), opt_view(use_vertex)),
    {
        let b = match &use_bedrock {
            Some(v) => str_eq(v.as_str(), "1"),
            None => false,
        };
        if b {
            return Provider::Bedrock;
        }
        let v = match &use_vertex {
            Some(v) => str_eq(v.as_str(), "1"),
            None => false,
        };
        if v {
            Provider::Vertex
        } else {
            Provider::Anthropic
        }
    }
}

/// Parameters for extended thinking.
#[derive(Debug, Clone)]
pub struct ThinkingParam {
    /// `"enabled"` or `"disabled"`.
    pub kind: String,
    /// Optional budget of thinking tokens.
    pub budget_tokens: Option<u64>,
}

/// Cache control marker for prompt caching.
#[derive(Debug, Clone)]
pub struct CacheControl {
    pub kind: String,
}

impl CacheControl {
    /// The `ephemeral` cache marker.
    pub fn ephemeral() -> (c: CacheControl)
        ensures
            c.kind@ == "ephemeral"@,
    {
        CacheControl { kind: "ephemeral".to_owned() }
    }
}

/// A tool definition sent with a request; `input_schema` is JSON text.
#[derive(Debug, Clone)]
pub struct ToolDefinition {
    pub name: String,
    pub description: String,
    pub input_schema: String,
    pub cache_control: Option<CacheControl>,
}

/// A system prompt content block.
#[derive(Debug, Clone)]
pub struct SystemBlock {
    pub kind: String,
    pub text: String,
    pub cache_control: Option<CacheControl>,
}

/// Source data of an image content block.
#[derive(Debug, Clone)]
pub struct ImageSource {
    /// Always `"base64"`.
    pub kind: String,
    /// MIME type, such as `"image/png"`.
    pub media_type: String,
    /// Base64-encoded image data.
    pub data: String,
}

/// One content block of an API message.
#[derive(Debug, Clone)]
pub enum ApiContentBlock {
    Text { text: String, cache_control: Option<CacheControl> },
    Image { source: ImageSource },
    /// `input` is the JSON text of the tool input.
    ToolUse { id: String, name: String, input: String },
    /// `content` is the JSON text of the tool result.
    ToolResult {
        tool_use_id: String,
        content: String,
        is_error: Option<bool>,
        cache_control: Option<CacheControl>,
        name: Option<String>,
    },
    Thinking { thinking: String },
}

/// A message of the conversation sent to the API.
#[derive(Debug, Clone)]
pub struct ApiMessage {
    pub role: String,
    pub content: Vec<ApiContentBlock>,
}

/// A request to the Messages API; `metadata` is JSON text.
#[derive(Debug, Clone)]
pub struct CreateMessageRequest {
    pub model: String,
    pub max_tokens: u32,
    pub messages: Vec<ApiMessage>,
    pub system: Option<Vec<SystemBlock>>,
    pub tools: Option<Vec<ToolDefinition>>,
    pub stream: bool,
    pub metadata: Option<String>,
    pub thinking: Option<ThinkingParam>,
}

/// Token usage returned by the API.
#[derive(Debug, Clone, Copy, Default)]
pub struct ApiUsage {
    pub input_tokens: u64,
    pub output_tokens: u64,
    pub cache_creation_input_tokens: Option<u64>,
    pub cache_read_input_tokens: Option<u64>,
}

/// A full (non-streaming) response of the Messages API.
#[derive(Debug, Clone)]
pub struct MessageResponse {
    pub id: String,
    pub role: String,
    pub content: Vec<ApiContentBlock>,
    pub model: String,
    pub stop_reason: Option<String>,
    pub usage: ApiUsage,
}

/// Error payload returned by the API.
#[derive(Debug, Clone)]
pub struct ApiError {
    pub kind: String,
    pub message: String,
}

/// Error wrapper as returned in the top-level JSON.
#[derive(Debug, Clone)]
pub struct ApiErrorResponse {
    pub error: ApiError,
}

/// Delta of a streamed content block.
#[derive(Debug, Clone)]
pub enum ContentDelta {
    TextDelta { text: String },
    InputJsonDelta { partial_json: String },
    ThinkingDelta { thinking: String },
}

/// Delta that comes with `message_delta` events.
#[derive(Debug, Clone)]
pub struct MessageDelta {
    pub stop_reason: Option<String>,
}

/// Server-sent events of a streamed response.
#[derive(Debug, Clone)]
pub enum StreamEvent {
    MessageStart { message: MessageResponse },
    ContentBlockStart { index: usize, content_block: ApiContentBlock },
    ContentBlockDelta { index: usize, delta: ContentDelta },
    ContentBlockStop { index: usize },
    MessageDelta { delta: MessageDelta, usage: ApiUsage },
    MessageStop,
    Ping,
    Error { error: ApiError },
}

/// Errors that can occur during agent execution. Errors of outside
/// libraries are carried by their message.
#[derive(Debug, Clone)]
pub enum AgentError {
    Api(String),
    AuthenticationFailed(String),
    BillingError(String),
    RateLimited(String),
    InvalidRequest(String),
    ServerError(String),
    Process(String),
    SessionNotFound(String),
    Hook(String),
    McpServer(String),
    ToolExecution(String),
    PermissionDenied { tool: String, reason: String },
    MaxTurnsExceeded(u32),
    Serialization(String),
    Io(String),
    Http(String),
    Regex(String),
    Cancelled,
}

/// Whether a block is a tool-use block.
pub open spec fn is_tool_use(b: ApiContentBlock) -> bool {
    b is ToolUse
}

/// Whether a block is a tool-result block.
pub open spec fn is_tool_result(b: ApiContentBlock) -> bool {
    b is ToolResult
}

/// Some block of the list is a tool use.
pub open spec fn any_tool_use(blocks: Seq<ApiContentBlock>) -> bool {
    exists|i: int| 0 <= i < blocks.len() && is_tool_use(#[trigger] blocks[i])
}

/// Some block of the list is a tool result.
pub open spec fn any_tool_result(blocks: Seq<ApiContentBlock>) -> bool {
    exists|i: int| 0 <= i < blocks.len() && is_tool_result(#[trigger] blocks[i])
}

/// Whether any of the blocks is a tool use.
pub fn has_tool_uses(blocks: &[ApiContentBlock]) -> (r: bool)
    ensures
        r == any_tool_use(blocks@),
{
    let mut i: usize = 0;
    while i < blocks.len()
        invariant
            0 <= i <= blocks@.len(),
            forall|j: int| 0 <= j < i ==> !is_tool_use(#[trigger] blocks@[j]),
        decreases blocks@.len() - i,
    {
        if let ApiContentBlock::ToolUse { .. } = &blocks[i] {
            return true;
        }
        i += 1;
    }
    false
}

/// Whether any of the blocks is a tool result.
pub fn has_tool_results(blocks: &[ApiContentBlock]) -> (r: bool)
    ensures
        r == any_tool_result(blocks@),
{
    let mut i: usize = 0;
    while i < blocks.len()
        invariant
            0 <= i <= blocks@.len(),
            forall|j: int| 0 <= j < i ==> !is_tool_result(#[trigger] blocks@[j]),
        decreases blocks@.len() - i,
    {
        if let ApiContentBlock::ToolResult { .. } = &blocks[i] {
            return true;
        }
        i += 1;
    }
    false
}

} // verus!

use orion_agent_core::api::{AgentError, ApiContentBlock, ApiMessage, CreateMessageRequest};
use orion_agent_core::openai::status_to_error;
use orion_agent_core::providers::{
    anthropic_status_to_error, bedrock_invoke_stream_url, bedrock_invoke_url, decode_chunk_payload,
    event_kind, exception_event, gemini_status_to_error, parse_event_stream_headers,
    strip_tool_result_names, vertex_invoke_stream_url, vertex_invoke_url, Backend,
    EventKind, EventStreamBuffer, FrameResult, SseEventReader,
};

const REGION: &str = "us-central1";
const PROJECT: &str = "test-project-123";

#[test]
fn client_status_to_error_maps_correctly() {
    let err = status_to_error(401, "401 Unauthorized", "bad key".into());
    assert!(matches!(err, AgentError::AuthenticationFailed(_)));
    let err = status_to_error(429, "429 Too Many Requests", "rate limited".into());
    assert!(matches!(err, AgentError::RateLimited(_)));
    let err = status_to_error(400, "400 Bad Request", "invalid".into());
    assert!(matches!(err, AgentError::InvalidRequest(_)));
}

#[test]
fn anthropic_status_to_error_maps_correctly() {
    let err = anthropic_status_to_error(401, "401 Unauthorized", "bad key".into());
    assert!(matches!(err, AgentError::AuthenticationFailed(_)));
    let err = anthropic_status_to_error(429, "429 Too Many Requests", "rate limited".into());
    assert!(matches!(err, AgentError::RateLimited(_)));
    let err = anthropic_status_to_error(400, "400 Bad Request", "invalid".into());
    assert!(matches!(err, AgentError::InvalidRequest(_)));
}

#[test]
fn status_errors_cover_every_class() {
    assert!(matches!(status_to_error(403, "403 Forbidden", "x".into()), AgentError::AuthenticationFailed(d) if d == "x"));
    assert!(matches!(status_to_error(402, "402 Payment Required", "x".into()), AgentError::BillingError(_)));
    assert!(matches!(status_to_error(503, "503 Service Unavailable", "x".into()), AgentError::ServerError(_)));
    match status_to_error(404, "404 Not Found", "gone".into()) {
        AgentError::Api(m) => assert_eq!(m, "HTTP 404 Not Found: gone"),
        e => panic!("unexpected {:?}", e),
    }
    match anthropic_status_to_error(529, "529 <unknown status code>", "busy".into()) {
        AgentError::ServerError(m) => assert_eq!(m, "overloaded: busy"),
        e => panic!("unexpected {:?}", e),
    }
    match gemini_status_to_error(402, "402 Payment Required", "pay".into()) {
        AgentError::Api(m) => assert_eq!(m, "HTTP 402 Payment Required: pay"),
        e => panic!("unexpected {:?}", e),
    }
}

#[test]
fn bedrock_invoke_url_format() {
    assert_eq!(
        bedrock_invoke_url("us-east-1", "us.anthropic.sonnet-4-6-20250514-v1:0"),
        "https://bedrock-runtime.us-east-1.amazonaws.com/model/us.anthropic.sonnet-4-6-20250514-v1:0/invoke"
    );
}

#[test]
fn bedrock_invoke_stream_url_format() {
    assert_eq!(
        bedrock_invoke_stream_url("eu-west-1", "anthropic.haiku-3-5-20241022-v1:0"),
        "https://bedrock-runtime.eu-west-1.amazonaws.com/model/anthropic.haiku-3-5-20241022-v1:0/invoke-with-response-stream"
    );
}

#[test]
fn capabilities_all_enabled() {
    let caps = Backend::Vertex.capabilities();
    assert!(caps.streaming);
    assert!(caps.tool_use);
    assert!(caps.thinking);
    assert!(caps.prompt_caching);
}

#[test]
fn capabilities_of_other_backends() {
    assert!(!Backend::OpenAi.capabilities().thinking);
    assert!(!Backend::OpenAi.capabilities().prompt_caching);
    assert!(Backend::Gemini.capabilities().thinking);
    assert!(!Backend::Gemini.capabilities().prompt_caching);
    assert!(Backend::Bedrock.capabilities().prompt_caching);
}

#[test]
fn vertex_invoke_url_format() {
    assert_eq!(
        vertex_invoke_url(REGION, PROJECT, "sonnet-4-6"),
        "https://us-central1-aiplatform.googleapis.com/v1/projects/test-project-123/locations/us-central1/publishers/anthropic/models/sonnet-4-6:rawPredict"
    );
}

#[test]
fn vertex_invoke_stream_url_format() {
    assert_eq!(
        vertex_invoke_stream_url(REGION, PROJECT, "sonnet-4-6"),
        "https://us-central1-aiplatform.googleapis.com/v1/projects/test-project-123/locations/us-central1/publishers/anthropic/models/sonnet-4-6:streamRawPredict"
    );
}

#[test]
fn invoke_url_global_region() {
    let url = vertex_invoke_url("global", PROJECT, "sonnet-4-6");
    assert!(url.starts_with("https://global-aiplatform.googleapis.com/"));
    assert!(url.contains("/projects/test-project-123/"));
    assert!(url.ends_with(":rawPredict"));
}

#[test]
fn invoke_url_different_regions() {
    for region in &["us-east1", "europe-west1", "asia-southeast1", "global"] {
        let url = vertex_invoke_url(region, PROJECT, "opus-4-6");
        assert!(url.contains(&format!("https://{region}-aiplatform.googleapis.com/")));
        assert!(url.contains("/publishers/anthropic/models/opus-4-6:rawPredict"));
    }
}

#[test]
fn invoke_url_with_versioned_model() {
    let url = vertex_invoke_url(REGION, PROJECT, "haiku-4-5@20251001");
    assert!(url.contains("/models/haiku-4-5@20251001:rawPredict"));
}

#[test]
fn build_body_strips_tool_result_names() {
    let mut request = CreateMessageRequest {
        model: "sonnet-4-6".to_string(),
        max_tokens: 1024,
        messages: vec![ApiMessage {
            role: "user".to_string(),
            content: vec![ApiContentBlock::ToolResult {
                tool_use_id: "id_123".to_string(),
                content: "\"\"".to_string(),
                is_error: Some(false),
                cache_control: None,
                name: Some("my_tool".to_string()),
            }],
        }],
        system: None,
        tools: None,
        stream: false,
        metadata: None,
        thinking: None,
    };
    strip_tool_result_names(&mut request);
    match &request.messages[0].content[0] {
        ApiContentBlock::ToolResult { name, tool_use_id, is_error, .. } => {
            assert!(name.is_none());
            assert_eq!(tool_use_id, "id_123");
            assert_eq!(*is_error, Some(false));
        }
        _ => panic!("expected a tool result"),
    }
}

#[test]
fn sse_reader_pairs_data_with_event_type() {
    let mut r = SseEventReader::new();
    assert!(r.on_line("event: message_start").is_none());
    assert_eq!(r.on_line("data: {\"a\":1}"), Some(("message_start".to_string(), "{\"a\":1}".to_string())));
    assert!(r.on_line(": comment").is_none());
    assert!(r.on_line("event:ping").is_none());
    assert_eq!(r.on_line("data:{}"), Some(("ping".to_string(), "{}".to_string())));
}

#[test]
fn event_kinds_by_name() {
    assert_eq!(event_kind("message_start"), EventKind::MessageStart);
    assert_eq!(event_kind("content_block_delta"), EventKind::ContentBlockDelta);
    assert_eq!(event_kind("error"), EventKind::Error);
    assert_eq!(event_kind("something_new"), EventKind::Ping);
}

fn header(name: &str, value: &str) -> Vec<u8> {
    let mut h = vec![name.len() as u8];
    h.extend_from_slice(name.as_bytes());
    h.push(7);
    h.extend_from_slice(&(value.len() as u16).to_be_bytes());
    h.extend_from_slice(value.as_bytes());
    h
}

fn frame(headers: &[u8], payload: &[u8]) -> Vec<u8> {
    let total = 12 + headers.len() + payload.len() + 4;
    let mut f = Vec::new();
    f.extend_from_slice(&(total as u32).to_be_bytes());
    f.extend_from_slice(&(headers.len() as u32).to_be_bytes());
    f.extend_from_slice(&[0, 0, 0, 0]);
    f.extend_from_slice(headers);
    f.extend_from_slice(payload);
    f.extend_from_slice(&[0, 0, 0, 0]);
    f
}

#[test]
fn event_stream_headers_give_event_type() {
    let mut h = header(":message-type", "event");
    h.extend(header(":event-type", "chunk"));
    assert_eq!(parse_event_stream_headers(&h), "chunk");
    assert_eq!(parse_event_stream_headers(&header(":content-type", "x")), "");
}

#[test]
fn event_stream_buffer_splits_frames() {
    let h = header(":event-type", "chunk");
    let f1 = frame(&h, b"{\"bytes\":\"e30=\"}");
    let f2 = frame(&h, b"{}");
    let mut buf = EventStreamBuffer::new();
    buf.push(&f1[..10]);
    assert!(matches!(buf.next_frame(), FrameResult::Incomplete));
    buf.push(&f1[10..]);
    buf.push(&f2[..5]);
    match buf.next_frame() {
        FrameResult::Frame { event_type, payload } => {
            assert_eq!(event_type, "chunk");
            assert_eq!(payload, b"{\"bytes\":\"e30=\"}".to_vec());
        }
        _ => panic!("expected a frame"),
    }
    assert!(matches!(buf.next_frame(), FrameResult::Incomplete));
    buf.push(&f2[5..]);
    match buf.next_frame() {
        FrameResult::Frame { payload, .. } => assert_eq!(payload, b"{}".to_vec()),
        _ => panic!("expected a frame"),
    }
}

#[test]
fn event_stream_buffer_rejects_overrunning_headers() {
    let mut f = frame(&header(":event-type", "chunk"), b"");
    f[4..8].copy_from_slice(&100u32.to_be_bytes());
    let mut buf = EventStreamBuffer::new();
    buf.push(&f);
    assert!(matches!(buf.next_frame(), FrameResult::Malformed));
}

#[test]
fn chunk_payload_decodes_base64_json() {
    assert_eq!(decode_chunk_payload("eyJ0eXBlIjoicGluZyJ9"), Some("{\"type\":\"ping\"}".to_string()));
    assert_eq!(decode_chunk_payload("not base64!"), None);
    assert_eq!(decode_chunk_payload("/w=="), None);
}

#[test]
fn chunk_payload_must_be_utf8_text() {
    assert_eq!(decode_chunk_payload("aMOp"), Some("h\u{e9}".to_string()));
    assert_eq!(decode_chunk_payload("//4="), None);
}

#[test]
fn exception_events_are_recognised() {
    assert!(exception_event("exception"));
    assert!(exception_event("throttlingException"));
    assert!(!exception_event("chunk"));
}

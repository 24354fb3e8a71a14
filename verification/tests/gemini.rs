use orion_agent_core::api::{ApiContentBlock, ApiMessage, CreateMessageRequest, StreamEvent, SystemBlock, ThinkingParam, ToolDefinition};
use orion_agent_core::gemini::{
    build_gemini_request, endpoint, parse_gemini_response, translate_message_to_gemini,
    GeminiCandidate, GeminiFunctionCall, GeminiPart, GeminiPartOut, GeminiResponse,
    GeminiStreamState, GeminiUsageMetadata,
};

fn user_text(t: &str) -> ApiMessage {
    ApiMessage { role: "user".into(), content: vec![ApiContentBlock::Text { text: t.into(), cache_control: None }] }
}

fn request(text: &str, max_tokens: u32, budget: Option<u64>) -> CreateMessageRequest {
    CreateMessageRequest {
        model: "gemini-2.5-flash".into(),
        max_tokens,
        messages: vec![user_text(text)],
        system: None,
        tools: None,
        stream: false,
        metadata: None,
        thinking: budget.map(|b| ThinkingParam { kind: "enabled".into(), budget_tokens: Some(b) }),
    }
}

fn usage(p: u64, c: u64) -> Option<GeminiUsageMetadata> {
    Some(GeminiUsageMetadata { prompt_token_count: Some(p), candidates_token_count: Some(c), cached_content_token_count: None })
}

fn response(parts: Vec<GeminiPart>, finish: &str, u: Option<GeminiUsageMetadata>) -> GeminiResponse {
    GeminiResponse {
        candidates: Some(vec![GeminiCandidate { parts: Some(parts), finish_reason: Some(finish.into()) }]),
        usage_metadata: u,
    }
}

fn text_part(t: &str) -> GeminiPart {
    GeminiPart { text: Some(t.into()), function_call: None }
}

fn call_part(name: &str, args: &str) -> GeminiPart {
    GeminiPart { text: None, function_call: Some(GeminiFunctionCall { name: name.into(), args: Some(args.into()) }) }
}

#[test]
fn build_gemini_request_basic() {
    let mut req = request("Hello", 1024, None);
    req.system = Some(vec![SystemBlock { kind: "text".into(), text: "You are helpful.".into(), cache_control: None }]);
    let body = build_gemini_request(&req);
    assert_eq!(body.system_instruction.as_deref(), Some("You are helpful."));
    assert_eq!(body.contents.len(), 1);
    assert_eq!(body.contents[0].role, "user");
    match &body.contents[0].parts[0] {
        GeminiPartOut::Text(t) => assert_eq!(t, "Hello"),
        p => panic!("unexpected {:?}", p),
    }
}

#[test]
fn build_gemini_request_with_tools() {
    let mut req = request("List files", 1024, None);
    req.tools = Some(vec![ToolDefinition {
        name: "Bash".into(),
        description: "Run a command".into(),
        input_schema: r#"{"type":"object","properties":{"command":{"type":"string"}}}"#.into(),
        cache_control: None,
    }]);
    let body = build_gemini_request(&req);
    let decls = body.function_declarations.unwrap();
    assert_eq!(decls.len(), 1);
    assert_eq!(decls[0].name, "Bash");
}

#[test]
fn parse_gemini_response_text() {
    let resp = response(vec![text_part("Hello there!")], "STOP", usage(5, 3));
    let msg = parse_gemini_response(&resp, "gemini-2.5-flash", "msg_1".into()).unwrap();
    assert_eq!(msg.stop_reason.as_deref(), Some("end_turn"));
    assert_eq!(msg.usage.input_tokens, 5);
    assert_eq!(msg.usage.output_tokens, 3);
    match &msg.content[0] {
        ApiContentBlock::Text { text, .. } => assert_eq!(text, "Hello there!"),
        _ => panic!("expected text"),
    }
}

#[test]
fn parse_gemini_response_with_function_call() {
    let resp = response(vec![call_part("Bash", r#"{"command":"ls -la"}"#)], "STOP", usage(10, 8));
    let msg = parse_gemini_response(&resp, "gemini-2.5-flash", "msg_2".into()).unwrap();
    assert_eq!(msg.stop_reason.as_deref(), Some("tool_use"));
    match &msg.content[0] {
        ApiContentBlock::ToolUse { name, input, .. } => {
            assert_eq!(name, "Bash");
            let v: serde_json::Value = serde_json::from_str(input).unwrap();
            assert_eq!(v, serde_json::from_str::<serde_json::Value>(r#"{"command":"ls -la"}"#).unwrap());
        }
        _ => panic!("expected tool use"),
    }
}

#[test]
fn parse_gemini_response_without_candidates_fails() {
    let resp = GeminiResponse { candidates: None, usage_metadata: None };
    assert!(parse_gemini_response(&resp, "m", "id".into()).is_err());
}

#[test]
fn build_gemini_request_with_thinking_config() {
    let body = build_gemini_request(&request("Think hard about this", 4096, Some(8192)));
    assert_eq!(body.max_output_tokens, 4096);
    assert_eq!(body.thinking_level.as_deref(), Some("MEDIUM"));
}

#[test]
fn build_gemini_request_with_thinking_low() {
    let body = build_gemini_request(&request("Quick question", 1024, Some(2048)));
    assert_eq!(body.thinking_level.as_deref(), Some("LOW"));
}

#[test]
fn build_gemini_request_with_thinking_high() {
    let body = build_gemini_request(&request("Complex problem", 1024, Some(32768)));
    assert_eq!(body.thinking_level.as_deref(), Some("HIGH"));
}

#[test]
fn thinking_level_edges() {
    assert_eq!(build_gemini_request(&request("q", 10, Some(4096))).thinking_level.as_deref(), Some("LOW"));
    assert_eq!(build_gemini_request(&request("q", 10, Some(16384))).thinking_level.as_deref(), Some("MEDIUM"));
    assert_eq!(build_gemini_request(&request("q", 10, None)).thinking_level, None);
}

#[test]
fn translate_assistant_with_tool_call_to_gemini() {
    let msg = ApiMessage {
        role: "assistant".into(),
        content: vec![
            ApiContentBlock::Text { text: "Let me run that.".into(), cache_control: None },
            ApiContentBlock::ToolUse { id: "call_42".into(), name: "Bash".into(), input: r#"{"command":"pwd"}"#.into() },
        ],
    };
    let result = translate_message_to_gemini(&msg).unwrap();
    assert_eq!(result.role, "model");
    assert_eq!(result.parts.len(), 2);
    match &result.parts[0] {
        GeminiPartOut::Text(t) => assert_eq!(t, "Let me run that."),
        p => panic!("unexpected {:?}", p),
    }
    match &result.parts[1] {
        GeminiPartOut::FunctionCall { name, args } => {
            assert_eq!(name, "Bash");
            let v: serde_json::Value = serde_json::from_str(args).unwrap();
            assert_eq!(v["command"], "pwd");
        }
        p => panic!("unexpected {:?}", p),
    }
}

fn tool_result(id: &str, content: &str, name: Option<&str>) -> ApiMessage {
    ApiMessage {
        role: "user".into(),
        content: vec![ApiContentBlock::ToolResult {
            tool_use_id: id.into(),
            content: serde_json::to_string(content).unwrap(),
            is_error: None,
            cache_control: None,
            name: name.map(|n| n.to_string()),
        }],
    }
}

#[test]
fn translate_tool_result_to_gemini() {
    let result = translate_message_to_gemini(&tool_result("call_123", "file1.txt", Some("Bash"))).unwrap();
    assert_eq!(result.role, "user");
    match &result.parts[0] {
        GeminiPartOut::FunctionResponse { name, result } => {
            assert_eq!(name, "Bash");
            assert_eq!(result, "file1.txt");
        }
        p => panic!("unexpected {:?}", p),
    }
}

#[test]
fn translate_tool_result_falls_back_to_id_when_no_name() {
    let result = translate_message_to_gemini(&tool_result("legacy_call_456", "output", None)).unwrap();
    match &result.parts[0] {
        GeminiPartOut::FunctionResponse { name, .. } => assert_eq!(name, "legacy_call_456"),
        p => panic!("unexpected {:?}", p),
    }
}

#[test]
fn messages_of_other_roles_are_left_out() {
    let mut m = user_text("x");
    m.role = "system".into();
    assert!(translate_message_to_gemini(&m).is_none());
}

#[test]
fn endpoint_names_model_and_method() {
    assert_eq!(
        endpoint("https://g.example/v1beta", "gemini-2.5-flash", "generateContent"),
        "https://g.example/v1beta/models/gemini-2.5-flash:generateContent"
    );
}

#[test]
fn gemini_stream_emits_start_text_and_end() {
    let mut state = GeminiStreamState::new();
    let mut events = state.on_chunk(&response(vec![text_part("Hel")], "", None), "msg_s", "gemini");
    events.extend(state.on_chunk(&response(vec![text_part("lo")], "STOP", usage(3, 2)), "msg_s", "gemini"));
    events.extend(state.on_end());
    assert!(matches!(events[0], StreamEvent::MessageStart { .. }));
    let text: String = events
        .iter()
        .filter_map(|e| match e {
            StreamEvent::ContentBlockDelta { delta: orion_agent_core::api::ContentDelta::TextDelta { text }, .. } => Some(text.clone()),
            _ => None,
        })
        .collect();
    assert_eq!(text, "Hello");
    assert!(matches!(events.last(), Some(StreamEvent::MessageStop)));
}

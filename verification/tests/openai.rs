use orion_agent_core::api::{ApiContentBlock, ApiMessage, CreateMessageRequest, StreamEvent, SystemBlock, ToolDefinition};
use orion_agent_core::openai::{
    build_openai_request, is_retryable, map_finish_reason, parse_openai_response, translate_message,
    OaiChatResponse, OaiChoice, OaiContent, OaiOutMessage, OaiStreamChoice, OaiStreamChunk,
    OaiStreamState, OaiToolCall, OaiToolCallDelta, OaiUsage,
};

fn json(text: &str) -> serde_json::Value {
    serde_json::from_str(text).unwrap()
}

fn user_text(t: &str) -> ApiMessage {
    ApiMessage {
        role: "user".into(),
        content: vec![ApiContentBlock::Text { text: t.into(), cache_control: None }],
    }
}

fn request(messages: Vec<ApiMessage>, system: Option<Vec<SystemBlock>>, tools: Option<Vec<ToolDefinition>>) -> CreateMessageRequest {
    CreateMessageRequest {
        model: "gpt-4.1".into(),
        max_tokens: 1024,
        messages,
        system,
        tools,
        stream: false,
        metadata: None,
        thinking: None,
    }
}

fn call(id: &str, name: &str, args: &str) -> OaiToolCall {
    OaiToolCall { id: id.into(), name: name.into(), arguments: args.into() }
}

fn response(id: &str, content: Option<&str>, calls: Option<Vec<OaiToolCall>>, finish: &str, usage: Option<OaiUsage>) -> OaiChatResponse {
    OaiChatResponse {
        id: id.into(),
        model: "gpt-4.1".into(),
        choices: vec![OaiChoice {
            content: content.map(|c| c.to_string()),
            tool_calls: calls,
            finish_reason: Some(finish.into()),
        }],
        usage,
    }
}

#[test]
fn translate_simple_user_message() {
    let result = translate_message(&user_text("Hello"));
    assert_eq!(result.len(), 1);
    match &result[0] {
        OaiOutMessage::Chat { role, content: OaiContent::Text(t), tool_calls } => {
            assert_eq!(role, "user");
            assert_eq!(t, "Hello");
            assert!(tool_calls.is_empty());
        }
        m => panic!("unexpected {:?}", m),
    }
}

#[test]
fn translate_assistant_with_tool_calls() {
    let msg = ApiMessage {
        role: "assistant".into(),
        content: vec![
            ApiContentBlock::Text { text: "Let me check.".into(), cache_control: None },
            ApiContentBlock::ToolUse { id: "call_1".into(), name: "Bash".into(), input: r#"{"command":"ls"}"#.into() },
        ],
    };
    let result = translate_message(&msg);
    assert_eq!(result.len(), 1);
    match &result[0] {
        OaiOutMessage::Chat { role, content: OaiContent::Text(t), tool_calls } => {
            assert_eq!(role, "assistant");
            assert_eq!(t, "Let me check.");
            assert_eq!(tool_calls[0].id, "call_1");
            assert_eq!(tool_calls[0].name, "Bash");
        }
        m => panic!("unexpected {:?}", m),
    }
}

#[test]
fn translate_tool_results() {
    let msg = ApiMessage {
        role: "user".into(),
        content: vec![ApiContentBlock::ToolResult {
            tool_use_id: "call_1".into(),
            content: serde_json::to_string("file1.txt\nfile2.txt").unwrap(),
            is_error: None,
            cache_control: None,
            name: None,
        }],
    };
    let result = translate_message(&msg);
    assert_eq!(result.len(), 1);
    match &result[0] {
        OaiOutMessage::Tool { tool_call_id, content } => {
            assert_eq!(tool_call_id, "call_1");
            assert_eq!(content, "file1.txt\nfile2.txt");
        }
        m => panic!("unexpected {:?}", m),
    }
}

#[test]
fn translate_assistant_tool_calls_only_no_text() {
    let msg = ApiMessage {
        role: "assistant".into(),
        content: vec![ApiContentBlock::ToolUse { id: "call_99".into(), name: "Read".into(), input: r#"{"path":"/tmp/foo"}"#.into() }],
    };
    let result = translate_message(&msg);
    assert_eq!(result.len(), 1);
    match &result[0] {
        OaiOutMessage::Chat { role, content, tool_calls } => {
            assert_eq!(role, "assistant");
            assert!(matches!(content, OaiContent::Null));
            assert_eq!(tool_calls[0].id, "call_99");
            assert_eq!(tool_calls[0].name, "Read");
        }
        m => panic!("unexpected {:?}", m),
    }
}

#[test]
fn parse_openai_response_basic() {
    let oai = response("chatcmpl-123", Some("Hello!"), None, "stop", Some(OaiUsage { prompt_tokens: 10, completion_tokens: 5 }));
    let msg = parse_openai_response(&oai).unwrap();
    assert_eq!(msg.id, "chatcmpl-123");
    assert_eq!(msg.stop_reason.as_deref(), Some("end_turn"));
    assert_eq!(msg.usage.input_tokens, 10);
    assert_eq!(msg.usage.output_tokens, 5);
    match &msg.content[0] {
        ApiContentBlock::Text { text, .. } => assert_eq!(text, "Hello!"),
        _ => panic!("expected text"),
    }
}

#[test]
fn parse_openai_response_with_tool_calls() {
    let oai = response(
        "chatcmpl-456",
        None,
        Some(vec![call("call_abc", "Bash", r#"{"command":"ls"}"#)]),
        "tool_calls",
        Some(OaiUsage { prompt_tokens: 20, completion_tokens: 10 }),
    );
    let msg = parse_openai_response(&oai).unwrap();
    assert_eq!(msg.stop_reason.as_deref(), Some("tool_use"));
    match &msg.content[0] {
        ApiContentBlock::ToolUse { id, name, input } => {
            assert_eq!(id, "call_abc");
            assert_eq!(name, "Bash");
            assert_eq!(json(input), json(r#"{"command":"ls"}"#));
        }
        _ => panic!("expected tool use"),
    }
}

#[test]
fn parse_ollama_response_with_object_arguments() {
    let oai = response("chatcmpl-789", None, Some(vec![call("call_ollama", "FileRead", r#"{"path":"/tmp/test.txt"}"#)]), "tool_calls", None);
    let msg = parse_openai_response(&oai).unwrap();
    match &msg.content[0] {
        ApiContentBlock::ToolUse { id, name, input } => {
            assert_eq!(id, "call_ollama");
            assert_eq!(name, "FileRead");
            assert_eq!(json(input), json(r#"{"path":"/tmp/test.txt"}"#));
        }
        _ => panic!("expected tool use"),
    }
}

#[test]
fn parse_ollama_response_with_nested_object_arguments() {
    let args = r#"{"path":"/tmp/out.json","content":"hello world","options":{"overwrite":true,"mode":644}}"#;
    let oai = response("chatcmpl-nested", None, Some(vec![call("call_nested", "WriteFile", args)]), "tool_calls", None);
    let msg = parse_openai_response(&oai).unwrap();
    match &msg.content[0] {
        ApiContentBlock::ToolUse { input, .. } => {
            let v = json(input);
            assert_eq!(v["path"], "/tmp/out.json");
            assert_eq!(v["options"]["overwrite"], true);
            assert_eq!(v["options"]["mode"], 644);
        }
        _ => panic!("expected tool use"),
    }
}

#[test]
fn parse_ollama_response_with_empty_object_arguments() {
    let oai = response("chatcmpl-empty", None, Some(vec![call("call_empty", "FileList", "{}")]), "tool_calls", None);
    let msg = parse_openai_response(&oai).unwrap();
    match &msg.content[0] {
        ApiContentBlock::ToolUse { name, input, .. } => {
            assert_eq!(name, "FileList");
            assert_eq!(json(input), json("{}"));
        }
        _ => panic!("expected tool use"),
    }
}

#[test]
fn parse_ollama_multiple_tool_calls_with_object_arguments() {
    let oai = response(
        "chatcmpl-multi",
        Some("Let me check both files."),
        Some(vec![
            call("call_1", "FileRead", r#"{"path":"/etc/hosts"}"#),
            call("call_2", "FileRead", r#"{"path":"/etc/resolv.conf"}"#),
        ]),
        "tool_calls",
        Some(OaiUsage { prompt_tokens: 50, completion_tokens: 25 }),
    );
    let msg = parse_openai_response(&oai).unwrap();
    assert_eq!(msg.content.len(), 3);
    match &msg.content[1] {
        ApiContentBlock::ToolUse { input, .. } => assert_eq!(json(input)["path"], "/etc/hosts"),
        _ => panic!("expected tool use at index 1"),
    }
    match &msg.content[2] {
        ApiContentBlock::ToolUse { input, .. } => assert_eq!(json(input)["path"], "/etc/resolv.conf"),
        _ => panic!("expected tool use at index 2"),
    }
}

#[test]
fn parse_openai_response_no_usage() {
    let oai = response("chatcmpl-789", Some("Hi there"), None, "stop", None);
    let msg = parse_openai_response(&oai).unwrap();
    assert_eq!(msg.id, "chatcmpl-789");
    assert_eq!(msg.usage.input_tokens, 0);
    assert_eq!(msg.usage.output_tokens, 0);
    assert!(msg.usage.cache_creation_input_tokens.is_none());
    assert!(msg.usage.cache_read_input_tokens.is_none());
}

#[test]
fn parse_openai_response_without_choices_fails() {
    let oai = OaiChatResponse { id: "x".into(), model: "m".into(), choices: vec![], usage: None };
    assert!(parse_openai_response(&oai).is_err());
}

#[test]
fn build_openai_request_with_tools() {
    let tools = vec![
        ToolDefinition {
            name: "Bash".into(),
            description: "Run a shell command".into(),
            input_schema: r#"{"type":"object","properties":{"command":{"type":"string"}}}"#.into(),
            cache_control: None,
        },
        ToolDefinition {
            name: "Read".into(),
            description: "Read a file".into(),
            input_schema: r#"{"type":"object","properties":{"path":{"type":"string"}}}"#.into(),
            cache_control: None,
        },
    ];
    let mut req = request(vec![user_text("List files")], None, Some(tools));
    req.model = "gpt-4o".into();
    req.max_tokens = 2048;
    let body = build_openai_request(&req);
    let fs = body.tools.expect("tools should be present");
    assert_eq!(fs.len(), 2);
    assert_eq!(fs[0].name, "Bash");
    assert_eq!(fs[0].description, "Run a shell command");
    assert!(json(&fs[0].parameters).is_object());
    assert_eq!(fs[1].name, "Read");
    assert_eq!(body.model, "gpt-4o");
    assert_eq!(body.max_tokens, 2048);
}

#[test]
fn build_openai_request_with_system() {
    let system = vec![SystemBlock { kind: "text".into(), text: "You are helpful.".into(), cache_control: None }];
    let body = build_openai_request(&request(vec![user_text("Hi")], Some(system), None));
    match &body.messages[0] {
        OaiOutMessage::Chat { role, content: OaiContent::Text(t), .. } => {
            assert_eq!(role, "system");
            assert_eq!(t, "You are helpful.");
        }
        m => panic!("unexpected {:?}", m),
    }
    match &body.messages[1] {
        OaiOutMessage::Chat { role, content: OaiContent::Text(t), .. } => {
            assert_eq!(role, "user");
            assert_eq!(t, "Hi");
        }
        m => panic!("unexpected {:?}", m),
    }
    assert!(body.tools.is_none());
}

fn chunk(id: &str, content: Option<&str>, deltas: Option<Vec<OaiToolCallDelta>>, finish: Option<&str>, usage: Option<OaiUsage>) -> OaiStreamChunk {
    OaiStreamChunk {
        id: id.into(),
        model: "qwen3:8b".into(),
        choices: vec![OaiStreamChoice {
            content: content.map(|c| c.to_string()),
            tool_calls: deltas,
            finish_reason: finish.map(|f| f.to_string()),
        }],
        usage,
    }
}

fn run(chunks: Vec<OaiStreamChunk>) -> Vec<StreamEvent> {
    let mut state = OaiStreamState::new();
    let mut events = Vec::new();
    for c in &chunks {
        events.extend(state.on_chunk(c));
    }
    events.extend(state.on_done());
    events
}

fn tool_start(events: &[StreamEvent]) -> (String, serde_json::Value) {
    for e in events {
        if let StreamEvent::ContentBlockStart { content_block: ApiContentBlock::ToolUse { name, input, .. }, .. } = e {
            return (name.clone(), json(input));
        }
    }
    panic!("expected a tool ContentBlockStart event");
}

#[test]
fn stream_ollama_tool_call_with_object_arguments() {
    let events = run(vec![
        chunk(
            "chat-1",
            None,
            Some(vec![OaiToolCallDelta {
                index: 0,
                id: Some("call_1".into()),
                name: Some("FileRead".into()),
                arguments: Some(r#"{"path":"/tmp/foo"}"#.into()),
            }]),
            None,
            None,
        ),
        chunk("chat-1", None, None, Some("tool_calls"), Some(OaiUsage { prompt_tokens: 10, completion_tokens: 5 })),
    ]);
    assert!(matches!(events[0], StreamEvent::MessageStart { .. }));
    let (name, input) = tool_start(&events);
    assert_eq!(name, "FileRead");
    assert_eq!(input["path"], "/tmp/foo");
    assert!(matches!(events.last(), Some(StreamEvent::MessageStop)));
}

#[test]
fn stream_ollama_incremental_tool_arguments() {
    let d = |id: Option<&str>, name: Option<&str>, args: &str| OaiToolCallDelta {
        index: 0,
        id: id.map(|s| s.to_string()),
        name: name.map(|s| s.to_string()),
        arguments: Some(args.to_string()),
    };
    let events = run(vec![
        chunk("chat-2", None, Some(vec![d(Some("call_inc"), Some("Bash"), "")]), None, None),
        chunk("chat-2", None, Some(vec![d(None, None, "{\"com")]), None, None),
        chunk("chat-2", None, Some(vec![d(None, None, "mand\":\"ls\"}")]), None, None),
        chunk("chat-2", None, None, Some("tool_calls"), Some(OaiUsage { prompt_tokens: 20, completion_tokens: 10 })),
    ]);
    let (name, input) = tool_start(&events);
    assert_eq!(name, "Bash");
    assert_eq!(input["command"], "ls");
}

#[test]
fn finish_reasons_map_to_stop_reasons() {
    assert_eq!(map_finish_reason("stop"), "end_turn");
    assert_eq!(map_finish_reason("tool_calls"), "tool_use");
    assert_eq!(map_finish_reason("length"), "max_tokens");
    assert_eq!(map_finish_reason("content_filter"), "content_filter");
}

#[test]
fn retryable_statuses() {
    assert!(is_retryable(429));
    assert!(is_retryable(529));
    assert!(!is_retryable(500));
}

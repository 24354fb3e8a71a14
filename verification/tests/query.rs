use orion_agent_core::api::{
    ApiContentBlock, ApiMessage, ApiUsage, ContentDelta, MessageDelta, MessageResponse,
    StreamEvent,
};
use orion_agent_core::conversation::{api_block_to_content_block, repair_orphaned_tool_uses};
use orion_agent_core::messages::ContentBlock;
use orion_agent_core::stream::accumulate_stream;

fn text(t: &str) -> ApiContentBlock {
    ApiContentBlock::Text { text: t.to_string(), cache_control: None }
}

fn tool_use(id: &str, name: &str, input: &str) -> ApiContentBlock {
    ApiContentBlock::ToolUse { id: id.to_string(), name: name.to_string(), input: input.to_string() }
}

fn tool_result(id: &str, content: &str, name: Option<&str>) -> ApiContentBlock {
    ApiContentBlock::ToolResult {
        tool_use_id: id.to_string(),
        content: serde_json::to_string(content).unwrap(),
        is_error: None,
        cache_control: None,
        name: name.map(|n| n.to_string()),
    }
}

fn msg(role: &str, content: Vec<ApiContentBlock>) -> ApiMessage {
    ApiMessage { role: role.to_string(), content }
}

fn usage(input: u64, output: u64) -> ApiUsage {
    ApiUsage {
        input_tokens: input,
        output_tokens: output,
        cache_creation_input_tokens: None,
        cache_read_input_tokens: None,
    }
}

fn start(id: &str, model: &str, u: ApiUsage) -> StreamEvent {
    StreamEvent::MessageStart {
        message: MessageResponse {
            id: id.into(),
            role: "assistant".into(),
            content: vec![],
            model: model.into(),
            stop_reason: None,
            usage: u,
        },
    }
}

fn json_field(text: &str, key: &str) -> serde_json::Value {
    let v: serde_json::Value = serde_json::from_str(text).unwrap();
    v[key].clone()
}

#[test]
fn api_block_to_content_block_preserves_tool_result_fields() {
    let block = ApiContentBlock::ToolResult {
        tool_use_id: "toolu_abc".into(),
        content: serde_json::to_string("result text").unwrap(),
        is_error: Some(true),
        cache_control: None,
        name: None,
    };
    match api_block_to_content_block(&block) {
        ContentBlock::ToolResult { tool_use_id, content, is_error } => {
            assert_eq!(tool_use_id, "toolu_abc");
            assert_eq!(serde_json::from_str::<String>(&content).unwrap(), "result text");
            assert_eq!(is_error, Some(true));
        }
        _ => panic!("expected ToolResult content block"),
    }
}

#[test]
fn accumulate_stream_emits_text_deltas_and_builds_response() {
    let events = vec![
        start("msg_123", "model-test", usage(100, 0)),
        StreamEvent::ContentBlockStart { index: 0, content_block: text("") },
        StreamEvent::ContentBlockDelta { index: 0, delta: ContentDelta::TextDelta { text: "Hello".into() } },
        StreamEvent::ContentBlockDelta { index: 0, delta: ContentDelta::TextDelta { text: " world".into() } },
        StreamEvent::ContentBlockDelta { index: 0, delta: ContentDelta::TextDelta { text: "!".into() } },
        StreamEvent::ContentBlockStop { index: 0 },
        StreamEvent::MessageDelta {
            delta: MessageDelta { stop_reason: Some("end_turn".into()) },
            usage: usage(0, 15),
        },
        StreamEvent::MessageStop,
    ];
    let out = accumulate_stream(events).expect("accumulate_stream should succeed");
    let response = out.response;
    assert_eq!(response.id, "msg_123");
    assert_eq!(response.model, "model-test");
    assert_eq!(response.stop_reason, Some("end_turn".into()));
    assert_eq!(response.usage.output_tokens, 15);
    assert_eq!(response.content.len(), 1);
    if let ApiContentBlock::Text { text, .. } = &response.content[0] {
        assert_eq!(text, "Hello world!");
    } else {
        panic!("expected Text content block");
    }
    assert_eq!(out.text_deltas.len(), 3);
    let expected_texts = ["Hello", " world", "!"];
    for (i, (index, t)) in out.text_deltas.iter().enumerate() {
        assert_eq!(*index, 0);
        assert_eq!(t, expected_texts[i]);
    }
}

#[test]
fn accumulate_stream_handles_tool_use() {
    let events = vec![
        start("msg_456", "model-test", usage(0, 0)),
        StreamEvent::ContentBlockStart { index: 0, content_block: text("") },
        StreamEvent::ContentBlockDelta {
            index: 0,
            delta: ContentDelta::TextDelta { text: "Let me check.".into() },
        },
        StreamEvent::ContentBlockStop { index: 0 },
        StreamEvent::ContentBlockStart { index: 1, content_block: tool_use("toolu_abc", "Read", "{}") },
        StreamEvent::ContentBlockDelta {
            index: 1,
            delta: ContentDelta::InputJsonDelta { partial_json: r#"{"path":"/tmp/f.txt"}"#.into() },
        },
        StreamEvent::ContentBlockStop { index: 1 },
        StreamEvent::MessageDelta {
            delta: MessageDelta { stop_reason: Some("tool_use".into()) },
            usage: usage(0, 20),
        },
        StreamEvent::MessageStop,
    ];
    let response = accumulate_stream(events).expect("should succeed").response;
    assert_eq!(response.content.len(), 2);
    if let ApiContentBlock::Text { text, .. } = &response.content[0] {
        assert_eq!(text, "Let me check.");
    } else {
        panic!("expected Text block at index 0");
    }
    if let ApiContentBlock::ToolUse { id, name, input } = &response.content[1] {
        assert_eq!(id, "toolu_abc");
        assert_eq!(name, "Read");
        assert_eq!(json_field(input, "path"), "/tmp/f.txt");
    } else {
        panic!("expected ToolUse block at index 1");
    }
    assert_eq!(response.stop_reason, Some("tool_use".into()));
}

#[test]
fn accumulate_stream_preserves_openai_tool_input() {
    let events = vec![
        start("msg_oai", "qwen3:8b", usage(0, 0)),
        StreamEvent::ContentBlockStart {
            index: 0,
            content_block: tool_use("call_123", "Bash", r#"{"command":"ls -la","timeout":5000}"#),
        },
        StreamEvent::ContentBlockStop { index: 0 },
        StreamEvent::MessageDelta {
            delta: MessageDelta { stop_reason: Some("tool_use".into()) },
            usage: usage(0, 10),
        },
        StreamEvent::MessageStop,
    ];
    let response = accumulate_stream(events).expect("should succeed").response;
    assert_eq!(response.content.len(), 1);
    if let ApiContentBlock::ToolUse { id, name, input } = &response.content[0] {
        assert_eq!(id, "call_123");
        assert_eq!(name, "Bash");
        assert_eq!(json_field(input, "command"), "ls -la");
        assert_eq!(json_field(input, "timeout"), 5000);
    } else {
        panic!("expected ToolUse block");
    }
}

#[test]
fn unfinished_block_is_left_out() {
    let events = vec![
        start("m2", "m", usage(0, 0)),
        StreamEvent::ContentBlockStart { index: 0, content_block: text("") },
        StreamEvent::ContentBlockDelta { index: 0, delta: ContentDelta::TextDelta { text: "x".into() } },
    ];
    let out = accumulate_stream(events).unwrap();
    assert!(out.response.content.is_empty());
    assert_eq!(out.text_deltas.len(), 1);
}

#[test]
fn invalid_tool_input_becomes_empty_object() {
    let events = vec![
        start("m3", "m", usage(0, 0)),
        StreamEvent::ContentBlockStart { index: 0, content_block: tool_use("t", "Bash", "") },
        StreamEvent::ContentBlockDelta { index: 0, delta: ContentDelta::InputJsonDelta { partial_json: "{\"a\":".into() } },
        StreamEvent::ContentBlockStop { index: 0 },
    ];
    let response = accumulate_stream(events).unwrap().response;
    match &response.content[0] {
        ApiContentBlock::ToolUse { input, .. } => assert_eq!(input, "{}"),
        b => panic!("unexpected {:?}", b),
    }
}

#[test]
fn accumulate_stream_error_event_fails() {
    let events = vec![
        start("msg_err", "m", usage(1, 0)),
        StreamEvent::Error {
            error: orion_agent_core::api::ApiError { kind: "overloaded_error".into(), message: "busy".into() },
        },
    ];
    assert!(accumulate_stream(events).is_err());
}

#[test]
fn accumulate_stream_concatenates_text_deltas() {
    let parts = ["a", "bc", "", "def"];
    let mut events = vec![
        start("m1", "m", usage(0, 0)),
        StreamEvent::ContentBlockStart { index: 0, content_block: text("") },
    ];
    for p in parts {
        events.push(StreamEvent::ContentBlockDelta {
            index: 0,
            delta: ContentDelta::TextDelta { text: p.to_string() },
        });
    }
    events.push(StreamEvent::ContentBlockStop { index: 0 });
    let response = accumulate_stream(events).unwrap().response;
    if let ApiContentBlock::Text { text, .. } = &response.content[0] {
        assert_eq!(text, &parts.concat());
    } else {
        panic!("expected Text block");
    }
}

#[test]
fn repair_orphaned_tool_uses_injects_synthetic_results() {
    let mut conversation = vec![
        msg("user", vec![text("run a command")]),
        msg(
            "assistant",
            vec![
                text("Sure, let me run that."),
                tool_use("toolu_orphaned_1", "Bash", r#"{"command":"ls"}"#),
                tool_use("toolu_orphaned_2", "Bash", r#"{"command":"pwd"}"#),
            ],
        ),
    ];
    repair_orphaned_tool_uses(&mut conversation);
    assert_eq!(conversation.len(), 3);
    let repaired = &conversation[2];
    assert_eq!(repaired.role, "user");
    assert_eq!(repaired.content.len(), 2);
    for block in &repaired.content {
        match block {
            ApiContentBlock::ToolResult { tool_use_id, is_error, .. } => {
                assert!(tool_use_id == "toolu_orphaned_1" || tool_use_id == "toolu_orphaned_2");
                assert_eq!(*is_error, Some(true));
            }
            _ => panic!("expected ToolResult block"),
        }
    }
}

#[test]
fn repair_orphaned_tool_uses_noop_when_results_exist() {
    let mut conversation = vec![
        msg("assistant", vec![tool_use("toolu_ok", "Bash", r#"{"command":"ls"}"#)]),
        msg("user", vec![tool_result("toolu_ok", "file1\nfile2", Some("Bash"))]),
    ];
    let original_len = conversation.len();
    repair_orphaned_tool_uses(&mut conversation);
    assert_eq!(conversation.len(), original_len);
}

#[test]
fn repair_orphaned_tool_uses_partial_results() {
    let mut conversation = vec![
        msg(
            "assistant",
            vec![
                tool_use("toolu_answered", "Bash", r#"{"command":"ls"}"#),
                tool_use("toolu_missing", "Bash", r#"{"command":"pwd"}"#),
            ],
        ),
        msg("user", vec![tool_result("toolu_answered", "ok", Some("Bash"))]),
    ];
    repair_orphaned_tool_uses(&mut conversation);
    assert_eq!(conversation.len(), 3);
    let repaired = &conversation[2];
    assert_eq!(repaired.content.len(), 1);
    if let ApiContentBlock::ToolResult { tool_use_id, .. } = &repaired.content[0] {
        assert_eq!(tool_use_id, "toolu_missing");
    } else {
        panic!("expected ToolResult");
    }
}

#[test]
fn repair_orphaned_tool_uses_noop_no_tool_use() {
    let mut conversation = vec![msg("user", vec![text("hello")]), msg("assistant", vec![text("hi there")])];
    let original_len = conversation.len();
    repair_orphaned_tool_uses(&mut conversation);
    assert_eq!(conversation.len(), original_len);
}

#[test]
fn repair_orphaned_tool_uses_noop_empty_conversation() {
    let mut conversation: Vec<ApiMessage> = vec![];
    repair_orphaned_tool_uses(&mut conversation);
    assert!(conversation.is_empty());
}

#[test]
fn repair_orphaned_tool_uses_noop_only_user_messages() {
    let mut conversation = vec![msg("user", vec![text("hello")])];
    let original_len = conversation.len();
    repair_orphaned_tool_uses(&mut conversation);
    assert_eq!(conversation.len(), original_len);
}

#[test]
fn repair_orphaned_single_tool_use() {
    let mut conversation = vec![msg("assistant", vec![tool_use("toolu_single", "Read", r#"{"path":"/tmp/test"}"#)])];
    repair_orphaned_tool_uses(&mut conversation);
    assert_eq!(conversation.len(), 2);
    let repaired = &conversation[1];
    assert_eq!(repaired.role, "user");
    assert_eq!(repaired.content.len(), 1);
    if let ApiContentBlock::ToolResult { tool_use_id, is_error, content, .. } = &repaired.content[0] {
        assert_eq!(tool_use_id, "toolu_single");
        assert_eq!(*is_error, Some(true));
        let s: String = serde_json::from_str(content).unwrap();
        assert!(s.contains("Session interrupted"));
    } else {
        panic!("expected ToolResult");
    }
}

#[test]
fn repair_orphaned_long_session_with_completed_cycles() {
    let mut conversation = vec![
        msg("user", vec![text("list files")]),
        msg("assistant", vec![tool_use("toolu_turn1", "Bash", r#"{"command":"ls"}"#)]),
        msg("user", vec![tool_result("toolu_turn1", "file1.txt\nfile2.txt", Some("Bash"))]),
        msg("assistant", vec![text("Here are your files.")]),
        msg("user", vec![text("now start the tunnel")]),
        msg(
            "assistant",
            vec![
                text("Starting tunnel now."),
                tool_use("toolu_crash", "Bash", r#"{"command":"cloudflared tunnel run"}"#),
            ],
        ),
    ];
    repair_orphaned_tool_uses(&mut conversation);
    assert_eq!(conversation.len(), 7);
    let repaired = &conversation[6];
    assert_eq!(repaired.role, "user");
    assert_eq!(repaired.content.len(), 1);
    if let ApiContentBlock::ToolResult { tool_use_id, .. } = &repaired.content[0] {
        assert_eq!(tool_use_id, "toolu_crash");
    } else {
        panic!("expected ToolResult for orphaned tool_use");
    }
}

#[test]
fn repair_orphaned_user_text_after_tool_use_no_result() {
    let mut conversation = vec![
        msg("assistant", vec![tool_use("toolu_lost", "Bash", r#"{"command":"ls"}"#)]),
        msg("user", vec![text("never mind, do something else")]),
    ];
    repair_orphaned_tool_uses(&mut conversation);
    assert_eq!(conversation.len(), 3);
    let repaired = &conversation[2];
    assert_eq!(repaired.content.len(), 1);
    if let ApiContentBlock::ToolResult { tool_use_id, .. } = &repaired.content[0] {
        assert_eq!(tool_use_id, "toolu_lost");
    } else {
        panic!("expected ToolResult");
    }
}

#[test]
fn repair_orphaned_idempotent() {
    let mut conversation = vec![msg("assistant", vec![tool_use("toolu_idem", "Bash", r#"{"command":"ls"}"#)])];
    repair_orphaned_tool_uses(&mut conversation);
    assert_eq!(conversation.len(), 2);
    repair_orphaned_tool_uses(&mut conversation);
    assert_eq!(conversation.len(), 2);
}

#[test]
fn repair_orphaned_results_split_across_multiple_user_messages() {
    let mut conversation = vec![
        msg(
            "assistant",
            vec![
                tool_use("toolu_a", "Bash", r#"{"command":"ls"}"#),
                tool_use("toolu_b", "Read", r#"{"path":"/tmp/x"}"#),
            ],
        ),
        msg("user", vec![tool_result("toolu_a", "ok", Some("Bash"))]),
        msg("user", vec![tool_result("toolu_b", "file content", Some("Read"))]),
    ];
    let original_len = conversation.len();
    repair_orphaned_tool_uses(&mut conversation);
    assert_eq!(conversation.len(), original_len);
}

#[test]
fn repair_orphaned_with_thinking_blocks() {
    let mut conversation = vec![msg(
        "assistant",
        vec![
            ApiContentBlock::Thinking { thinking: "Let me think about this...".to_string() },
            text("I'll check that."),
            tool_use("toolu_think", "Bash", r#"{"command":"cat /etc/hosts"}"#),
        ],
    )];
    repair_orphaned_tool_uses(&mut conversation);
    assert_eq!(conversation.len(), 2);
    let repaired = &conversation[1];
    assert_eq!(repaired.content.len(), 1);
    if let ApiContentBlock::ToolResult { tool_use_id, is_error, .. } = &repaired.content[0] {
        assert_eq!(tool_use_id, "toolu_think");
        assert_eq!(*is_error, Some(true));
    } else {
        panic!("expected ToolResult");
    }
}

#[test]
fn repair_orphaned_earlier_assistant_with_tool_use_is_ignored() {
    let mut conversation = vec![
        msg("assistant", vec![tool_use("toolu_early", "Bash", r#"{"command":"ls"}"#)]),
        msg("user", vec![tool_result("toolu_early", "output", Some("Bash"))]),
        msg("assistant", vec![text("All done!")]),
    ];
    let original_len = conversation.len();
    repair_orphaned_tool_uses(&mut conversation);
    assert_eq!(conversation.len(), original_len);
}

use orion_agent_core::api::{ApiContentBlock, ApiMessage};
use orion_agent_core::compact::{
    build_summary_prompt, find_split_point, should_compact, splice_conversation,
    DEFAULT_MIN_KEEP_MESSAGES,
};

fn text_msg(role: &str, text: &str) -> ApiMessage {
    ApiMessage {
        role: role.to_string(),
        content: vec![ApiContentBlock::Text { text: text.to_string(), cache_control: None }],
    }
}

fn tool_use_msg() -> ApiMessage {
    ApiMessage {
        role: "assistant".to_string(),
        content: vec![
            ApiContentBlock::Text { text: "Let me check.".to_string(), cache_control: None },
            ApiContentBlock::ToolUse {
                id: "tu_1".to_string(),
                name: "Bash".to_string(),
                input: r#"{"command":"ls"}"#.to_string(),
            },
        ],
    }
}

fn tool_result_msg() -> ApiMessage {
    ApiMessage {
        role: "user".to_string(),
        content: vec![ApiContentBlock::ToolResult {
            tool_use_id: "tu_1".to_string(),
            content: serde_json::to_string("file1.rs\nfile2.rs").unwrap(),
            is_error: None,
            cache_control: None,
            name: None,
        }],
    }
}

fn alternating(n: usize, prefix: &str) -> Vec<ApiMessage> {
    (0..n)
        .map(|i| {
            let role = if i % 2 == 0 { "user" } else { "assistant" };
            text_msg(role, &format!("{prefix} {i}"))
        })
        .collect()
}

#[test]
fn test_should_compact_threshold() {
    assert!(!should_compact(150_000, 160_000));
    assert!(should_compact(170_000, 160_000));
    assert!(should_compact(160_001, 160_000));
    assert!(!should_compact(160_000, 160_000));
}

#[test]
fn test_find_split_point_preserves_recent() {
    let conv = alternating(10, "message");
    let split = find_split_point(&conv, DEFAULT_MIN_KEEP_MESSAGES);
    assert!(conv.len() - split >= DEFAULT_MIN_KEEP_MESSAGES);
    assert_eq!(split, 6);
}

#[test]
fn test_find_split_point_respects_tool_boundaries() {
    let conv = vec![
        text_msg("user", "hello"),
        text_msg("assistant", "hi"),
        text_msg("user", "do something"),
        tool_use_msg(),
        tool_result_msg(),
        text_msg("assistant", "done"),
        text_msg("user", "thanks"),
    ];
    let split = find_split_point(&conv, DEFAULT_MIN_KEEP_MESSAGES);
    assert_eq!(split, 3);
}

#[test]
fn test_find_split_point_moves_back_when_splitting_tool_cycle() {
    let conv = vec![
        text_msg("user", "start"),
        tool_use_msg(),
        tool_result_msg(),
        text_msg("assistant", "ok"),
        text_msg("user", "next"),
    ];
    let split = find_split_point(&conv, DEFAULT_MIN_KEEP_MESSAGES);
    assert_eq!(split, 1);

    let conv2 = vec![
        text_msg("user", "start"),
        text_msg("assistant", "ack"),
        tool_result_msg(),
        text_msg("assistant", "done"),
        text_msg("user", "q1"),
        text_msg("assistant", "a1"),
    ];
    let split2 = find_split_point(&conv2, DEFAULT_MIN_KEEP_MESSAGES);
    assert_eq!(split2, 2);
}

#[test]
fn test_find_split_point_too_short() {
    let conv = vec![
        text_msg("user", "hi"),
        text_msg("assistant", "hello"),
        text_msg("user", "bye"),
    ];
    assert_eq!(find_split_point(&conv, DEFAULT_MIN_KEEP_MESSAGES), 0);
}

#[test]
fn test_splice_conversation() {
    let mut conv = alternating(10, "msg");
    splice_conversation(&mut conv, 6, "Summary of messages 0-5");
    assert_eq!(conv.len(), 5);
    match &conv[0].content[0] {
        ApiContentBlock::Text { text, .. } => {
            assert!(text.contains("Summary of messages 0-5"));
            assert!(text.contains("[Previous conversation summary]"));
        }
        _ => panic!("Expected text block"),
    }
    match &conv[1].content[0] {
        ApiContentBlock::Text { text, .. } => assert_eq!(text, "msg 6"),
        _ => panic!("Expected text block"),
    }
}

#[test]
fn test_find_split_point_custom_min_keep() {
    let conv = alternating(10, "message");
    assert_eq!(find_split_point(&conv, 2), 8);
    assert_eq!(find_split_point(&conv, 6), 4);
    assert_eq!(find_split_point(&conv, 1), 9);
}

#[test]
fn test_build_summary_prompt_format() {
    let msgs = vec![
        text_msg("user", "Tell me about Rust"),
        text_msg("assistant", "Rust is a systems language."),
    ];
    let prompt = build_summary_prompt(&msgs);
    assert!(prompt.contains("Summarize the following"));
    assert!(prompt.contains("[user]"));
    assert!(prompt.contains("Tell me about Rust"));
    assert!(prompt.contains("[assistant]"));
    assert!(prompt.contains("Rust is a systems language."));
    assert!(prompt.contains("<conversation>"));
}

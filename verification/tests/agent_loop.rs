use orion_agent_core::agent_loop::{
    build_tool_definitions, select_tool_names, user_prompt_message, AgentLoop, ImageAttachment,
    LoopSettings, ToolRound, ToolUse, TurnOutcome,
};
use orion_agent_core::api::{ApiContentBlock, ApiUsage, MessageResponse, SystemBlock};
use orion_agent_core::executor::ToolResult;
use orion_agent_core::options::CustomToolDefinition;
use orion_agent_core::tool_defs::get_tool_definitions;

fn settings() -> LoopSettings {
    LoopSettings {
        session_id: "s1".into(),
        model: "model-x".into(),
        max_turns: Some(2),
        max_tokens: None,
        thinking: None,
        streaming: false,
        max_tool_result_bytes: Some(20),
        context_budget: None,
        min_keep_messages: None,
    }
}

fn new_loop() -> AgentLoop {
    let names: Vec<String> = vec!["Read".into(), "Bash".into()];
    let tools = build_tool_definitions(&names, &vec![]);
    let system = SystemBlock { kind: "text".into(), text: "sys".into(), cache_control: None };
    AgentLoop::new(settings(), system, tools, vec![user_prompt_message("hello", &vec![])])
}

fn response(content: Vec<ApiContentBlock>, input: u64, output: u64) -> MessageResponse {
    MessageResponse {
        id: "m".into(),
        role: "assistant".into(),
        content,
        model: "model-x".into(),
        stop_reason: None,
        usage: ApiUsage { input_tokens: input, output_tokens: output, cache_creation_input_tokens: Some(1), cache_read_input_tokens: None },
    }
}

#[test]
fn tool_selection() {
    assert!(select_tool_names(true, &vec!["Read".into()]).is_empty());
    assert_eq!(select_tool_names(false, &vec![]), vec!["Read", "Write", "Edit", "Bash", "Glob", "Grep"]);
    assert_eq!(select_tool_names(false, &vec!["Grep".into()]), vec!["Grep"]);
}

#[test]
fn only_last_tool_definition_is_cached() {
    let names: Vec<String> = vec!["Read".into(), "Nope".into(), "Bash".into()];
    let custom = vec![CustomToolDefinition { name: "Mine".into(), description: "d".into(), input_schema: "{}".into() }];
    let defs = build_tool_definitions(&names, &custom);
    let got: Vec<&str> = defs.iter().map(|d| d.name.as_str()).collect();
    assert_eq!(got, vec!["Read", "Bash", "Mine"]);
    assert!(defs[0].cache_control.is_none());
    assert!(defs[1].cache_control.is_none());
    assert_eq!(defs[2].cache_control.as_ref().unwrap().kind, "ephemeral");
    assert_eq!(get_tool_definitions(&names).len(), 2);
}

#[test]
fn prompt_message_keeps_images_then_text() {
    let atts = vec![
        ImageAttachment { mime_type: "image/png".into(), base64_data: "AAAA".into() },
        ImageAttachment { mime_type: "application/pdf".into(), base64_data: "BBBB".into() },
    ];
    let m = user_prompt_message("look", &atts);
    assert_eq!(m.role, "user");
    assert_eq!(m.content.len(), 2);
    assert!(matches!(&m.content[0], ApiContentBlock::Image { source } if source.media_type == "image/png" && source.data == "AAAA"));
    assert!(matches!(&m.content[1], ApiContentBlock::Text { text, .. } if text == "look"));
}

#[test]
fn a_tool_round_then_a_final_answer() {
    let mut l = new_loop();
    let req = l.next_request();
    assert_eq!(req.model, "model-x");
    assert_eq!(req.tools.as_ref().unwrap().len(), 2);
    assert_eq!(req.system.as_ref().unwrap()[0].text, "sys");

    let out = l.record_response(
        response(
            vec![
                ApiContentBlock::Text { text: "checking".into(), cache_control: None },
                ApiContentBlock::ToolUse { id: "t1".into(), name: "Bash".into(), input: "{}".into() },
                ApiContentBlock::ToolUse { id: "t2".into(), name: "Fly".into(), input: "{}".into() },
            ],
            10,
            5,
        ),
    );
    let uses = match out {
        TurnOutcome::ToolCalls { uses } => uses,
        o => panic!("unexpected {:?}", o),
    };
    assert_eq!(uses.len(), 2);
    assert_eq!(l.num_turns, 1);
    assert!(l.screen_tool_use(&uses[0]).is_none());
    let mut round = ToolRound::new(uses.clone());
    let unknown = l.screen_tool_use(&uses[1]).unwrap();
    assert!(round.accepts(1, &unknown));
    assert!(!round.accepts(0, &unknown));
    round.answer(1, unknown.clone());
    assert!(!round.accepts(1, &unknown));
    assert!(!round.is_complete());
    match unknown {
        ApiContentBlock::ToolResult { tool_use_id, content, is_error, .. } => {
            assert_eq!(tool_use_id, "t2");
            assert_eq!(is_error, Some(true));
            let text: String = serde_json::from_str(&content).unwrap();
            assert_eq!(text, "Error: 'Fly' is not a valid tool. You MUST use one of the following tools: Read, Bash");
        }
        b => panic!("unexpected {:?}", b),
    }
    let denied = l.deny_tool(&uses[0], "not allowed");
    assert_eq!(l.denials.len(), 1);
    match &denied {
        ApiContentBlock::ToolResult { content, .. } => {
            assert_eq!(serde_json::from_str::<String>(content).unwrap(), "Permission denied: not allowed");
        }
        b => panic!("unexpected {:?}", b),
    }
    let (block, clean) = l.tool_result_block("t1", "Bash", ToolResult::ok("0123456789abcdefghijXYZ".into()));
    assert_eq!(clean, "0123456789abcdefghij\n[Output truncated at 20 bytes, 23 total]");
    assert!(matches!(&block, ApiContentBlock::ToolResult { is_error: None, .. }));
    assert!(round.accepts(0, &denied));
    assert!(round.accepts(0, &block));
    round.answer(0, block);
    assert!(!round.accepts(0, &denied));
    assert!(round.is_complete());
    l.finish_tool_round(round);
    match &l.conversation[2].content[..] {
        [ApiContentBlock::ToolResult { tool_use_id: a, .. }, ApiContentBlock::ToolResult { tool_use_id: b, .. }] => {
            assert_eq!((a.as_str(), b.as_str()), ("t2", "t1"));
        }
        c => panic!("unexpected {:?}", c),
    }
    assert_eq!(l.conversation.len(), 3);
    assert_eq!(l.conversation[2].role, "user");
    assert!(!l.turn_limit_reached());

    let out = l.record_response(response(vec![ApiContentBlock::Text { text: "done".into(), cache_control: None }], 7, 3));
    assert!(matches!(out, TurnOutcome::Finished { text } if text == "done"));
    assert_eq!(l.usage.input_tokens, 17);
    assert_eq!(l.usage.output_tokens, 8);
    assert_eq!(l.usage.cache_creation_input_tokens, 2);
}

#[test]
fn followups_join_into_one_user_message() {
    let mut l = new_loop();
    assert!(l.inject_followups(&vec![]).is_none());
    let t = l.inject_followups(&vec!["a".into(), "b".into()]).unwrap();
    assert_eq!(t, "a\n\nb");
    assert_eq!(l.conversation.len(), 2);
}

#[test]
fn turn_limit() {
    let mut l = new_loop();
    for _ in 0..2 {
        l.record_response(response(vec![ApiContentBlock::ToolUse { id: "t".into(), name: "Bash".into(), input: "{}".into() }], 1, 1));
    }
    assert!(l.turn_limit_reached());
}

#[test]
fn tool_use_struct_is_plain() {
    let u = ToolUse { id: "a".into(), name: "b".into(), input: "{}".into() };
    assert_eq!(u.name, "b");
}

#[test]
fn denial_text_is_escaped_as_json() {
    let mut l = new_loop();
    let u = ToolUse { id: "x".into(), name: "Bash".into(), input: "{}".into() };
    match l.deny_tool(&u, "say \"hi\"\n\u{1}\\") {
        ApiContentBlock::ToolResult { content, .. } => {
            assert_eq!(content, "\"Permission denied: say \\\"hi\\\"\\n\\u0001\\\\\"");
        }
        b => panic!("unexpected {:?}", b),
    }
}

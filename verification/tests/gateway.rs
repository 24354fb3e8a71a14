use orion_agent_core::config::FollowupMode;
use orion_agent_core::gateway::{
    check_api_key, decode_json_string_pub, tool_result_preview, try_tool_result_preview,
    ws_token_ok, ClientAction, ClientChat, ServerEvent, StreamRelay, WsConnection, INVALID_API_KEY,
};
use orion_agent_core::messages::ContentBlock;

fn chat(text: &str) -> ClientChat {
    ClientChat { text: text.into(), user_id: Some("u1".into()), channel_id: None, channel_session_key: None }
}

#[test]
fn api_key_checks() {
    assert!(check_api_key(None, None).is_ok());
    assert!(check_api_key(Some("k"), Some("k")).is_ok());
    let e = check_api_key(Some("k"), Some("x")).unwrap_err();
    assert_eq!(e.status, 401);
    assert_eq!(e.error, INVALID_API_KEY);
    assert!(check_api_key(Some("k"), None).is_err());
    assert!(ws_token_ok(None, None));
    assert!(ws_token_ok(Some("k"), Some("k")));
    assert!(!ws_token_ok(Some("k"), None));
}

#[test]
fn first_message_starts_stream_on_main_channel() {
    let mut c = WsConnection::new(FollowupMode::Inject);
    match c.on_client_message(chat("hi")) {
        ClientAction::Start { message } => {
            assert_eq!(message.text, "hi");
            assert_eq!(message.channel_id.as_deref(), Some("main"));
        }
        a => panic!("unexpected {:?}", a),
    }
    assert!(c.streaming);
    assert!(matches!(c.on_client_message(chat("more")), ClientAction::Inject { text } if text == "more"));
}

#[test]
fn queued_messages_replay_as_one() {
    let mut c = WsConnection::new(FollowupMode::Queue);
    c.on_client_message(chat("first"));
    assert!(matches!(c.on_client_message(chat("a")), ClientAction::Queued));
    assert!(matches!(c.on_client_message(chat("b")), ClientAction::Queued));
    assert!(c.take_queued().is_none());
    c.on_stream_end();
    let batch = c.take_queued().unwrap();
    assert_eq!(batch.message.text, "a\n\nb");
    assert_eq!(batch.message.user_id.as_deref(), Some("u1"));
    assert!(c.streaming);
    assert!(c.queued.is_empty());
}

#[test]
fn tool_result_previews() {
    assert_eq!(tool_result_preview("\"short\""), "short");
    assert_eq!(tool_result_preview("{\"a\":1}"), "{\"a\":1}");
    let long = serde_json::to_string(&"y".repeat(600)).unwrap();
    assert_eq!(tool_result_preview(&long), format!("{}...", "y".repeat(500)));
    assert_eq!(try_tool_result_preview("\"ok\""), Some("ok".to_string()));
    let cut = serde_json::to_string(&format!("{}\u{e9}{}", "y".repeat(499), "z".repeat(10))).unwrap();
    assert_eq!(try_tool_result_preview(&cut), None);
}

#[test]
fn json_strings_decode() {
    assert_eq!(decode_json_string_pub("\"a\\nb\""), Some("a\nb".to_string()));
    assert_eq!(decode_json_string_pub("42"), None);
}

#[test]
fn relay_forwards_text_and_tool_uses() {
    let mut r = StreamRelay::new();
    let events = r.on_assistant(&vec![
        ContentBlock::Text { text: "Hello".into() },
        ContentBlock::Text { text: String::new() },
        ContentBlock::ToolUse { id: "t".into(), name: "Bash".into(), input: "{}".into() },
        ContentBlock::Text { text: "World".into() },
    ]);
    assert_eq!(events.len(), 3);
    assert!(matches!(&events[0], ServerEvent::TextDelta { text } if text == "Hello"));
    assert!(matches!(&events[1], ServerEvent::ToolUse { name, .. } if name == "Bash"));
    assert_eq!(r.reply(), "Hello\nWorld");
    let end = r.on_result("s1", Some("ignored".into()), 2, 10, 20, false, vec![]);
    assert!(matches!(end, ServerEvent::StreamEnd { num_turns: 2, .. }));
    assert_eq!(r.reply(), "Hello\nWorld");
}

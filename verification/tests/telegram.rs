use orion_agent_core::telegram::{
    escape_md, route_message, split_message, truncate_for_telegram, try_split_message,
    TelegramAction, MAX_MSG_LEN, UNAUTHORIZED_REPLY,
};

#[test]
fn test_split_message_short() {
    let chunks = split_message("Hello world", 4096);
    assert_eq!(chunks, vec!["Hello world"]);
}

#[test]
fn test_split_message_long() {
    let line = "x".repeat(100);
    let text: String = (0..50).map(|_| line.as_str()).collect::<Vec<_>>().join("\n");
    let chunks = split_message(&text, 4096);
    assert!(chunks.len() > 1);
    for chunk in &chunks {
        assert!(chunk.len() <= 4096);
    }
}

#[test]
fn test_split_message_no_newlines() {
    let text = "x".repeat(5000);
    let chunks = split_message(&text, 4096);
    assert_eq!(chunks.len(), 2);
    assert_eq!(chunks[0].len(), 4096);
    assert_eq!(chunks[1].len(), 904);
}

#[test]
fn test_escape_md() {
    assert_eq!(escape_md("hello.world!"), "hello\\.world\\!");
    assert_eq!(escape_md("no specials"), "no specials");
}

#[test]
fn escape_md_escapes_every_special_character() {
    assert_eq!(escape_md("_*[]()~`>#+-=|{}.!"), "\\_\\*\\[\\]\\(\\)\\~\\`\\>\\#\\+\\-\\=\\|\\{\\}\\.\\!");
}

#[test]
fn split_message_breaks_after_last_newline_within_limit() {
    let text = "aaaa\nbbbb\ncc";
    let chunks = split_message(text, 10);
    assert_eq!(chunks, vec!["aaaa\nbbbb", "cc"]);
}

#[test]
fn split_message_chunks_join_back_to_text_without_newlines() {
    let text = "x".repeat(10000);
    let chunks = split_message(&text, 4096);
    assert_eq!(chunks.concat(), text);
}

#[test]
fn try_split_message_refuses_cut_inside_character() {
    let text = "\u{e9}".repeat(5);
    assert!(try_split_message(&text, 3).is_none());
    assert_eq!(try_split_message(&text, 4).unwrap(), vec!["\u{e9}\u{e9}", "\u{e9}\u{e9}", "\u{e9}"]);
}

#[test]
fn truncate_for_telegram_keeps_short_text() {
    assert_eq!(truncate_for_telegram("short"), "short");
}

#[test]
fn truncate_for_telegram_cuts_long_text() {
    let text = "y".repeat(5000);
    let r = truncate_for_telegram(&text);
    assert_eq!(r.len(), MAX_MSG_LEN);
    assert!(r.ends_with("..."));
    assert_eq!(&r[..4093], &text[..4093]);
}

#[test]
fn route_message_start_greets_with_user_id() {
    match route_message(Some("/start"), Some(42), &vec![], "final_only", "Orion") {
        TelegramAction::Greet { markdown, plain } => {
            assert!(markdown.starts_with("Hello\\! I'm Orion, your personal AI assistant\\."));
            assert!(markdown.contains("Your user ID: `42`"));
            assert!(plain.starts_with("Hello! I'm Orion, your personal AI assistant.\n\nYour user ID: 42"));
        }
        _ => panic!("expected a greeting"),
    }
}

#[test]
fn route_message_rejects_unknown_user() {
    match route_message(Some("hi"), Some(7), &vec![1, 2], "final_only", "Orion") {
        TelegramAction::Reject { text } => assert_eq!(text, UNAUTHORIZED_REPLY),
        _ => panic!("expected a rejection"),
    }
}

#[test]
fn route_message_follows_stream_mode() {
    assert!(matches!(route_message(Some("hi"), Some(1), &vec![1], "edit_in_place", "O"), TelegramAction::Stream));
    assert!(matches!(route_message(Some("hi"), Some(1), &vec![1], "final_only", "O"), TelegramAction::Blocking));
    assert!(matches!(route_message(None, Some(1), &vec![1], "final_only", "O"), TelegramAction::Ignore));
}

use orion_agent_core::session::{
    encode_path, message_page, order_sessions, session_metadata, session_summary, BlockFields,
    ContentField, LineKind, Session, SessionInfo, TranscriptEntry,
};

#[test]
fn test_transcript_path_encoding() {
    let session = Session::with_id("abc-123".into(), "/home/user/my project".into());
    let path_str = session.transcript_path_in("/root/.config/projects");
    assert!(path_str.contains("-home-user-my-project"));
    assert!(path_str.ends_with("abc-123.jsonl"));
    assert_eq!(path_str, "/root/.config/projects/-home-user-my-project/abc-123.jsonl");
}

#[test]
fn encode_path_replaces_non_alphanumerics() {
    assert_eq!(encode_path("/a_b.c/d\u{e9}"), "-a-b-c-d\u{e9}");
}

#[test]
fn new_sessions_get_distinct_ids() {
    let a = Session::new("/w".into());
    let b = Session::new("/w".into());
    assert_ne!(a.id, b.id);
    assert_eq!(a.id.len(), 36);
    assert!(a.messages.is_empty());
}

fn info(id: &str, modified: u64) -> SessionInfo {
    SessionInfo {
        session_id: id.into(),
        summary: String::new(),
        last_modified: modified,
        file_size: 0,
        custom_title: None,
        first_prompt: None,
        git_branch: None,
        cwd: None,
    }
}

#[test]
fn sessions_are_listed_newest_first() {
    let r = order_sessions(vec![info("a", 1), info("b", 3), info("c", 2)], Some(2));
    let ids: Vec<&str> = r.iter().map(|s| s.session_id.as_str()).collect();
    assert_eq!(ids, vec!["b", "c"]);
}

#[test]
fn summary_prefers_custom_title() {
    assert_eq!(session_summary(&Some("Title".into()), &Some("prompt".into())), "Title");
    assert_eq!(session_summary(&None, &Some("prompt".into())), "prompt");
    assert_eq!(session_summary(&None, &None), "(empty session)");
}

fn user(content: ContentField) -> Option<TranscriptEntry> {
    Some(TranscriptEntry { custom_title: None, custom_title_snake: None, entry_type: Some("user".into()), content: Some(content) })
}

#[test]
fn metadata_reads_first_prompt_from_blocks() {
    let blocks = vec![
        BlockFields { kind: Some("text".into()), text: Some("first".into()) },
        BlockFields { kind: Some("image".into()), text: Some("skip".into()) },
        BlockFields { kind: Some("text".into()), text: Some("prompt".into()) },
    ];
    let lines = vec![None, user(ContentField::Blocks(blocks)), user(ContentField::Text("later".into()))];
    assert_eq!(session_metadata(&lines), Some((Some("first prompt".to_string()), None)));
}

#[test]
fn metadata_prefers_snake_case_title_and_stops_early() {
    let titled = Some(TranscriptEntry {
        custom_title: Some("Camel".into()),
        custom_title_snake: Some("snake".into()),
        entry_type: Some("summary".into()),
        content: None,
    });
    let lines = vec![user(ContentField::Text("hello".into())), titled];
    assert_eq!(session_metadata(&lines), Some((Some("hello".to_string()), Some("snake".to_string()))));
}

#[test]
fn metadata_cuts_long_prompts_and_reads_fifty_lines() {
    let long = "p".repeat(250);
    let lines = vec![user(ContentField::Text(long))];
    assert_eq!(session_metadata(&lines).unwrap().0, Some(format!("{}...", "p".repeat(200))));
    let mut many: Vec<Option<TranscriptEntry>> = (0..50).map(|_| None).collect();
    many.push(user(ContentField::Text("too late".into())));
    assert_eq!(session_metadata(&many), Some((None, None)));
    let straddling = format!("{}\u{e9}", "p".repeat(199));
    assert_eq!(session_metadata(&vec![user(ContentField::Text(straddling + "tail"))]), None);
}

#[test]
fn message_page_skips_and_limits() {
    let kinds = vec![LineKind::Message; 10];
    assert_eq!(message_page(&kinds, 0, None).len(), 10);
    assert_eq!(message_page(&kinds, 2, Some(3)), vec![2, 3, 4]);
    let mixed = vec![LineKind::Blank, LineKind::Message, LineKind::Malformed, LineKind::Message, LineKind::Message];
    assert_eq!(message_page(&mixed, 1, Some(2)), vec![3, 4]);
    assert_eq!(message_page(&mixed, 0, Some(2)), vec![1, 3]);
    assert!(message_page(&vec![LineKind::Blank, LineKind::Message], 1, None).is_empty());
}

#[test]
fn new_session_ids_are_v4_uuids() {
    let s = Session::new("/tmp/project".to_string());
    let id: Vec<char> = s.id.chars().collect();
    assert_eq!(id.len(), 36);
    for (i, c) in id.iter().enumerate() {
        if i == 8 || i == 13 || i == 18 || i == 23 {
            assert_eq!(*c, '-');
        } else {
            assert!(c.is_ascii_hexdigit() && !c.is_ascii_uppercase());
        }
    }
    assert_eq!(id[14], '4');
    assert!(matches!(id[19], '8' | '9' | 'a' | 'b'));
    assert_ne!(Session::new("/tmp/project".to_string()).id, s.id);
}

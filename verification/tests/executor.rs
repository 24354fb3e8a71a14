use base64::Engine;
use orion_agent_core::executor::{
    apply_offset_limit, bash_result, edit_message, extensions_for_type, format_read_output,
    grep_file_content, image_tool_result, media_type_for_path, plan_edit, split_lines, EditOutcome,
    ToolExecutor, ToolResult,
};

#[test]
fn tool_result_ok_has_no_raw_content() {
    let r = ToolResult::ok("hello".into());
    assert!(!r.is_error);
    assert!(r.raw_content.is_none());
}

#[test]
fn tool_result_err_has_no_raw_content() {
    let r = ToolResult::err("boom".into());
    assert!(r.is_error);
    assert!(r.raw_content.is_none());
}

#[test]
fn read_text_lines_are_numbered() {
    let lines = split_lines("line one\nline two\nline three\n");
    let out = format_read_output(&lines, 0, None);
    assert_eq!(out, "1\tline one\n2\tline two\n3\tline three\n");
}

#[test]
fn read_with_offset_and_limit_selects_lines() {
    let lines = split_lines("a\nb\nc\nd\ne\n");
    let out = format_read_output(&lines, 1, Some(2));
    assert_eq!(out, "2\tb\n3\tc\n");
    assert!(!out.contains('a'));
    assert!(!out.contains('d'));
}

#[test]
fn read_offset_past_end_is_empty() {
    let lines = split_lines("a\nb\n");
    assert_eq!(format_read_output(&lines, 5, None), "");
}

#[test]
fn read_numbers_are_right_aligned_to_widest() {
    let text: String = (1..=10).map(|i| format!("l{}\n", i)).collect();
    let lines = split_lines(&text);
    let out = format_read_output(&lines, 7, None);
    assert_eq!(out, " 8\tl8\n 9\tl9\n10\tl10\n");
}

#[test]
fn split_lines_drops_carriage_returns() {
    assert_eq!(split_lines("x\r\ny"), vec!["x", "y"]);
    assert!(split_lines("").is_empty());
}

#[test]
fn media_types_by_extension() {
    assert_eq!(media_type_for_path("/t/test.png"), Some("image/png"));
    assert_eq!(media_type_for_path("/t/photo.jpg"), Some("image/jpeg"));
    assert_eq!(media_type_for_path("/t/photo.JPEG"), Some("image/jpeg"));
    assert_eq!(media_type_for_path("/t/anim.gif"), Some("image/gif"));
    assert_eq!(media_type_for_path("/t/img.webp"), Some("image/webp"));
    assert_eq!(media_type_for_path("/t/data.csv"), None);
    assert_eq!(media_type_for_path("/t/noext"), None);
}

#[test]
fn image_result_carries_base64_block() {
    let png_bytes = b"\x89PNG\r\n\x1a\nfake-png-payload";
    let r = image_tool_result("/t/test.png", "image/png", png_bytes);
    assert!(!r.is_error);
    assert_eq!(r.content, "Image: /t/test.png");
    let blocks: serde_json::Value = serde_json::from_str(r.raw_content.as_ref().unwrap()).unwrap();
    let block = &blocks[0];
    assert_eq!(block["type"], "image");
    assert_eq!(block["source"]["type"], "base64");
    assert_eq!(block["source"]["media_type"], "image/png");
    let data = block["source"]["data"].as_str().unwrap();
    let decoded = base64::engine::general_purpose::STANDARD.decode(data).unwrap();
    assert_eq!(decoded, png_bytes);
}

#[test]
fn edit_replaces_single_occurrence() {
    match plan_edit("fn a() {}\nfn b() {}\n", "fn b", "fn c", false) {
        EditOutcome::Replaced { new_content, count } => {
            assert_eq!(new_content, "fn a() {}\nfn c() {}\n");
            assert_eq!(count, 1);
        }
        _ => panic!("expected a replacement"),
    }
}

#[test]
fn edit_refuses_ambiguous_and_missing() {
    let ambiguous = plan_edit("x x x", "x", "y", false);
    assert!(matches!(ambiguous, EditOutcome::Ambiguous { count: 3 }));
    let r = edit_message(&ambiguous, "f.txt", false);
    assert!(r.is_error);
    assert_eq!(
        r.content,
        "old_string found 3 times in f.txt. Provide more surrounding context to make it unique, or set replace_all to true."
    );
    let missing = plan_edit("abc", "z", "y", false);
    assert!(matches!(missing, EditOutcome::NotFound));
    assert_eq!(
        edit_message(&missing, "f.txt", false).content,
        "old_string not found in f.txt. Make sure it matches exactly, including whitespace and indentation."
    );
}

#[test]
fn edit_replace_all() {
    let outcome = plan_edit("x x x", "x", "yy", true);
    match &outcome {
        EditOutcome::Replaced { new_content, count } => {
            assert_eq!(new_content, "yy yy yy");
            assert_eq!(*count, 3);
        }
        _ => panic!("expected a replacement"),
    }
    assert_eq!(edit_message(&outcome, "f.txt", true).content, "Successfully edited f.txt (3 replacement(s))");
}

#[test]
fn bash_output_combines_streams() {
    assert_eq!(bash_result("out", "err", true, Some(0)).content, "out\nerr");
    let failed = bash_result("", "", false, Some(2));
    assert!(failed.is_error);
    assert_eq!(failed.content, "Process exited with code 2");
    assert_eq!(bash_result("", "", false, None).content, "Process exited with code -1");
}

#[test]
fn offset_and_head_limit() {
    let items: Vec<String> = ["a", "b", "c", "d"].iter().map(|s| s.to_string()).collect();
    assert_eq!(apply_offset_limit(items.clone(), 1, 2), vec!["b", "c"]);
    assert_eq!(apply_offset_limit(items.clone(), 1, 0), vec!["b", "c", "d"]);
    assert!(apply_offset_limit(items, 9, 1).is_empty());
}

#[test]
fn file_types_map_to_extensions() {
    assert_eq!(extensions_for_type("rust"), Some(vec!["rs"]));
    assert_eq!(extensions_for_type("nonesuch"), None);
}

#[test]
fn grep_content_groups_context_lines() {
    let lines: Vec<String> = ["a", "hit", "b", "c", "d", "hit2"].iter().map(|s| s.to_string()).collect();
    let matches = vec![false, true, false, false, false, true];
    let out = grep_file_content("f", &lines, &matches, 1, 0, true);
    assert_eq!(out, vec!["f-1-a", "f:2:hit", "--", "f-5-d", "f:6:hit2"]);
    let plain = grep_file_content("f", &lines, &matches, 0, 0, false);
    assert_eq!(plain, vec!["f:hit", "--", "f:hit2"]);
}

#[test]
fn resolve_path_joins_relative_paths() {
    let e = ToolExecutor::new("/work".into());
    assert_eq!(e.resolve_path("/abs/x"), "/abs/x");
    assert_eq!(e.resolve_path("rel/y"), "/work/rel/y");
}

#[test]
fn image_result_data_is_exact_base64() {
    let r = image_tool_result("/t/a.gif", "image/gif", b"Man Ma M");
    assert_eq!(
        r.raw_content.unwrap(),
        "[{\"source\":{\"data\":\"TWFuIE1hIE0=\",\"media_type\":\"image/gif\",\"type\":\"base64\"},\"type\":\"image\"}]"
    );
}

#[test]
fn image_result_base64_of_high_bytes() {
    let r = image_tool_result("/x.png", "image/png", &[255u8, 254, 63, 77]);
    assert!(r.raw_content.unwrap().contains("\"data\":\"//4/TQ==\""));
}

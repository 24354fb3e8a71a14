use orion_agent_core::sanitize::{sanitize_tool_result, DEFAULT_MAX_TOOL_RESULT_BYTES};

#[test]
fn passthrough_normal_content() {
    let input = "Hello, this is a normal tool result.";
    assert_eq!(
        sanitize_tool_result(input, DEFAULT_MAX_TOOL_RESULT_BYTES),
        input
    );
}

#[test]
fn strip_base64_data_uri() {
    let payload = "A".repeat(300);
    let input = format!("Before data:image/png;base64,{} After", payload);
    let result = sanitize_tool_result(&input, DEFAULT_MAX_TOOL_RESULT_BYTES);
    assert!(result.contains("[data URI removed,"));
    assert!(result.contains("After"));
    assert!(!result.contains(&payload));
}

#[test]
fn preserve_short_base64_data_uri() {
    let input = "data:image/png;base64,iVBOR short one";
    let result = sanitize_tool_result(input, DEFAULT_MAX_TOOL_RESULT_BYTES);
    assert_eq!(result, input);
}

#[test]
fn strip_hex_blob() {
    let hex = "a".repeat(300);
    let input = format!("Result: 0x{} end", hex);
    let result = sanitize_tool_result(&input, DEFAULT_MAX_TOOL_RESULT_BYTES);
    assert!(result.contains("[hex blob removed,"));
    assert!(result.contains("end"));
    assert!(!result.contains(&hex));
}

#[test]
fn preserve_short_hex() {
    let input = "Hash: 0xdeadbeef";
    let result = sanitize_tool_result(input, DEFAULT_MAX_TOOL_RESULT_BYTES);
    assert_eq!(result, input);
}

#[test]
fn hard_truncate_at_byte_limit() {
    let input = "x".repeat(100);
    let result = sanitize_tool_result(&input, 50);
    assert!(result.starts_with(&"x".repeat(50)));
    assert!(result.contains("[Output truncated at 50 bytes"));
}

#[test]
fn truncate_respects_char_boundary() {
    // 10 emoji (4 bytes each = 40 bytes total)
    let input = "🎉".repeat(10);
    let result = sanitize_tool_result(&input, 17);
    // Should truncate to 4 full emoji (16 bytes), not split mid-char
    assert!(result.starts_with("🎉🎉🎉🎉"));
    assert!(result.contains("[Output truncated"));
}

#[test]
fn strip_multiple_blobs() {
    let b64 = "B".repeat(250);
    let hex = "f".repeat(250);
    let input = format!("data:text/plain;base64,{} middle {} end", b64, hex);
    let result = sanitize_tool_result(&input, DEFAULT_MAX_TOOL_RESULT_BYTES);
    assert!(result.contains("[data URI removed,"));
    assert!(result.contains("[hex blob removed,"));
    assert!(result.contains("middle"));
    assert!(result.contains("end"));
}

#[test]
fn strip_base64_only_content() {
    let payload = "A".repeat(500);
    let input = format!("data:image/png;base64,{}", payload);
    let result = sanitize_tool_result(&input, DEFAULT_MAX_TOOL_RESULT_BYTES);
    assert!(result.contains("[data URI removed,"));
    assert!(!result.contains(&payload));
}

#[test]
fn strip_adjacent_base64_and_hex() {
    let b64 = "C".repeat(300);
    let hex = "a".repeat(300);
    // Separated by a space so the regex doesn't merge them
    let input = format!("data:image/png;base64,{} 0x{}", b64, hex);
    let result = sanitize_tool_result(&input, DEFAULT_MAX_TOOL_RESULT_BYTES);
    assert!(result.contains("[data URI removed,"));
    assert!(result.contains("[hex blob removed,"));
    assert!(!result.contains(&b64));
    assert!(!result.contains(&hex));
}

#[test]
fn passthrough_empty_content() {
    assert_eq!(sanitize_tool_result("", DEFAULT_MAX_TOOL_RESULT_BYTES), "");
}

#[test]
fn base64_placeholder_gives_payload_size() {
    let payload = "A".repeat(300);
    let input = format!("x data:image/png;base64,{} y", payload);
    let result = sanitize_tool_result(&input, DEFAULT_MAX_TOOL_RESULT_BYTES);
    assert_eq!(result, format!("x [data URI removed, {} bytes] y", 22 + 300));
}

#[test]
fn hex_placeholder_gives_blob_length() {
    let hex = "0123456789abcdef".repeat(20);
    let input = format!("0x{}", hex);
    let result = sanitize_tool_result(&input, DEFAULT_MAX_TOOL_RESULT_BYTES);
    assert_eq!(result, format!("[hex blob removed, {} chars]", 2 + 320));
}

#[test]
fn truncation_notice_gives_boundary_and_total() {
    let input = "\u{e9}".repeat(10);
    let result = sanitize_tool_result(&input, 5);
    assert_eq!(result, format!("{}\n[Output truncated at 4 bytes, 20 total]", "\u{e9}".repeat(2)));
}

use orion_agent_core::text::sort_texts;
use orion_agent_core::catalog::{
    best_fuzzy_match, detail_from_model_info, fuzzy_lookup, make_key, models_for_provider,
    ollama_base_url, ModelInfoEntry, DEFAULT_CONTEXT_LENGTH, DEFAULT_OLLAMA_URL,
};

fn num(key: &str, n: u64) -> ModelInfoEntry {
    ModelInfoEntry { key: key.to_string(), as_u64: Some(n), as_str: None }
}

fn text(key: &str, s: &str) -> ModelInfoEntry {
    ModelInfoEntry { key: key.to_string(), as_u64: None, as_str: Some(s.to_string()) }
}

fn strings(v: &[&str]) -> Vec<String> {
    v.iter().map(|s| s.to_string()).collect()
}

#[test]
fn strips_openai_suffix_from_base_url() {
    assert_eq!(ollama_base_url("http://localhost:11434/v1/chat/completions"), "http://localhost:11434");
}

#[test]
fn strips_trailing_slash() {
    assert_eq!(ollama_base_url("http://localhost:11434/"), "http://localhost:11434");
}

#[test]
fn default_url_is_localhost() {
    assert_eq!(ollama_base_url(DEFAULT_OLLAMA_URL), "http://localhost:11434");
}

#[test]
fn custom_base_url_preserved() {
    assert_eq!(ollama_base_url("http://192.168.1.100:11434"), "http://192.168.1.100:11434");
}

#[test]
fn parse_show_response_extracts_context_and_vision() {
    let entries = vec![
        text("general.architecture", "qwen35"),
        num("qwen35.context_length", 262144),
        num("qwen35.vision.block_count", 27),
    ];
    let d = detail_from_model_info(&entries);
    assert_eq!(d.context_length, 262_144);
    assert!(d.supports_vision);
    assert_eq!(d.family, "qwen35");
}

#[test]
fn parse_show_response_no_vision() {
    let entries = vec![text("general.architecture", "llama"), num("llama.context_length", 131072)];
    assert!(!detail_from_model_info(&entries).supports_vision);
}

#[test]
fn parse_show_response_vision_block_count_zero() {
    let entries = vec![
        text("general.architecture", "llama"),
        num("llama.context_length", 131072),
        num("llama.vision.block_count", 0),
    ];
    assert!(!detail_from_model_info(&entries).supports_vision);
}

#[test]
fn model_info_defaults_when_missing() {
    let d = detail_from_model_info(&vec![]);
    assert_eq!(d.context_length, DEFAULT_CONTEXT_LENGTH);
    assert!(!d.supports_vision);
    assert_eq!(d.family, "unknown");
    let d = detail_from_model_info(&vec![text("x.context_length", "big")]);
    assert_eq!(d.context_length, DEFAULT_CONTEXT_LENGTH);
}

#[test]
fn catalog_key_joins_provider_and_model() {
    assert_eq!(make_key("openai", "gpt-4.1"), "openai::gpt-4.1");
}

#[test]
fn fuzzy_match_picks_most_specific() {
    let names = strings(&["sonnet", "sonnet-4-5"]);
    assert_eq!(best_fuzzy_match("sonnet-4-5-20250514", &names), Some(1));
    assert_eq!(best_fuzzy_match("haiku", &names), None);
}

#[test]
fn fuzzy_match_either_direction() {
    let names = strings(&["gpt-4.1-mini-2025"]);
    assert_eq!(best_fuzzy_match("gpt-4.1-mini", &names), Some(0));
}

#[test]
fn fuzzy_lookup_prefers_exact_key_and_stays_in_provider() {
    let keys = strings(&["test::sonnet", "other::sonnet-4-5-long", "test::sonnet-4-5", "test::sonnet-4-5-20250514"]);
    assert_eq!(fuzzy_lookup("test", "sonnet-4-5-20250514", &keys), Some(3));
    assert_eq!(fuzzy_lookup("test", "sonnet-4-5-2026", &keys), Some(2));
    assert_eq!(fuzzy_lookup("other", "sonnet", &keys), Some(1));
    assert_eq!(fuzzy_lookup("none", "sonnet", &keys), None);
}

#[test]
fn models_for_provider_lists_sorted() {
    let keys = strings(&["a::zeta", "b::alpha", "a::beta", "a::alpha"]);
    assert_eq!(models_for_provider("a", &keys), vec!["alpha", "beta", "zeta"]);
    assert!(models_for_provider("c", &keys).is_empty());
}

#[test]
fn sort_texts_orders_by_bytes() {
    let v = strings(&["openai", "anthropic", "Zed", "groq", "\u{e9}t\u{e9}", "anthropic"]);
    let mut expected = v.clone();
    expected.sort();
    assert_eq!(sort_texts(v), expected);
}

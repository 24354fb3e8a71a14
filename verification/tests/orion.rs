use orion_agent_core::executor::ToolResult;
use orion_agent_core::orion::{
    allowed_tools, build_system_prompt, custom_tool_definitions, custom_tool_result,
    daily_log_entry, derive_vault_key, plan_custom_tool, truncate_text, CustomToolArgs,
    CustomToolCall, ReplyCollector, StoreOutcome, DEFAULT_VAULT_SEED,
};
use orion_agent_core::cron::Schedule;
use orion_agent_core::messages::ContentBlock;

fn no_args() -> CustomToolArgs {
    CustomToolArgs {
        query: None,
        limit: None,
        file: None,
        content: None,
        text: None,
        key: None,
        value: None,
        name: None,
        prompt: None,
        schedule_kind: None,
        schedule_at: None,
        schedule_every_ms: None,
        schedule_expr: None,
        delete_after_run: None,
    }
}

#[test]
fn test_custom_tool_definitions() {
    let defs = custom_tool_definitions();
    let names: Vec<&str> = defs.iter().map(|d| d.name.as_str()).collect();

    // Memory tools
    assert!(names.contains(&"MemorySearch"));
    assert!(names.contains(&"MemoryWrite"));
    assert!(names.contains(&"MemoryAppendDaily"));
    // Vault tools
    assert!(names.contains(&"VaultGet"));
    assert!(names.contains(&"VaultSet"));
    // Skill tools
    assert!(names.contains(&"SkillCreate"));
    assert!(names.contains(&"SkillUpdate"));
    assert!(names.contains(&"SkillDelete"));
    assert!(names.contains(&"SkillList"));
    // Cron tools
    assert!(names.contains(&"CronAdd"));
    assert!(names.contains(&"CronList"));
    assert!(names.contains(&"CronRemove"));
    assert!(names.contains(&"CronRuns"));

    assert_eq!(defs.len(), 13);
}

#[test]
fn custom_tool_schemas_are_objects() {
    for d in &custom_tool_definitions() {
        let v: serde_json::Value = serde_json::from_str(&d.input_schema).unwrap();
        assert_eq!(v["type"], "object");
    }
}

#[test]
fn skill_and_cron_tools_are_planned() {
    let mut a = no_args();
    a.name = Some("test-skill".into());
    a.content = Some("Do testing.".into());
    match plan_custom_tool("SkillCreate", a) {
        Some(CustomToolCall::SkillCreate { name, content }) => {
            assert_eq!(name, "test-skill");
            assert_eq!(content, "Do testing.");
        }
        c => panic!("unexpected {:?}", c),
    }
    assert!(matches!(plan_custom_tool("SkillList", no_args()), Some(CustomToolCall::SkillList)));
    let mut a = no_args();
    a.name = Some("test-job".into());
    a.prompt = Some("Check status".into());
    a.schedule_kind = Some("interval".into());
    a.schedule_every_ms = Some(60000);
    match plan_custom_tool("CronAdd", a) {
        Some(CustomToolCall::CronAdd { name, prompt, schedule: Schedule::Interval { every_ms }, delete_after_run }) => {
            assert_eq!(name, "test-job");
            assert_eq!(prompt, "Check status");
            assert_eq!(every_ms, 60000);
            assert!(!delete_after_run);
        }
        c => panic!("unexpected {:?}", c),
    }
    assert!(matches!(plan_custom_tool("CronList", no_args()), Some(CustomToolCall::CronList)));
    let mut a = no_args();
    a.name = Some("j".into());
    assert!(matches!(plan_custom_tool("CronRuns", a), Some(CustomToolCall::CronRuns { limit: 10, .. })));
    let mut bad = no_args();
    bad.name = Some("j".into());
    bad.prompt = Some("p".into());
    bad.schedule_kind = Some("interval".into());
    assert!(plan_custom_tool("CronAdd", bad).is_none());
    assert!(plan_custom_tool("UnknownTool", no_args()).is_none());
}

#[test]
fn skill_and_cron_outcomes_become_results() {
    let create = CustomToolCall::SkillCreate { name: "test-skill".into(), content: "x".into() };
    let r = custom_tool_result(&create, StoreOutcome::Done);
    assert_eq!(r.content, "Created skill 'test-skill'.");
    assert!(!r.is_error);
    let listed = custom_tool_result(&CustomToolCall::SkillList, StoreOutcome::Found { json: "[\"test-skill\"]".into() });
    assert!(listed.content.contains("test-skill"));
    let failed = custom_tool_result(&CustomToolCall::CronList, StoreOutcome::Failed { message: "locked".into() });
    assert!(failed.is_error);
    assert_eq!(failed.content, "Cron error: locked");
}

#[test]
fn allowed_tools_lists_builtin_then_custom() {
    let tools = allowed_tools();
    assert_eq!(tools.len(), 17);
    assert_eq!(&tools[..4], &["Read", "Bash", "Glob", "Grep"]);
    assert!(tools.contains(&"CronRuns".to_string()));
}

#[test]
fn search_limit_defaults_to_five() {
    let mut a = no_args();
    a.query = Some("Orion".into());
    match plan_custom_tool("MemorySearch", a) {
        Some(CustomToolCall::MemorySearch { query, limit }) => {
            assert_eq!(query, "Orion");
            assert_eq!(limit, 5);
        }
        c => panic!("unexpected {:?}", c),
    }
}

#[test]
fn missing_arguments_fall_through() {
    assert!(plan_custom_tool("MemoryWrite", no_args()).is_none());
    assert!(plan_custom_tool("Bash", no_args()).is_none());
}

#[test]
fn store_outcomes_become_results() {
    let set = CustomToolCall::VaultSet { key: "k".into(), value: "v".into() };
    let r: ToolResult = custom_tool_result(&set, StoreOutcome::Done);
    assert_eq!(r.content, "Stored 'k' in vault.");
    assert!(!r.is_error);
    let get = CustomToolCall::VaultGet { key: "k".into() };
    assert_eq!(custom_tool_result(&get, StoreOutcome::Value { value: None }).content, "No vault entry found for key: k");
    let failed = custom_tool_result(&get, StoreOutcome::Failed { message: "locked".into() });
    assert!(failed.is_error);
    assert_eq!(failed.content, "Vault get error: locked");
}

#[test]
fn system_prompt_appends_skills() {
    let p = build_system_prompt("BOOT", "Monday", "s1", "");
    assert!(p.starts_with("BOOT\n\n---\nCurrent date/time: Monday\nSession ID: s1\nYou have access to memory tools"));
    assert!(build_system_prompt("B", "d", "s", "SKILLS").ends_with("\n\nSKILLS"));
}

#[test]
fn vault_key_repeats_short_seed() {
    let key = derive_vault_key(Some("abc"), None);
    assert_eq!(&key[..6], &[97, 98, 99, 100, 102, 104]);
    assert_eq!(key[31], 98u8.wrapping_add(31));
    let default = derive_vault_key(None, None);
    assert_eq!(&default[..], &DEFAULT_VAULT_SEED.as_bytes()[..32]);
    assert_eq!(derive_vault_key(None, Some("abc")), key);
}

#[test]
fn long_texts_are_ellipsized() {
    assert_eq!(truncate_text("hello", 10), "hello");
    assert_eq!(truncate_text("hello world", 5), "hello...");
    let entry = daily_log_entry("hi", &"x".repeat(250));
    assert_eq!(entry, format!("**User**: hi\n**Orion**: {}...", "x".repeat(200)));
}

#[test]
fn reply_collects_text_blocks() {
    let mut c = ReplyCollector::new();
    c.on_assistant(&vec![ContentBlock::Text { text: "one".into() }, ContentBlock::Thinking { thinking: "t".into() }]);
    c.on_assistant(&vec![ContentBlock::Text { text: "two".into() }]);
    assert_eq!(c.into_text(), "one\ntwo");
}

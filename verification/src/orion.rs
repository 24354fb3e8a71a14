//! The Orion assistant around the agent runtime: its custom tools (memory
//! and vault), the tool list and system prompt of its queries, the vault
//! key, and the text it collects from a reply.

use vstd::prelude::*;

use crate::messages::ContentBlock;
use crate::cron::Schedule;
use crate::options::CustomToolDefinition;
use crate::text::{
    boundary_index, chars_of, char_byte_len, decimal, is_boundary, lemma_boundary_unique,
    lemma_utf8_len_take_mono, lemma_utf8_len_take_step, lemma_utf8_len_take_strict, push_char,
    push_str, str_eq, string_of_range, u64_to_decimal, utf8_len,
};

verus! {

/// Description of the `MemorySearch` tool.
pub const MEMORY_SEARCH_DESCRIPTION: &'static str = "Search the user's memory (long-term knowledge, daily logs, notes) using full-text search.";

/// JSON schema of the `MemorySearch` tool's input.
pub const MEMORY_SEARCH_SCHEMA: &'static str = "{\"type\":\"object\",\"properties\":{\"query\":{\"type\":\"string\",\"description\":\"The search query\"},\"limit\":{\"type\":\"integer\",\"description\":\"Maximum number of results (default: 5)\"}},\"required\":[\"query\"]}";

/// Description of the `MemoryWrite` tool.
pub const MEMORY_WRITE_DESCRIPTION: &'static str = "Write or update a file in the user's memory store (e.g. USER.md, MEMORY.md, knowledge/*.md).";

/// JSON schema of the `MemoryWrite` tool's input.
pub const MEMORY_WRITE_SCHEMA: &'static str = "{\"type\":\"object\",\"properties\":{\"file\":{\"type\":\"string\",\"description\":\"Relative file path within the memory store (e.g. 'USER.md', 'knowledge/rust.md')\"},\"content\":{\"type\":\"string\",\"description\":\"The full content to write to the file\"}},\"required\":[\"file\",\"content\"]}";

/// Description of the `MemoryAppendDaily` tool.
pub const MEMORY_APPEND_DAILY_DESCRIPTION: &'static str = "Append a timestamped entry to today's daily log.";

/// JSON schema of the `MemoryAppendDaily` tool's input.
pub const MEMORY_APPEND_DAILY_SCHEMA: &'static str = "{\"type\":\"object\",\"properties\":{\"text\":{\"type\":\"string\",\"description\":\"The text to append to today's daily log\"}},\"required\":[\"text\"]}";

/// Description of the `VaultGet` tool.
pub const VAULT_GET_DESCRIPTION: &'static str = "Retrieve an encrypted credential from the vault by key.";

/// JSON schema of the `VaultGet` tool's input.
pub const VAULT_GET_SCHEMA: &'static str = "{\"type\":\"object\",\"properties\":{\"key\":{\"type\":\"string\",\"description\":\"The key to look up\"}},\"required\":[\"key\"]}";

/// Description of the `VaultSet` tool.
pub const VAULT_SET_DESCRIPTION: &'static str = "Store an encrypted credential in the vault.";

/// JSON schema of the `VaultSet` tool's input.
pub const VAULT_SET_SCHEMA: &'static str = "{\"type\":\"object\",\"properties\":{\"key\":{\"type\":\"string\",\"description\":\"The key to store under\"},\"value\":{\"type\":\"string\",\"description\":\"The secret value to encrypt and store\"}},\"required\":[\"key\",\"value\"]}";

/// Description of the `SkillCreate` tool.
pub const SKILL_CREATE_DESCRIPTION: &'static str = "Create a new skill: named instructions the assistant can follow later.";

/// JSON schema of the `SkillCreate` and `SkillUpdate` tools' input.
pub const SKILL_CONTENT_SCHEMA: &'static str = "{\"type\":\"object\",\"properties\":{\"name\":{\"type\":\"string\",\"description\":\"The skill's name\"},\"content\":{\"type\":\"string\",\"description\":\"The skill's instructions (markdown)\"}},\"required\":[\"name\",\"content\"]}";

/// Description of the `SkillUpdate` tool.
pub const SKILL_UPDATE_DESCRIPTION: &'static str = "Replace the instructions of an existing skill.";

/// Description of the `SkillDelete` tool.
pub const SKILL_DELETE_DESCRIPTION: &'static str = "Delete a skill by name.";

/// JSON schema of the tools whose input is a name only.
pub const NAME_ONLY_SCHEMA: &'static str = "{\"type\":\"object\",\"properties\":{\"name\":{\"type\":\"string\",\"description\":\"The name\"}},\"required\":[\"name\"]}";

/// Description of the `SkillList` tool.
pub const SKILL_LIST_DESCRIPTION: &'static str = "List the names of all skills.";

/// JSON schema of the tools that take no input.
pub const NO_INPUT_SCHEMA: &'static str = "{\"type\":\"object\",\"properties\":{}}";

/// Description of the `CronAdd` tool.
pub const CRON_ADD_DESCRIPTION: &'static str = "Schedule a prompt to run later: once at a time, every so many milliseconds, or on a cron expression.";

/// JSON schema of the `CronAdd` tool's input.
pub const CRON_ADD_SCHEMA: &'static str = "{\"type\":\"object\",\"properties\":{\"name\":{\"type\":\"string\",\"description\":\"Unique job name\"},\"prompt\":{\"type\":\"string\",\"description\":\"The prompt to run\"},\"schedule\":{\"type\":\"object\",\"description\":\"{kind: 'one_shot', at: RFC 3339 time} | {kind: 'interval', every_ms} | {kind: 'cron', expr}\"},\"delete_after_run\":{\"type\":\"boolean\",\"description\":\"Remove the job after its first run (default: false)\"}},\"required\":[\"name\",\"prompt\",\"schedule\"]}";

/// Description of the `CronList` tool.
pub const CRON_LIST_DESCRIPTION: &'static str = "List all scheduled jobs.";

/// Description of the `CronRemove` tool.
pub const CRON_REMOVE_DESCRIPTION: &'static str = "Remove a scheduled job by name.";

/// Description of the `CronRuns` tool.
pub const CRON_RUNS_DESCRIPTION: &'static str = "List the most recent runs of a scheduled job.";

/// JSON schema of the `CronRuns` tool's input.
pub const CRON_RUNS_SCHEMA: &'static str = "{\"type\":\"object\",\"properties\":{\"name\":{\"type\":\"string\",\"description\":\"The job's name\"},\"limit\":{\"type\":\"integer\",\"description\":\"Maximum number of runs (default: 10)\"}},\"required\":[\"name\"]}";

/// The custom tools, in order: name, description, schema.
pub open spec fn custom_tool_specs() -> Seq<(Seq<char>, Seq<char>, Seq<char>)> {
    seq![("MemorySearch"@, MEMORY_SEARCH_DESCRIPTION@, MEMORY_SEARCH_SCHEMA@),
        ("MemoryWrite"@, MEMORY_WRITE_DESCRIPTION@, MEMORY_WRITE_SCHEMA@),
        ("MemoryAppendDaily"@, MEMORY_APPEND_DAILY_DESCRIPTION@, MEMORY_APPEND_DAILY_SCHEMA@),
        ("VaultGet"@, VAULT_GET_DESCRIPTION@, VAULT_GET_SCHEMA@),
        ("VaultSet"@, VAULT_SET_DESCRIPTION@, VAULT_SET_SCHEMA@),
        ("SkillCreate"@, SKILL_CREATE_DESCRIPTION@, SKILL_CONTENT_SCHEMA@),
        ("SkillUpdate"@, SKILL_UPDATE_DESCRIPTION@, SKILL_CONTENT_SCHEMA@),
        ("SkillDelete"@, SKILL_DELETE_DESCRIPTION@, NAME_ONLY_SCHEMA@),
        ("SkillList"@, SKILL_LIST_DESCRIPTION@, NO_INPUT_SCHEMA@),
        ("CronAdd"@, CRON_ADD_DESCRIPTION@, CRON_ADD_SCHEMA@),
        ("CronList"@, CRON_LIST_DESCRIPTION@, NO_INPUT_SCHEMA@),
        ("CronRemove"@, CRON_REMOVE_DESCRIPTION@, NAME_ONLY_SCHEMA@),
        ("CronRuns"@, CRON_RUNS_DESCRIPTION@, CRON_RUNS_SCHEMA@)]
}

pub open spec fn custom_view(d: CustomToolDefinition) -> (Seq<char>, Seq<char>, Seq<char>) {
    (d.name@, d.description@, d.input_schema@)
}

fn custom(name: &str, description: &str, schema: &str) -> (d: CustomToolDefinition)
    ensures
        custom_view(d) == (name@, description@, schema@),
{
    CustomToolDefinition {
        name: name.to_owned(),
        description: description.to_owned(),
        input_schema: schema.to_owned(),
    }
}

/// The definitions of the memory, vault, skill and scheduling tools.
pub fn custom_tool_definitions() -> (v: Vec<CustomToolDefinition>)
    ensures
        v@.map_values(|d: CustomToolDefinition| custom_view(d)) == custom_tool_specs(),
{
    let mut v: Vec<CustomToolDefinition> = Vec::new();

    v.push(custom("MemorySearch", MEMORY_SEARCH_DESCRIPTION, MEMORY_SEARCH_SCHEMA));
    v.push(custom("MemoryWrite", MEMORY_WRITE_DESCRIPTION, MEMORY_WRITE_SCHEMA));
    v.push(custom("MemoryAppendDaily", MEMORY_APPEND_DAILY_DESCRIPTION, MEMORY_APPEND_DAILY_SCHEMA));
    v.push(custom("VaultGet", VAULT_GET_DESCRIPTION, VAULT_GET_SCHEMA));
    v.push(custom("VaultSet", VAULT_SET_DESCRIPTION, VAULT_SET_SCHEMA));
    v.push(custom("SkillCreate", SKILL_CREATE_DESCRIPTION, SKILL_CONTENT_SCHEMA));
    v.push(custom("SkillUpdate", SKILL_UPDATE_DESCRIPTION, SKILL_CONTENT_SCHEMA));
    v.push(custom("SkillDelete", SKILL_DELETE_DESCRIPTION, NAME_ONLY_SCHEMA));
    v.push(custom("SkillList", SKILL_LIST_DESCRIPTION, NO_INPUT_SCHEMA));
    v.push(custom("CronAdd", CRON_ADD_DESCRIPTION, CRON_ADD_SCHEMA));
    v.push(custom("CronList", CRON_LIST_DESCRIPTION, NO_INPUT_SCHEMA));
    v.push(custom("CronRemove", CRON_REMOVE_DESCRIPTION, NAME_ONLY_SCHEMA));
    v.push(custom("CronRuns", CRON_RUNS_DESCRIPTION, CRON_RUNS_SCHEMA));
    proof {
        assert(v@.map_values(|d: CustomToolDefinition| custom_view(d)) =~= custom_tool_specs());
    }
    v
}

/// The tools of the assistant besides the built-in ones.
pub open spec fn custom_tool_names() -> Seq<Seq<char>> {
    seq![
        "MemorySearch"@, "MemoryWrite"@, "MemoryAppendDaily"@, "VaultGet"@, "VaultSet"@,
        "SkillCreate"@, "SkillUpdate"@, "SkillDelete"@, "SkillList"@, "CronAdd"@, "CronList"@,
        "CronRemove"@, "CronRuns"@,
    ]
}

/// The tools an assistant query may use.
pub open spec fn assistant_tool_names() -> Seq<Seq<char>> {
    seq!["Read"@, "Bash"@, "Glob"@, "Grep"@] + custom_tool_names()
}

/// The tools an assistant query may use: Read, Bash, Glob and Grep, then
/// the custom tools.
pub fn allowed_tools() -> (v: Vec<String>)
    ensures
        v@.map_values(|s: String| s@) == assistant_tool_names(),
{
    let mut v: Vec<String> = Vec::new();
    v.push("Read".to_owned());
    v.push("Bash".to_owned());
    v.push("Glob".to_owned());
    v.push("Grep".to_owned());
    v.push("MemorySearch".to_owned());
    v.push("MemoryWrite".to_owned());
    v.push("MemoryAppendDaily".to_owned());
    v.push("VaultGet".to_owned());
    v.push("VaultSet".to_owned());
    v.push("SkillCreate".to_owned());
    v.push("SkillUpdate".to_owned());
    v.push("SkillDelete".to_owned());
    v.push("SkillList".to_owned());
    v.push("CronAdd".to_owned());
    v.push("CronList".to_owned());
    v.push("CronRemove".to_owned());
    v.push("CronRuns".to_owned());
    proof {
        assert(v@.map_values(|s: String| s@) =~= assistant_tool_names());
    }
    v
}

/// The string and integer fields of a custom tool's JSON input (absent
/// when missing or of another type).
#[derive(Debug, Clone)]
pub struct CustomToolArgs {
    pub query: Option<String>,
    pub limit: Option<u64>,
    pub file: Option<String>,
    pub content: Option<String>,
    pub text: Option<String>,
    pub key: Option<String>,
    pub value: Option<String>,
    pub name: Option<String>,
    pub prompt: Option<String>,
    /// The `schedule` object's `kind`, `at`, `every_ms` and `expr` fields.
    pub schedule_kind: Option<String>,
    pub schedule_at: Option<String>,
    pub schedule_every_ms: Option<u64>,
    pub schedule_expr: Option<String>,
    pub delete_after_run: Option<bool>,
}

/// A call of a custom tool, with its arguments.
#[derive(Debug)]
pub enum CustomToolCall {
    MemorySearch { query: String, limit: u64 },
    MemoryWrite { file: String, content: String },
    MemoryAppendDaily { text: String },
    VaultGet { key: String },
    VaultSet { key: String, value: String },
    SkillCreate { name: String, content: String },
    SkillUpdate { name: String, content: String },
    SkillDelete { name: String },
    SkillList,
    CronAdd { name: String, prompt: String, schedule: Schedule, delete_after_run: bool },
    CronList,
    CronRemove { name: String },
    CronRuns { name: String, limit: u64 },
}

/// The schedule the `schedule` object describes, by its kind: `one_shot`
/// with `at`, `interval` with `every_ms`, or `cron` with `expr`.
pub open spec fn schedule_of(s: Schedule, a: CustomToolArgs) -> bool {
    match s {
        Schedule::OneShot { at } => str_arg(a.schedule_kind) == Some("one_shot"@) && str_arg(a.schedule_at)
            == Some(at@),
        Schedule::Interval { every_ms } => str_arg(a.schedule_kind) == Some("interval"@)
            && a.schedule_every_ms == Some(every_ms),
        Schedule::Cron { expr } => str_arg(a.schedule_kind) == Some("cron"@) && str_arg(a.schedule_expr)
            == Some(expr@),
    }
}

/// The `schedule` object names a kind together with that kind's field.
pub open spec fn schedule_given(a: CustomToolArgs) -> bool {
    ||| str_arg(a.schedule_kind) == Some("one_shot"@) && a.schedule_at is Some
    ||| str_arg(a.schedule_kind) == Some("interval"@) && a.schedule_every_ms is Some
    ||| str_arg(a.schedule_kind) == Some("cron"@) && a.schedule_expr is Some
}

/// The schedule of a `CronAdd` call's arguments, if they give one.
fn plan_schedule(a: &CustomToolArgs) -> (r: Option<Schedule>)
    ensures
        r is Some <==> schedule_given(*a),
        r matches Some(s) ==> schedule_of(s, *a),
{
    proof {
        reveal_strlit("one_shot");
        reveal_strlit("interval");
        reveal_strlit("cron");
        assert("one_shot"@[0] != "interval"@[0]);
        assert("one_shot"@ != "cron"@);
        assert("interval"@ != "cron"@);
    }
    match &a.schedule_kind {
        Some(k) => {
            if str_eq(k.as_str(), "one_shot") {
                match &a.schedule_at {
                    Some(at) => Some(Schedule::OneShot { at: at.clone() }),
                    None => None,
                }
            } else if str_eq(k.as_str(), "interval") {
                match a.schedule_every_ms {
                    Some(every_ms) => Some(Schedule::Interval { every_ms }),
                    None => None,
                }
            } else if str_eq(k.as_str(), "cron") {
                match &a.schedule_expr {
                    Some(expr) => Some(Schedule::Cron { expr: expr.clone() }),
                    None => None,
                }
            } else {
                None
            }
        },
        None => None,
    }
}

pub open spec fn str_arg(o: Option<String>) -> Option<Seq<char>> {
    match o {
        Some(s) => Some(s@),
        None => None,
    }
}

/// The call a tool name and its arguments make: `None` for other tools and
/// when a required argument is missing (the call then goes to the built-in
/// tools). The search limit defaults to 5.
pub open spec fn planned_call(name: Seq<char>, a: CustomToolArgs, c: Option<CustomToolCall>) -> bool {
    if name == "MemorySearch"@ {
        match str_arg(a.query) {
            Some(q) => c matches Some(CustomToolCall::MemorySearch { query, limit }) && query@ == q
                && limit == match a.limit {
                Some(l) => l,
                None => 5,
            },
            None => c is None,
        }
    } else if name == "MemoryWrite"@ {
        match (str_arg(a.file), str_arg(a.content)) {
            (Some(f), Some(t)) => c matches Some(CustomToolCall::MemoryWrite { file, content })
                && file@ == f && content@ == t,
            _ => c is None,
        }
    } else if name == "MemoryAppendDaily"@ {
        match str_arg(a.text) {
            Some(t) => c matches Some(CustomToolCall::MemoryAppendDaily { text }) && text@ == t,
            None => c is None,
        }
    } else if name == "VaultGet"@ {
        match str_arg(a.key) {
            Some(k) => c matches Some(CustomToolCall::VaultGet { key }) && key@ == k,
            None => c is None,
        }
    } else if name == "VaultSet"@ {
        match (str_arg(a.key), str_arg(a.value)) {
            (Some(k), Some(v)) => c matches Some(CustomToolCall::VaultSet { key, value }) && key@ == k
                && value@ == v,
            _ => c is None,
        }
    } else if name == "SkillCreate"@ || name == "SkillUpdate"@ {
        match (str_arg(a.name), str_arg(a.content)) {
            (Some(n), Some(t)) => if name == "SkillCreate"@ {
                c matches Some(CustomToolCall::SkillCreate { name: nn, content }) && nn@ == n && content@ == t
            } else {
                c matches Some(CustomToolCall::SkillUpdate { name: nn, content }) && nn@ == n && content@ == t
            },
            _ => c is None,
        }
    } else if name == "SkillDelete"@ {
        match str_arg(a.name) {
            Some(n) => c matches Some(CustomToolCall::SkillDelete { name: nn }) && nn@ == n,
            None => c is None,
        }
    } else if name == "SkillList"@ {
        c matches Some(CustomToolCall::SkillList)
    } else if name == "CronAdd"@ {
        match (str_arg(a.name), str_arg(a.prompt)) {
            (Some(n), Some(p)) => if schedule_given(a) {
                c matches Some(CustomToolCall::CronAdd { name: nn, prompt, schedule, delete_after_run })
                    && nn@ == n && prompt@ == p && schedule_of(schedule, a) && delete_after_run == match a.delete_after_run {
                    Some(d) => d,
                    None => false,
                }
            } else {
                c is None
            },
            _ => c is None,
        }
    } else if name == "CronList"@ {
        c matches Some(CustomToolCall::CronList)
    } else if name == "CronRemove"@ {
        match str_arg(a.name) {
            Some(n) => c matches Some(CustomToolCall::CronRemove { name: nn }) && nn@ == n,
            None => c is None,
        }
    } else if name == "CronRuns"@ {
        match str_arg(a.name) {
            Some(n) => c matches Some(CustomToolCall::CronRuns { name: nn, limit }) && nn@ == n && limit
                == match a.limit {
                Some(l) => l,
                None => 10,
            },
            None => c is None,
        }
    } else {
        c is None
    }
}

/// Decide which store operation a custom tool call asks for.
pub fn plan_custom_tool(tool_name: &str, args: CustomToolArgs) -> (c: Option<CustomToolCall>)
    ensures
        planned_call(tool_name@, args, c),
{
    let ghost a = args;
    if str_eq(tool_name, "MemorySearch") {
        match args.query {
            Some(query) => {
                let limit = match args.limit {
                    Some(l) => l,
                    None => 5,
                };
                Some(CustomToolCall::MemorySearch { query, limit })
            },
            None => None,
        }
    } else if str_eq(tool_name, "MemoryWrite") {
        match (args.file, args.content) {
            (Some(file), Some(content)) => Some(CustomToolCall::MemoryWrite { file, content }),
            _ => None,
        }
    } else if str_eq(tool_name, "MemoryAppendDaily") {
        match args.text {
            Some(text) => Some(CustomToolCall::MemoryAppendDaily { text }),
            None => None,
        }
    } else if str_eq(tool_name, "VaultGet") {
        match args.key {
            Some(key) => Some(CustomToolCall::VaultGet { key }),
            None => None,
        }
    } else if str_eq(tool_name, "VaultSet") {
        match (args.key, args.value) {
            (Some(key), Some(value)) => Some(CustomToolCall::VaultSet { key, value }),
            _ => None,
        }
    } else if str_eq(tool_name, "SkillCreate") {
        match (args.name, args.content) {
            (Some(name), Some(content)) => Some(CustomToolCall::SkillCreate { name, content }),
            _ => None,
        }
    } else if str_eq(tool_name, "SkillUpdate") {
        match (args.name, args.content) {
            (Some(name), Some(content)) => Some(CustomToolCall::SkillUpdate { name, content }),
            _ => None,
        }
    } else if str_eq(tool_name, "SkillDelete") {
        match args.name {
            Some(name) => Some(CustomToolCall::SkillDelete { name }),
            None => None,
        }
    } else if str_eq(tool_name, "SkillList") {
        Some(CustomToolCall::SkillList)
    } else if str_eq(tool_name, "CronAdd") {
        let schedule = plan_schedule(&args);
        match (args.name, args.prompt, schedule) {
            (Some(name), Some(prompt), Some(schedule)) => {
                let delete_after_run = match args.delete_after_run {
                    Some(d) => d,
                    None => false,
                };
                Some(CustomToolCall::CronAdd { name, prompt, schedule, delete_after_run })
            },
            _ => None,
        }
    } else if str_eq(tool_name, "CronList") {
        Some(CustomToolCall::CronList)
    } else if str_eq(tool_name, "CronRemove") {
        match args.name {
            Some(name) => Some(CustomToolCall::CronRemove { name }),
            None => None,
        }
    } else if str_eq(tool_name, "CronRuns") {
        match args.name {
            Some(name) => {
                let limit = match args.limit {
                    Some(l) => l,
                    None => 10,
                };
                Some(CustomToolCall::CronRuns { name, limit })
            },
            None => None,
        }
    } else {
        None
    }
}

/// What the store behind a custom tool answered.
#[derive(Debug)]
pub enum StoreOutcome {
    /// A write or append went through.
    Done,
    /// A search result or a listing (skills, jobs, runs), rendered as JSON
    /// text.
    Found { json: String },
    /// A vault lookup: the value, if the key is set.
    Value { value: Option<String> },
    /// The store failed with this message.
    Failed { message: String },
}

/// The text and error flag answered for a call and the store's outcome.
pub open spec fn custom_result(call: CustomToolCall, out: StoreOutcome) -> (Seq<char>, bool) {
    match out {
        StoreOutcome::Failed { message } => (
            match call {
                CustomToolCall::MemorySearch { .. } => "Memory search error: "@,
                CustomToolCall::MemoryWrite { .. } => "Memory write error: "@,
                CustomToolCall::MemoryAppendDaily { .. } => "Daily append error: "@,
                CustomToolCall::VaultGet { .. } => "Vault get error: "@,
                CustomToolCall::VaultSet { .. } => "Vault set error: "@,
                CustomToolCall::SkillCreate { .. } | CustomToolCall::SkillUpdate { .. }
                | CustomToolCall::SkillDelete { .. } | CustomToolCall::SkillList => "Skill error: "@,
                _ => "Cron error: "@,
            } + message@,
            true,
        ),
        StoreOutcome::Found { json } => (json@, false),
        StoreOutcome::Value { value } => match value {
            Some(v) => (v@, false),
            None => (
                "No vault entry found for key: "@ + match call {
                    CustomToolCall::VaultGet { key } => key@,
                    _ => seq![],
                },
                false,
            ),
        },
        StoreOutcome::Done => match call {
            CustomToolCall::MemoryWrite { file, .. } => ("Successfully wrote "@ + file@, false),
            CustomToolCall::MemoryAppendDaily { .. } => ("Appended to daily log."@, false),
            CustomToolCall::VaultSet { key, .. } => ("Stored '"@ + key@ + "' in vault."@, false),
            CustomToolCall::SkillCreate { name, .. } => ("Created skill '"@ + name@ + "'."@, false),
            CustomToolCall::SkillUpdate { name, .. } => ("Updated skill '"@ + name@ + "'."@, false),
            CustomToolCall::SkillDelete { name } => ("Deleted skill '"@ + name@ + "'."@, false),
            CustomToolCall::CronAdd { name, .. } => ("Scheduled job '"@ + name@ + "'."@, false),
            CustomToolCall::CronRemove { name } => ("Removed job '"@ + name@ + "'."@, false),
            _ => (seq![], false),
        },
    }
}

/// `before`, then `name`, then `after`.
fn quoted(before: &str, name: &str, after: &str) -> (r: String)
    ensures
        r@ == before@ + name@ + after@,
{
    let mut t = before.to_owned();
    push_str(&mut t, name);
    push_str(&mut t, after);
    t
}

/// The tool result of a custom tool call.
pub fn custom_tool_result(call: &CustomToolCall, out: StoreOutcome) -> (r: crate::executor::ToolResult)
    ensures
        (r.content@, r.is_error) == custom_result(*call, out),
        r.raw_content is None,
{
    let ghost o = out;
    match out {
        StoreOutcome::Failed { message } => {
            let prefix = match call {
                CustomToolCall::MemorySearch { .. } => "Memory search error: ",
                CustomToolCall::MemoryWrite { .. } => "Memory write error: ",
                CustomToolCall::MemoryAppendDaily { .. } => "Daily append error: ",
                CustomToolCall::VaultGet { .. } => "Vault get error: ",
                CustomToolCall::VaultSet { .. } => "Vault set error: ",
                CustomToolCall::SkillCreate { .. } | CustomToolCall::SkillUpdate { .. }
                | CustomToolCall::SkillDelete { .. } | CustomToolCall::SkillList => "Skill error: ",
                _ => "Cron error: ",
            };
            let mut t = prefix.to_owned();
            push_str(&mut t, message.as_str());
            crate::executor::ToolResult::err(t)
        },
        StoreOutcome::Found { json } => crate::executor::ToolResult::ok(json),
        StoreOutcome::Value { value } => match value {
            Some(v) => crate::executor::ToolResult::ok(v),
            None => {
                let mut t = "No vault entry found for key: ".to_owned();
                if let CustomToolCall::VaultGet { key } = call {
                    push_str(&mut t, key.as_str());
                }
                crate::executor::ToolResult::ok(t)
            },
        },
        StoreOutcome::Done => {
            let t = match call {
                CustomToolCall::MemoryWrite { file, .. } => {
                    let mut t = "Successfully wrote ".to_owned();
                    push_str(&mut t, file.as_str());
                    t
                },
                CustomToolCall::MemoryAppendDaily { .. } => "Appended to daily log.".to_owned(),
                CustomToolCall::VaultSet { key, .. } => {
                    let mut t = "Stored '".to_owned();
                    push_str(&mut t, key.as_str());
                    push_str(&mut t, "' in vault.");
                    t
                },
                CustomToolCall::SkillCreate { name, .. } => quoted("Created skill '", name.as_str(), "'."),
                CustomToolCall::SkillUpdate { name, .. } => quoted("Updated skill '", name.as_str(), "'."),
                CustomToolCall::SkillDelete { name } => quoted("Deleted skill '", name.as_str(), "'."),
                CustomToolCall::CronAdd { name, .. } => quoted("Scheduled job '", name.as_str(), "'."),
                CustomToolCall::CronRemove { name } => quoted("Removed job '", name.as_str(), "'."),
                _ => String::new(),
            };
            crate::executor::ToolResult::ok(t)
        },
    }
}

/// The system prompt of an assistant query.
pub open spec fn assistant_prompt(bootstrap: Seq<char>, date: Seq<char>, session_id: Seq<char>, skills: Seq<char>) -> Seq<char> {
    bootstrap + "\n\n---\nCurrent date/time: "@ + date + "\nSession ID: "@ + session_id
        + "\nYou have access to memory tools (MemorySearch, MemoryWrite, MemoryAppendDaily), vault tools (VaultGet, VaultSet), skill tools (SkillCreate, SkillUpdate, SkillDelete, SkillList), and scheduling tools (CronAdd, CronList, CronRemove, CronRuns)."@
        + if skills.len() == 0 {
        seq![]
    } else {
        "\n\n"@ + skills
    }
}

/// Build the system prompt from the memory's bootstrap context, the date,
/// the session and the skills' context.
pub fn build_system_prompt(bootstrap: &str, date: &str, session_id: &str, skills: &str) -> (p: String)
    ensures
        p@ == assistant_prompt(bootstrap@, date@, session_id@, skills@),
{
    let mut p = bootstrap.to_owned();
    push_str(&mut p, "\n\n---\nCurrent date/time: ");
    push_str(&mut p, date);
    push_str(&mut p, "\nSession ID: ");
    push_str(&mut p, session_id);
    push_str(
        &mut p,
        "\nYou have access to memory tools (MemorySearch, MemoryWrite, MemoryAppendDaily), vault tools (VaultGet, VaultSet), skill tools (SkillCreate, SkillUpdate, SkillDelete, SkillList), and scheduling tools (CronAdd, CronList, CronRemove, CronRuns).",
    );
    if !skills.is_empty() {
        push_str(&mut p, "\n\n");
        push_str(&mut p, skills);
    }
    p
}

/// The seed of the vault key when none is configured.
pub const DEFAULT_VAULT_SEED: &'static str = "orion-default-vault-key-change-me!";

/// The seed of the vault key: the configured API key, else the one of the
/// environment, else the default seed.
pub open spec fn vault_seed(api_key: Option<Seq<char>>, env_key: Option<Seq<char>>) -> Seq<char> {
    match api_key {
        Some(k) => k,
        None => match env_key {
            Some(k) => k,
            None => DEFAULT_VAULT_SEED@,
        },
    }
}

/// Byte `i` of the vault key made from the seed bytes `b`: the seed's bytes,
/// then, past the seed, the seed byte at `i mod len` plus `i` (mod 256).
pub open spec fn vault_key_byte(b: Seq<u8>, i: int) -> u8 {
    if i < b.len() {
        b[i]
    } else {
        ((b[i % (b.len() as int)] + i) % 256) as u8
    }
}

/// Derive the 32-byte vault key from a seed. The seed must not be empty.
pub fn derive_vault_key(api_key: Option<&str>, env_key: Option<&str>) -> (key: [u8; 32])
    requires
        vault_seed(
            match api_key {
                Some(k) => Some(k@),
                None => None,
            },
            match env_key {
                Some(k) => Some(k@),
                None => None,
            },
        ).len() > 0,
    ensures
        ({
            let seed = vault_seed(
                match api_key {
                    Some(k) => Some(k@),
                    None => None,
                },
                match env_key {
                    Some(k) => Some(k@),
                    None => None,
                },
            );
            forall|i: int| 0 <= i < 32 ==> key[i] == vault_key_byte(vstd::utf8::encode_utf8(seed), i)
        }),
{
    let seed: &str = match api_key {
        Some(k) => k,
        None => match env_key {
            Some(k) => k,
            None => DEFAULT_VAULT_SEED,
        },
    };
    let bytes = seed.as_bytes();
    let ghost b = bytes@;
    proof {
        crate::text::lemma_utf8_len_is_encoding_len(seed@);
        assert(seed@.drop_last().push(seed@.last()) =~= seed@);
    }
    let n = bytes.len();
    let mut key = [0u8; 32];
    let mut i: usize = 0;
    while i < 32
        invariant
            b == bytes@,
            n == b.len(),
            n > 0,
            0 <= i <= 32,
            forall|j: int| 0 <= j < i ==> key[j] == vault_key_byte(b, j),
        decreases 32 - i,
    {
        if i < n {
            key[i] = bytes[i];
        } else {
            let src = i % n;
            proof {
                vstd::arithmetic::div_mod::lemma_mod_bound(i as int, n as int);
                assert(src < n);
                assert(key[src as int] == vault_key_byte(b, src as int));
            }
            let base = key[src];
            let add = i as u8;
            assert(add == i);
            key[i] = base.wrapping_add(add);
        }
        i = i + 1;
    }
    key
}

/// A text cut at `max` bytes with `...` appended; unchanged when it fits.
pub open spec fn ellipsized(s: Seq<char>, max: int) -> Seq<char> {
    if utf8_len(s) <= max {
        s
    } else {
        s.take(boundary_index(s, max)) + "..."@
    }
}

/// Cut a text at `max_len` bytes, adding `...` when cut. A text over the
/// limit must have a character boundary there.
pub fn truncate_text(s: &str, max_len: usize) -> (r: String)
    requires
        utf8_len(s@) <= max_len || is_boundary(s@, max_len as int),
    ensures
        r@ == ellipsized(s@, max_len as int),
{
    let chars = chars_of(s);
    let k = crate::text::fitting_prefix(&chars, max_len);
    if k == chars.len() {
        proof {
            assert(chars@.take(k as int) =~= chars@);
        }
        return s.to_owned();
    }
    proof {
        lemma_utf8_len_take_mono(chars@, k + 1, chars@.len() as int);
        assert(chars@.take(chars@.len() as int) =~= chars@);
        let kb = boundary_index(s@, max_len as int);
        if kb > k {
            lemma_utf8_len_take_mono(chars@, k + 1, kb);
        }
        if kb < k {
            lemma_utf8_len_take_strict(chars@, kb, k as int);
        }
        lemma_boundary_unique(chars@, k as int, kb);
    }
    let mut r = string_of_range(&chars, 0, k);
    push_str(&mut r, "...");
    proof {
        assert(chars@.subrange(0, k as int) =~= chars@.take(k as int));
    }
    r
}

/// The daily-log entry of an exchange: both sides cut at 200 bytes.
pub open spec fn daily_entry(user_text: Seq<char>, reply: Seq<char>) -> Seq<char> {
    "**User**: "@ + ellipsized(user_text, 200) + "\n**Orion**: "@ + ellipsized(reply, 200)
}

/// The daily-log entry of an exchange. Texts over 200 bytes must have a
/// character boundary at byte 200.
pub fn daily_log_entry(user_text: &str, reply: &str) -> (r: String)
    requires
        utf8_len(user_text@) <= 200 || is_boundary(user_text@, 200),
        utf8_len(reply@) <= 200 || is_boundary(reply@, 200),
    ensures
        r@ == daily_entry(user_text@, reply@),
{
    let mut r = "**User**: ".to_owned();
    let u = truncate_text(user_text, 200);
    push_str(&mut r, u.as_str());
    push_str(&mut r, "\n**Orion**: ");
    let o = truncate_text(reply, 200);
    push_str(&mut r, o.as_str());
    r
}

/// The reply text after the text blocks of an assistant message: each block
/// joins the text, after a newline when there is text already.
pub open spec fn reply_after(acc: Seq<char>, blocks: Seq<ContentBlock>) -> Seq<char>
    decreases blocks.len(),
{
    if blocks.len() == 0 {
        acc
    } else {
        let before = reply_after(acc, blocks.drop_last());
        match blocks.last() {
            ContentBlock::Text { text } => if before.len() == 0 {
                text@
            } else {
                before + "\n"@ + text@
            },
            _ => before,
        }
    }
}

/// The text of a reply, collected from the messages of a query.
pub struct ReplyCollector {
    text: String,
}

impl View for ReplyCollector {
    type V = Seq<char>;

    closed spec fn view(&self) -> Seq<char> {
        self.text@
    }
}

impl ReplyCollector {
    /// A collector with no text.
    pub fn new() -> (c: ReplyCollector)
        ensures
            c@ == Seq::<char>::empty(),
    {
        ReplyCollector { text: String::new() }
    }

    /// Add the text blocks of an assistant message.
    pub fn on_assistant(&mut self, blocks: &Vec<ContentBlock>)
        ensures
            final(self)@ == reply_after(old(self)@, blocks@),
    {
        let ghost a0 = self@;
        let mut i: usize = 0;
        while i < blocks.len()
            invariant
                0 <= i <= blocks@.len(),
                self@ == reply_after(a0, blocks@.take(i as int)),
            decreases blocks@.len() - i,
        {
            proof {
                assert(blocks@.take(i + 1).drop_last() =~= blocks@.take(i as int));
                reveal_strlit("\n");
            }
            if let ContentBlock::Text { text } = &blocks[i] {
                if !self.text.as_str().is_empty() {
                    push_char(&mut self.text, '\n');
                }
                push_str(&mut self.text, text.as_str());
            }
            proof {
                assert(self@ =~= reply_after(a0, blocks@.take(i + 1)));
            }
            i = i + 1;
        }
        proof {
            assert(blocks@.take(i as int) =~= blocks@);
        }
    }

    /// The final result arrived: its text is the reply when no text came
    /// before.
    pub fn on_result(&mut self, result: Option<String>)
        ensures
            final(self)@ == (if old(self)@.len() == 0 && result is Some {
                result.unwrap()@
            } else {
                old(self)@
            }),
    {
        if self.text.as_str().is_empty() {
            if let Some(t) = result {
                self.text = t;
            }
        }
    }

    /// The collected text.
    pub fn into_text(self) -> (t: String)
        ensures
            t@ == self@,
    {
        self.text
    }
}

} // verus!

//! Built-in tool names, their categories and common tool presets.

use vstd::prelude::*;

use crate::text::str_eq;

verus! {

/// Tool categories used to group tools for permission decisions.
#[derive(Debug, Clone, Copy, PartialEq, Eq, Structural)]
pub enum ToolCategory {
    /// Read-only file operations (Read, Glob, Grep).
    ReadOnly,
    /// File modification (Edit, Write).
    FileModification,
    /// Command execution (Bash).
    Execution,
    /// Web access (WebSearch, WebFetch).
    Web,
    /// Agent orchestration (Agent, Skill).
    Orchestration,
    /// User interaction (AskUserQuestion).
    UserInteraction,
    /// Any other tool.
    Other,
}

/// All built-in tool names, in the order they are documented.
pub open spec fn built_in_tool_names() -> Seq<Seq<char>> {
    seq![
        "Read"@, "Write"@, "Edit"@, "Bash"@, "Glob"@, "Grep"@, "Agent"@,
        "AskUserQuestion"@, "TodoWrite"@, "NotebookEdit"@, "ToolSearch"@, "Skill"@,
        "Config"@, "EnterWorktree"@, "ExitPlanMode"@, "TaskOutput"@, "TaskStop"@,
        "ListMcpResources"@, "ReadMcpResource"@,
    ]
}

/// The category of a tool, by name.
pub open spec fn category_of(name: Seq<char>) -> ToolCategory {
    if name == "Read"@ || name == "Glob"@ || name == "Grep"@ || name == "ToolSearch"@ {
        ToolCategory::ReadOnly
    } else if name == "Write"@ || name == "Edit"@ || name == "NotebookEdit"@ {
        ToolCategory::FileModification
    } else if name == "Bash"@ || name == "TaskOutput"@ || name == "TaskStop"@ {
        ToolCategory::Execution
    } else if name == "WebSearch"@ || name == "WebFetch"@ {
        ToolCategory::Web
    } else if name == "Agent"@ || name == "Skill"@ {
        ToolCategory::Orchestration
    } else if name == "AskUserQuestion"@ {
        ToolCategory::UserInteraction
    } else {
        ToolCategory::Other
    }
}

/// A tool is read-only (safe to run in parallel) when its category is
/// `ReadOnly` or `Web`.
pub open spec fn read_only_tool(name: Seq<char>) -> bool {
    category_of(name) == ToolCategory::ReadOnly || category_of(name) == ToolCategory::Web
}

/// The list of all built-in tool names.
pub fn built_in_tools() -> (r: Vec<String>)
    ensures
        r.deep_view() == built_in_tool_names(),
{
    let r = vec![
        "Read".to_owned(), "Write".to_owned(), "Edit".to_owned(), "Bash".to_owned(),
        "Glob".to_owned(), "Grep".to_owned(), "Agent".to_owned(),
        "AskUserQuestion".to_owned(), "TodoWrite".to_owned(), "NotebookEdit".to_owned(),
        "ToolSearch".to_owned(), "Skill".to_owned(), "Config".to_owned(),
        "EnterWorktree".to_owned(), "ExitPlanMode".to_owned(), "TaskOutput".to_owned(),
        "TaskStop".to_owned(), "ListMcpResources".to_owned(), "ReadMcpResource".to_owned(),
    ];
    assert(r.deep_view() =~= built_in_tool_names());
    r
}

/// Get the category for a tool.
pub fn tool_category(tool_name: &str) -> (c: ToolCategory)
    ensures
        c == category_of(tool_name@),
{
    if str_eq(tool_name, "Read") || str_eq(tool_name, "Glob") || str_eq(tool_name, "Grep")
        || str_eq(tool_name, "ToolSearch") {
        ToolCategory::ReadOnly
    } else if str_eq(tool_name, "Write") || str_eq(tool_name, "Edit") || str_eq(
        tool_name,
        "NotebookEdit",
    ) {
        ToolCategory::FileModification
    } else if str_eq(tool_name, "Bash") || str_eq(tool_name, "TaskOutput") || str_eq(
        tool_name,
        "TaskStop",
    ) {
        ToolCategory::Execution
    } else if str_eq(tool_name, "WebSearch") || str_eq(tool_name, "WebFetch") {
        ToolCategory::Web
    } else if str_eq(tool_name, "Agent") || str_eq(tool_name, "Skill") {
        ToolCategory::Orchestration
    } else if str_eq(tool_name, "AskUserQuestion") {
        ToolCategory::UserInteraction
    } else {
        ToolCategory::Other
    }
}

/// Check if a tool is read-only (safe for parallel execution).
pub fn is_read_only(tool_name: &str) -> (r: bool)
    ensures
        r == read_only_tool(tool_name@),
{
    let c = tool_category(tool_name);
    match c {
        ToolCategory::ReadOnly | ToolCategory::Web => true,
        _ => false,
    }
}

/// Read-only analysis tools.
pub fn read_only() -> (r: Vec<String>)
    ensures
        r.deep_view() == seq!["Read"@, "Glob"@, "Grep"@],
{
    let r = vec!["Read".to_owned(), "Glob".to_owned(), "Grep".to_owned()];
    assert(r.deep_view() =~= seq!["Read"@, "Glob"@, "Grep"@]);
    r
}

/// Test execution tools.
pub fn test_execution() -> (r: Vec<String>)
    ensures
        r.deep_view() == seq!["Bash"@, "Read"@, "Grep"@],
{
    let r = vec!["Bash".to_owned(), "Read".to_owned(), "Grep".to_owned()];
    assert(r.deep_view() =~= seq!["Bash"@, "Read"@, "Grep"@]);
    r
}

/// Code modification tools (no command execution).
pub fn code_modification() -> (r: Vec<String>)
    ensures
        r.deep_view() == seq!["Read"@, "Edit"@, "Write"@, "Grep"@, "Glob"@],
{
    let r = vec![
        "Read".to_owned(),
        "Edit".to_owned(),
        "Write".to_owned(),
        "Grep".to_owned(),
        "Glob".to_owned(),
    ];
    assert(r.deep_view() =~= seq!["Read"@, "Edit"@, "Write"@, "Grep"@, "Glob"@]);
    r
}

/// Full access: all common tools.
pub fn full_access() -> (r: Vec<String>)
    ensures
        r.deep_view() == seq!["Read"@, "Edit"@, "Write"@, "Bash"@, "Glob"@, "Grep"@, "Agent"@],
{
    let r = vec![
        "Read".to_owned(),
        "Edit".to_owned(),
        "Write".to_owned(),
        "Bash".to_owned(),
        "Glob".to_owned(),
        "Grep".to_owned(),
        "Agent".to_owned(),
    ];
    assert(r.deep_view() =~= seq!["Read"@, "Edit"@, "Write"@, "Bash"@, "Glob"@, "Grep"@, "Agent"@]);
    r
}

} // verus!

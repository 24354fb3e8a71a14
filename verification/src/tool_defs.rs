//! Definitions (name, description, JSON schema of the input) of the
//! built-in tools, as sent to the model.

use vstd::prelude::*;

use crate::api::ToolDefinition;
use crate::text::str_eq;

verus! {

/// Description of the `Read` tool.
pub const READ_DESCRIPTION: &'static str = "Read a file from the filesystem. Returns the file content with line numbers. Image files (png, jpg, gif, webp) are returned as visual content so you can see and analyze them directly.";

/// JSON schema of the `Read` tool's input.
pub const READ_SCHEMA: &'static str = "{\"type\":\"object\",\"properties\":{\"file_path\":{\"type\":\"string\",\"description\":\"The absolute path to the file to read\"},\"offset\":{\"type\":\"integer\",\"description\":\"Line number to start reading from (1-based)\"},\"limit\":{\"type\":\"integer\",\"description\":\"Maximum number of lines to read\"}},\"required\":[\"file_path\"]}";

/// Description of the `Write` tool.
pub const WRITE_DESCRIPTION: &'static str = "Write content to a file, creating it if it doesn't exist or overwriting if it does.";

/// JSON schema of the `Write` tool's input.
pub const WRITE_SCHEMA: &'static str = "{\"type\":\"object\",\"properties\":{\"file_path\":{\"type\":\"string\",\"description\":\"The absolute path to the file to write\"},\"content\":{\"type\":\"string\",\"description\":\"The content to write to the file\"}},\"required\":[\"file_path\",\"content\"]}";

/// Description of the `Edit` tool.
pub const EDIT_DESCRIPTION: &'static str = "Perform exact string replacement in a file. The old_string must be unique in the file unless replace_all is true.";

/// JSON schema of the `Edit` tool's input.
pub const EDIT_SCHEMA: &'static str = "{\"type\":\"object\",\"properties\":{\"file_path\":{\"type\":\"string\",\"description\":\"The absolute path to the file to modify\"},\"old_string\":{\"type\":\"string\",\"description\":\"The text to find and replace\"},\"new_string\":{\"type\":\"string\",\"description\":\"The replacement text\"},\"replace_all\":{\"type\":\"boolean\",\"description\":\"Replace all occurrences (default: false)\"}},\"required\":[\"file_path\",\"old_string\",\"new_string\"]}";

/// Description of the `Bash` tool.
pub const BASH_DESCRIPTION: &'static str = "Execute a bash command and return its output. Use run_in_background for long-running processes like servers.";

/// JSON schema of the `Bash` tool's input.
pub const BASH_SCHEMA: &'static str = "{\"type\":\"object\",\"properties\":{\"command\":{\"type\":\"string\",\"description\":\"The bash command to execute\"},\"timeout\":{\"type\":\"integer\",\"description\":\"Timeout in milliseconds (default: 120000)\"},\"description\":{\"type\":\"string\",\"description\":\"Description of what the command does\"},\"run_in_background\":{\"type\":\"boolean\",\"description\":\"Run the command in the background. Use this for long-running processes like servers. Returns immediately with the PID.\"}},\"required\":[\"command\"]}";

/// Description of the `Glob` tool.
pub const GLOB_DESCRIPTION: &'static str = "Find files matching a glob pattern.";

/// JSON schema of the `Glob` tool's input.
pub const GLOB_SCHEMA: &'static str = "{\"type\":\"object\",\"properties\":{\"pattern\":{\"type\":\"string\",\"description\":\"The glob pattern to match (e.g., '**/*.rs')\"},\"path\":{\"type\":\"string\",\"description\":\"The directory to search in\"}},\"required\":[\"pattern\"]}";

/// Description of the `Grep` tool.
pub const GREP_DESCRIPTION: &'static str = "Search file contents using regular expressions.";

/// JSON schema of the `Grep` tool's input.
pub const GREP_SCHEMA: &'static str = "{\"type\":\"object\",\"properties\":{\"pattern\":{\"type\":\"string\",\"description\":\"The regex pattern to search for\"},\"path\":{\"type\":\"string\",\"description\":\"File or directory to search in\"},\"glob\":{\"type\":\"string\",\"description\":\"Glob pattern to filter files\"},\"type\":{\"type\":\"string\",\"description\":\"File type to search (e.g., 'rs', 'py')\"},\"output_mode\":{\"type\":\"string\",\"enum\":[\"content\",\"files_with_matches\",\"count\"],\"description\":\"Output mode (default: files_with_matches)\"},\"-i\":{\"type\":\"boolean\",\"description\":\"Case insensitive search\"},\"-n\":{\"type\":\"boolean\",\"description\":\"Show line numbers\"},\"-B\":{\"type\":\"integer\",\"description\":\"Lines to show before each match\"},\"-A\":{\"type\":\"integer\",\"description\":\"Lines to show after each match\"},\"-C\":{\"type\":\"integer\",\"description\":\"Lines of context around each match\"},\"head_limit\":{\"type\":\"integer\",\"description\":\"Limit output to first N entries\"}},\"required\":[\"pattern\"]}";

/// Description of the `Agent` tool.
pub const AGENT_DESCRIPTION: &'static str = "Launch a subagent to handle a complex, multi-step task autonomously.";

/// JSON schema of the `Agent` tool's input.
pub const AGENT_SCHEMA: &'static str = "{\"type\":\"object\",\"properties\":{\"description\":{\"type\":\"string\",\"description\":\"Short description of the task\"},\"prompt\":{\"type\":\"string\",\"description\":\"The task for the agent to perform\"},\"subagent_type\":{\"type\":\"string\",\"description\":\"The type of agent to use\"},\"model\":{\"type\":\"string\",\"enum\":[\"sonnet\",\"opus\",\"haiku\"],\"description\":\"Model override for this agent\"}},\"required\":[\"description\",\"prompt\",\"subagent_type\"]}";

/// Description of the `AskUserQuestion` tool.
pub const ASK_USER_QUESTION_DESCRIPTION: &'static str = "Ask the user a clarifying question with optional multiple choice options.";

/// JSON schema of the `AskUserQuestion` tool's input.
pub const ASK_USER_QUESTION_SCHEMA: &'static str = "{\"type\":\"object\",\"properties\":{\"questions\":{\"type\":\"array\",\"items\":{\"type\":\"object\",\"properties\":{\"question\":{\"type\":\"string\"},\"header\":{\"type\":\"string\"},\"options\":{\"type\":\"array\",\"items\":{\"type\":\"object\",\"properties\":{\"label\":{\"type\":\"string\"},\"description\":{\"type\":\"string\"}},\"required\":[\"label\",\"description\"]}},\"multiSelect\":{\"type\":\"boolean\"}},\"required\":[\"question\",\"header\",\"options\",\"multiSelect\"]}}},\"required\":[\"questions\"]}";

/// Description of the `TodoWrite` tool.
pub const TODO_WRITE_DESCRIPTION: &'static str = "Create and manage a structured task list for tracking progress.";

/// JSON schema of the `TodoWrite` tool's input.
pub const TODO_WRITE_SCHEMA: &'static str = "{\"type\":\"object\",\"properties\":{\"todos\":{\"type\":\"array\",\"items\":{\"type\":\"object\",\"properties\":{\"content\":{\"type\":\"string\"},\"status\":{\"type\":\"string\",\"enum\":[\"pending\",\"in_progress\",\"completed\"]},\"activeForm\":{\"type\":\"string\"}},\"required\":[\"content\",\"status\",\"activeForm\"]}}},\"required\":[\"todos\"]}";

/// The built-in tools that have a definition.
pub open spec fn has_definition(name: Seq<char>) -> bool {
    name == "Read"@
        || name == "Write"@
        || name == "Edit"@
        || name == "Bash"@
        || name == "Glob"@
        || name == "Grep"@
        || name == "Agent"@
        || name == "AskUserQuestion"@
        || name == "TodoWrite"@
}

/// The description of a built-in tool.
pub open spec fn tool_description(name: Seq<char>) -> Seq<char> {
    if name == "Read"@ {
        READ_DESCRIPTION@
    } else if name == "Write"@ {
        WRITE_DESCRIPTION@
    } else if name == "Edit"@ {
        EDIT_DESCRIPTION@
    } else if name == "Bash"@ {
        BASH_DESCRIPTION@
    } else if name == "Glob"@ {
        GLOB_DESCRIPTION@
    } else if name == "Grep"@ {
        GREP_DESCRIPTION@
    } else if name == "Agent"@ {
        AGENT_DESCRIPTION@
    } else if name == "AskUserQuestion"@ {
        ASK_USER_QUESTION_DESCRIPTION@
    } else if name == "TodoWrite"@ {
        TODO_WRITE_DESCRIPTION@
    } else {
        seq![]
    }
}

/// The input schema (JSON text) of a built-in tool.
pub open spec fn tool_schema(name: Seq<char>) -> Seq<char> {
    if name == "Read"@ {
        READ_SCHEMA@
    } else if name == "Write"@ {
        WRITE_SCHEMA@
    } else if name == "Edit"@ {
        EDIT_SCHEMA@
    } else if name == "Bash"@ {
        BASH_SCHEMA@
    } else if name == "Glob"@ {
        GLOB_SCHEMA@
    } else if name == "Grep"@ {
        GREP_SCHEMA@
    } else if name == "Agent"@ {
        AGENT_SCHEMA@
    } else if name == "AskUserQuestion"@ {
        ASK_USER_QUESTION_SCHEMA@
    } else if name == "TodoWrite"@ {
        TODO_WRITE_SCHEMA@
    } else {
        seq![]
    }
}

/// The definition of a built-in tool, if it has one.
pub open spec fn is_definition_of(name: Seq<char>, d: ToolDefinition) -> bool {
    &&& d.name@ == name
    &&& d.description@ == tool_description(name)
    &&& d.input_schema@ == tool_schema(name)
    &&& d.cache_control is None
}

fn definition(name: &str, description: &str, schema: &str) -> (d: ToolDefinition)
    ensures
        d.name@ == name@,
        d.description@ == description@,
        d.input_schema@ == schema@,
        d.cache_control is None,
{
    ToolDefinition {
        name: name.to_owned(),
        description: description.to_owned(),
        input_schema: schema.to_owned(),
        cache_control: None,
    }
}

/// Get the definition of a single built-in tool.
pub fn get_tool_definition(name: &str) -> (r: Option<ToolDefinition>)
    ensures
        r is Some <==> has_definition(name@),
        r matches Some(d) ==> is_definition_of(name@, d),
{

    if str_eq(name, "Read") {
        Some(definition("Read", READ_DESCRIPTION, READ_SCHEMA))
    } else if str_eq(name, "Write") {
        Some(definition("Write", WRITE_DESCRIPTION, WRITE_SCHEMA))
    } else if str_eq(name, "Edit") {
        Some(definition("Edit", EDIT_DESCRIPTION, EDIT_SCHEMA))
    } else if str_eq(name, "Bash") {
        Some(definition("Bash", BASH_DESCRIPTION, BASH_SCHEMA))
    } else if str_eq(name, "Glob") {
        Some(definition("Glob", GLOB_DESCRIPTION, GLOB_SCHEMA))
    } else if str_eq(name, "Grep") {
        Some(definition("Grep", GREP_DESCRIPTION, GREP_SCHEMA))
    } else if str_eq(name, "Agent") {
        Some(definition("Agent", AGENT_DESCRIPTION, AGENT_SCHEMA))
    } else if str_eq(name, "AskUserQuestion") {
        Some(definition("AskUserQuestion", ASK_USER_QUESTION_DESCRIPTION, ASK_USER_QUESTION_SCHEMA))
    } else if str_eq(name, "TodoWrite") {
        Some(definition("TodoWrite", TODO_WRITE_DESCRIPTION, TODO_WRITE_SCHEMA))
    } else {
        None
    }
}


/// The names that have a definition, in order.
pub open spec fn defined_names(names: Seq<String>) -> Seq<Seq<char>> {
    names.map_values(|n: String| n@).filter(|n: Seq<char>| has_definition(n))
}

/// Get the definitions of the named tools that are built in, in order;
/// other names are skipped.
pub fn get_tool_definitions(tool_names: &Vec<String>) -> (r: Vec<ToolDefinition>)
    ensures
        r@.len() == defined_names(tool_names@).len(),
        forall|i: int| 0 <= i < r@.len() ==> is_definition_of(defined_names(tool_names@)[i], #[trigger] r@[i]),
{
    let mut r: Vec<ToolDefinition> = Vec::new();
    let mut i: usize = 0;
    while i < tool_names.len()
        invariant
            0 <= i <= tool_names@.len(),
            r@.len() == defined_names(tool_names@.take(i as int)).len(),
            forall|j: int| 0 <= j < r@.len() ==> is_definition_of(defined_names(tool_names@.take(i as int))[j], #[trigger] r@[j]),
        decreases tool_names@.len() - i,
    {
        let ghost before = tool_names@.take(i as int);
        let ghost after = tool_names@.take(i + 1);
        proof {
            assert(after.map_values(|n: String| n@) =~= before.map_values(|n: String| n@).push(tool_names@[i as int]@));
            before.map_values(|n: String| n@).lemma_filter_push(tool_names@[i as int]@, |n: Seq<char>| has_definition(n));
        }
        match get_tool_definition(tool_names[i].as_str()) {
            Some(d) => {
                r.push(d);
            },
            None => {},
        }
        i = i + 1;
    }
    proof {
        assert(tool_names@.take(i as int) =~= tool_names@);
    }
    r
}

} // verus!

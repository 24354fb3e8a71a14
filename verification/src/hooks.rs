//! Hook inputs: what a hook is told about the event it runs for. JSON
//! payloads are held as JSON text.

use vstd::prelude::*;

verus! {

/// Fields common to every hook input.
#[derive(Debug, Clone)]
pub struct BaseHookInput {
    pub session_id: String,
    pub transcript_path: String,
    pub cwd: String,
    pub permission_mode: Option<String>,
    pub agent_id: Option<String>,
    pub agent_type: Option<String>,
}

/// How a session started.
#[derive(Debug, Clone, Copy, PartialEq, Eq, Structural)]
pub enum SessionStartSource {
    Startup,
    Resume,
    Clear,
    Compact,
}

/// What triggered a compaction hook.
#[derive(Debug, Clone, Copy, PartialEq, Eq, Structural)]
pub enum CompactTriggerType {
    Manual,
    Auto,
}

/// What triggered a setup hook.
#[derive(Debug, Clone, Copy, PartialEq, Eq, Structural)]
pub enum SetupTrigger {
    Init,
    Maintenance,
}

/// Where a configuration change came from.
#[derive(Debug, Clone, Copy, PartialEq, Eq, Structural)]
pub enum ConfigChangeSource {
    UserSettings,
    ProjectSettings,
    LocalSettings,
    PolicySettings,
    Skills,
}

/// Input passed to a hook, by event.
#[derive(Debug, Clone)]
pub enum HookInput {
    PreToolUse { base: BaseHookInput, tool_name: String, tool_input: String, tool_use_id: String },
    PostToolUse {
        base: BaseHookInput,
        tool_name: String,
        tool_input: String,
        tool_response: String,
        tool_use_id: String,
    },
    PostToolUseFailure {
        base: BaseHookInput,
        tool_name: String,
        tool_input: String,
        tool_use_id: String,
        error: String,
        is_interrupt: Option<bool>,
    },
    Notification { base: BaseHookInput, message: String, title: Option<String>, notification_type: String },
    UserPromptSubmit { base: BaseHookInput, prompt: String },
    SessionStart { base: BaseHookInput, source: SessionStartSource, model: Option<String> },
    SessionEnd { base: BaseHookInput, reason: String },
    Stop { base: BaseHookInput, stop_hook_active: bool, last_assistant_message: Option<String> },
    SubagentStart { base: BaseHookInput, agent_id: String, agent_type: String },
    SubagentStop {
        base: BaseHookInput,
        stop_hook_active: bool,
        agent_id: String,
        agent_transcript_path: String,
        agent_type: String,
        last_assistant_message: Option<String>,
    },
    PreCompact { base: BaseHookInput, trigger: CompactTriggerType, custom_instructions: Option<String> },
    /// `permission_suggestions` is JSON text.
    PermissionRequest {
        base: BaseHookInput,
        tool_name: String,
        tool_input: String,
        permission_suggestions: Option<String>,
    },
    Setup { base: BaseHookInput, trigger: SetupTrigger },
    TeammateIdle { base: BaseHookInput, teammate_name: String, team_name: String },
    TaskCompleted {
        base: BaseHookInput,
        task_id: String,
        task_subject: String,
        task_description: Option<String>,
        teammate_name: Option<String>,
        team_name: Option<String>,
    },
    ConfigChange { base: BaseHookInput, source: ConfigChangeSource, file_path: Option<String> },
    WorktreeCreate { base: BaseHookInput, name: String },
    WorktreeRemove { base: BaseHookInput, worktree_path: String },
}

/// The tool name of a tool-related hook input.
pub open spec fn hook_tool_name(h: HookInput) -> Option<Seq<char>> {
    match h {
        HookInput::PreToolUse { tool_name, .. } => Some(tool_name@),
        HookInput::PostToolUse { tool_name, .. } => Some(tool_name@),
        HookInput::PostToolUseFailure { tool_name, .. } => Some(tool_name@),
        HookInput::PermissionRequest { tool_name, .. } => Some(tool_name@),
        _ => None,
    }
}

/// The event name of a hook input.
pub open spec fn hook_event_name(h: HookInput) -> Seq<char> {
    match h {
        HookInput::PreToolUse { .. } => "PreToolUse"@,
        HookInput::PostToolUse { .. } => "PostToolUse"@,
        HookInput::PostToolUseFailure { .. } => "PostToolUseFailure"@,
        HookInput::Notification { .. } => "Notification"@,
        HookInput::UserPromptSubmit { .. } => "UserPromptSubmit"@,
        HookInput::SessionStart { .. } => "SessionStart"@,
        HookInput::SessionEnd { .. } => "SessionEnd"@,
        HookInput::Stop { .. } => "Stop"@,
        HookInput::SubagentStart { .. } => "SubagentStart"@,
        HookInput::SubagentStop { .. } => "SubagentStop"@,
        HookInput::PreCompact { .. } => "PreCompact"@,
        HookInput::PermissionRequest { .. } => "PermissionRequest"@,
        HookInput::Setup { .. } => "Setup"@,
        HookInput::TeammateIdle { .. } => "TeammateIdle"@,
        HookInput::TaskCompleted { .. } => "TaskCompleted"@,
        HookInput::ConfigChange { .. } => "ConfigChange"@,
        HookInput::WorktreeCreate { .. } => "WorktreeCreate"@,
        HookInput::WorktreeRemove { .. } => "WorktreeRemove"@,
    }
}

impl HookInput {
    /// The tool name, when this is a tool-related hook.
    pub fn tool_name(&self) -> (r: Option<&str>)
        ensures
            match r {
                Some(s) => hook_tool_name(*self) == Some(s@),
                None => hook_tool_name(*self) is None,
            },
    {
        match self {
            HookInput::PreToolUse { tool_name, .. } => Some(tool_name.as_str()),
            HookInput::PostToolUse { tool_name, .. } => Some(tool_name.as_str()),
            HookInput::PostToolUseFailure { tool_name, .. } => Some(tool_name.as_str()),
            HookInput::PermissionRequest { tool_name, .. } => Some(tool_name.as_str()),
            _ => None,
        }
    }

    /// The hook event name.
    pub fn event_name(&self) -> (r: &'static str)
        ensures
            r@ == hook_event_name(*self),
    {
        match self {
            HookInput::PreToolUse { .. } => "PreToolUse",
            HookInput::PostToolUse { .. } => "PostToolUse",
            HookInput::PostToolUseFailure { .. } => "PostToolUseFailure",
            HookInput::Notification { .. } => "Notification",
            HookInput::UserPromptSubmit { .. } => "UserPromptSubmit",
            HookInput::SessionStart { .. } => "SessionStart",
            HookInput::SessionEnd { .. } => "SessionEnd",
            HookInput::Stop { .. } => "Stop",
            HookInput::SubagentStart { .. } => "SubagentStart",
            HookInput::SubagentStop { .. } => "SubagentStop",
            HookInput::PreCompact { .. } => "PreCompact",
            HookInput::PermissionRequest { .. } => "PermissionRequest",
            HookInput::Setup { .. } => "Setup",
            HookInput::TeammateIdle { .. } => "TeammateIdle",
            HookInput::TaskCompleted { .. } => "TaskCompleted",
            HookInput::ConfigChange { .. } => "ConfigChange",
            HookInput::WorktreeCreate { .. } => "WorktreeCreate",
            HookInput::WorktreeRemove { .. } => "WorktreeRemove",
        }
    }
}

} // verus!

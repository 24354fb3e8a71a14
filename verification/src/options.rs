//! Query options that the library's logic reads.

use vstd::prelude::*;

use crate::api::{CacheControl, SystemBlock, ThinkingParam};
use crate::text::{cat, push_str};

verus! {

/// How tool permissions are decided.
#[derive(Debug, Clone, Copy, PartialEq, Eq, Structural)]
pub enum PermissionMode {
    /// Standard permission behavior.
    Default,
    /// Auto-accept file edits.
    AcceptEdits,
    /// Bypass all permission checks.
    BypassPermissions,
    /// Planning mode: no tool execution.
    Plan,
    /// Deny anything not pre-approved.
    DontAsk,
}

/// The name of a permission mode, as it is displayed and serialized.
pub open spec fn mode_name(m: PermissionMode) -> Seq<char> {
    match m {
        PermissionMode::Default => "default"@,
        PermissionMode::AcceptEdits => "acceptEdits"@,
        PermissionMode::BypassPermissions => "bypassPermissions"@,
        PermissionMode::Plan => "plan"@,
        PermissionMode::DontAsk => "dontAsk"@,
    }
}

impl PermissionMode {
    /// The displayed name of the mode.
    pub fn as_str(&self) -> (s: &'static str)
        ensures
            s@ == mode_name(*self),
    {
        match self {
            PermissionMode::Default => "default",
            PermissionMode::AcceptEdits => "acceptEdits",
            PermissionMode::BypassPermissions => "bypassPermissions",
            PermissionMode::Plan => "plan",
            PermissionMode::DontAsk => "dontAsk",
        }
    }
}

/// Effort level.
#[derive(Debug, Clone, Copy, PartialEq, Eq, Structural)]
pub enum Effort {
    Low,
    Medium,
    High,
    Max,
}

/// Where settings are loaded from.
#[derive(Debug, Clone, Copy, PartialEq, Eq, Structural)]
pub enum SettingSource {
    User,
    Project,
    Local,
}

/// Extended-thinking configuration.
#[derive(Debug, Clone, Copy, PartialEq, Eq, Structural)]
pub enum ThinkingConfig {
    Adaptive,
    Disabled,
    Enabled { budget_tokens: u64 },
}

/// The system prompt: custom text or a preset with optional appended text.
#[derive(Debug, Clone)]
pub enum SystemPrompt {
    Custom(String),
    Preset { prompt_type: String, preset: String, append: Option<String> },
}

#[derive(Debug, Clone, Copy)]
pub struct SandboxSettings {
    pub enabled: Option<bool>,
    pub allow_network: Option<bool>,
}

#[derive(Debug, Clone, Copy, PartialEq, Eq, Structural)]
pub enum PreviewFormat {
    Markdown,
    Html,
}

#[derive(Debug, Clone, Copy)]
pub struct AskUserQuestionConfig {
    pub preview_format: Option<PreviewFormat>,
}

#[derive(Debug, Clone, Copy)]
pub struct ToolConfig {
    pub ask_user_question: Option<AskUserQuestionConfig>,
}

#[derive(Debug, Clone)]
pub struct PluginConfig {
    pub plugin_type: String,
    pub path: String,
}

/// A tool defined by the host application; `input_schema` is JSON text.
#[derive(Debug, Clone)]
pub struct CustomToolDefinition {
    pub name: String,
    pub description: String,
    pub input_schema: String,
}

/// Thinking budget used when thinking is adaptive.
pub const ADAPTIVE_THINKING_BUDGET: u64 = 10240;

/// Default max tokens of a response.
pub const DEFAULT_MAX_TOKENS: u32 = 16384;

/// Thinking parameters sent for a thinking configuration.
pub fn thinking_param(tc: &ThinkingConfig) -> (p: ThinkingParam)
    ensures
        match *tc {
            ThinkingConfig::Adaptive => p.kind@ == "enabled"@ && p.budget_tokens == Some(
                ADAPTIVE_THINKING_BUDGET,
            ),
            ThinkingConfig::Disabled => p.kind@ == "disabled"@ && p.budget_tokens is None,
            ThinkingConfig::Enabled { budget_tokens } => p.kind@ == "enabled"@ && p.budget_tokens
                == Some(budget_tokens),
        },
{
    match tc {
        ThinkingConfig::Adaptive => ThinkingParam {
            kind: "enabled".to_owned(),
            budget_tokens: Some(ADAPTIVE_THINKING_BUDGET),
        },
        ThinkingConfig::Disabled => ThinkingParam { kind: "disabled".to_owned(), budget_tokens: None },
        ThinkingConfig::Enabled { budget_tokens } => ThinkingParam {
            kind: "enabled".to_owned(),
            budget_tokens: Some(*budget_tokens),
        },
    }
}

/// Max tokens of a request: the configured value (or the default), raised to
/// the thinking budget plus 8192 when a budget is set. The budget is taken
/// modulo 2^32, as a 32-bit conversion gives it.
pub open spec fn request_max_tokens(configured: Option<u32>, budget: Option<u64>) -> int {
    let base: int = match configured {
        Some(m) => m as int,
        None => DEFAULT_MAX_TOKENS as int,
    };
    match budget {
        Some(b) => {
            let want = (b % 0x1_0000_0000) + 8192;
            if want > base {
                want
            } else {
                base
            }
        },
        None => base,
    }
}

/// Compute max tokens of a request.
pub fn max_tokens_for(configured: Option<u32>, thinking: &Option<ThinkingParam>) -> (m: u32)
    requires
        match thinking {
            Some(tp) => match tp.budget_tokens {
                Some(b) => (b % 0x1_0000_0000) + 8192 <= u32::MAX,
                None => true,
            },
            None => true,
        },
    ensures
        m == request_max_tokens(
            configured,
            match thinking {
                Some(tp) => tp.budget_tokens,
                None => None,
            },
        ),
        match thinking {
            Some(tp) => match tp.budget_tokens {
                Some(b) => m >= (b % 0x1_0000_0000) + 8192,
                None => true,
            },
            None => true,
        },
        m >= match configured {
            Some(c) => c,
            None => 16384,
        },
{
    let base = match configured {
        Some(m) => m,
        None => DEFAULT_MAX_TOKENS,
    };
    match thinking {
        Some(tp) => match tp.budget_tokens {
            Some(b) => {
                let low = (b % 0x1_0000_0000) as u32;
                let want = low + 8192;
                if want > base {
                    want
                } else {
                    base
                }
            },
            None => base,
        },
        None => base,
    }
}

/// Text of the system prompt for the configured prompt, given the base
/// instructions used by presets and when no prompt is configured.
pub open spec fn system_prompt_text(p: Option<SystemPrompt>, base: Seq<char>) -> Seq<char> {
    match p {
        Some(SystemPrompt::Custom(s)) => s@,
        Some(SystemPrompt::Preset { append, .. }) => match append {
            Some(extra) => base + "\n\n"@ + extra@,
            None => base,
        },
        None => base,
    }
}

/// The system prompt block sent with every request: text with an ephemeral
/// cache marker.
pub fn system_block(prompt: &Option<SystemPrompt>, base: &str) -> (b: SystemBlock)
    ensures
        b.kind@ == "text"@,
        b.text@ == system_prompt_text(*prompt, base@),
        b.cache_control matches Some(cc) && cc.kind@ == "ephemeral"@,
{
    let text = match prompt {
        Some(SystemPrompt::Custom(s)) => s.clone(),
        Some(SystemPrompt::Preset { append, .. }) => match append {
            Some(extra) => {
                let mut t = cat(base, "\n\n");
                push_str(&mut t, extra.as_str());
                t
            },
            None => base.to_owned(),
        },
        None => base.to_owned(),
    };
    SystemBlock { kind: "text".to_owned(), text, cache_control: Some(CacheControl::ephemeral()) }
}

/// A request's max tokens always leave room for the thinking budget: with a
/// budget `b` it is at least `b` (taken modulo 2^32) plus 8192, so above the
/// budget itself; it is never below the configured value (16384 when none
/// is configured); and it is the smallest value with both properties.
/// Without a budget it is the configured value, or 16384.
pub proof fn lemma_max_tokens_cover_thinking(configured: Option<u32>, budget: Option<u64>)
    ensures
        ({
            let base: int = match configured {
                Some(m) => m as int,
                None => 16384,
            };
            let r = request_max_tokens(configured, budget);
            &&& r >= base
            &&& match budget {
                Some(b) => {
                    &&& r >= (b % 0x1_0000_0000) + 8192
                    &&& (b < 0x1_0000_0000 ==> r > b)
                    &&& (r == base || r == (b % 0x1_0000_0000) + 8192)
                },
                None => r == base,
            }
        }),
{
}

} // verus!

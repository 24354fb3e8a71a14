//! Subagent definitions.

use vstd::prelude::*;

verus! {

/// Model a subagent runs on.
#[derive(Debug, Clone, Copy, PartialEq, Eq, Structural)]
pub enum AgentModel {
    Sonnet,
    Opus,
    Haiku,
    Inherit,
}

/// An MCP server of a subagent: a name, or a configuration as JSON text.
#[derive(Debug, Clone)]
pub enum AgentMcpServerSpec {
    Name(String),
    Config(String),
}

/// Definition of a subagent.
#[derive(Debug, Clone)]
pub struct AgentDefinition {
    pub description: String,
    pub prompt: String,
    pub tools: Option<Vec<String>>,
    pub disallowed_tools: Option<Vec<String>>,
    pub model: Option<AgentModel>,
    pub mcp_servers: Option<Vec<AgentMcpServerSpec>>,
    pub skills: Option<Vec<String>>,
    pub max_turns: Option<u32>,
}

impl AgentDefinition {
    /// A definition with a description and a prompt and nothing else set.
    pub fn new(description: String, prompt: String) -> (d: AgentDefinition)
        ensures
            d.description == description,
            d.prompt == prompt,
            d.tools is None,
            d.disallowed_tools is None,
            d.model is None,
            d.mcp_servers is None,
            d.skills is None,
            d.max_turns is None,
    {
        AgentDefinition {
            description,
            prompt,
            tools: None,
            disallowed_tools: None,
            model: None,
            mcp_servers: None,
            skills: None,
            max_turns: None,
        }
    }

    pub fn with_tools(self, tools: Vec<String>) -> (d: AgentDefinition)
        ensures
            d == (AgentDefinition { tools: Some(tools), ..self }),
    {
        AgentDefinition { tools: Some(tools), ..self }
    }

    pub fn with_model(self, model: AgentModel) -> (d: AgentDefinition)
        ensures
            d == (AgentDefinition { model: Some(model), ..self }),
    {
        AgentDefinition { model: Some(model), ..self }
    }

    pub fn with_max_turns(self, max_turns: u32) -> (d: AgentDefinition)
        ensures
            d == (AgentDefinition { max_turns: Some(max_turns), ..self }),
    {
        AgentDefinition { max_turns: Some(max_turns), ..self }
    }
}

/// Isolation of a subagent.
#[derive(Debug, Clone, Copy, PartialEq, Eq, Structural)]
pub enum AgentIsolation {
    Worktree,
}

/// Input of the Agent tool.
#[derive(Debug, Clone)]
pub struct AgentInput {
    pub description: String,
    pub prompt: String,
    pub subagent_type: String,
    pub model: Option<AgentModel>,
    pub resume: Option<String>,
    pub run_in_background: Option<bool>,
    pub max_turns: Option<u32>,
    pub name: Option<String>,
    pub isolation: Option<AgentIsolation>,
}

} // verus!

//! Verified core of an agent runtime: conversation management, permission
//! rules, tool-output shaping and configuration logic.

pub mod text;
pub mod tools;
pub mod api;
pub mod compact;
pub mod messages;
pub mod conversation;
pub mod options;
pub mod permissions;
pub mod string_map;
pub mod mcp;
pub mod hooks;
pub mod tool_inputs;
pub mod agent;
pub mod config;
pub mod session;
pub mod migrate;
pub mod executor;
pub mod stream;
pub mod sanitize;
pub mod telegram;
pub mod tool_defs;
pub mod agent_loop;
pub mod orion;
pub mod gateway;
pub mod sse;
pub mod openai;
pub mod gemini;
pub mod providers;
pub mod cron;
pub mod catalog;
pub mod grep;

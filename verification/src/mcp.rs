//! MCP server configurations for the three transports.

use vstd::prelude::*;

use crate::string_map::StringMap;

verus! {

/// stdio MCP server: a local process spoken to over stdin/stdout.
#[derive(Debug)]
pub struct McpStdioServerConfig {
    pub command: String,
    pub args: Vec<String>,
    pub env: StringMap,
}

/// SSE MCP server.
#[derive(Debug)]
pub struct McpSseServerConfig {
    pub url: String,
    pub headers: StringMap,
}

/// HTTP MCP server.
#[derive(Debug)]
pub struct McpHttpServerConfig {
    pub url: String,
    pub headers: StringMap,
}

/// Configuration of an MCP server, by transport.
#[derive(Debug)]
pub enum McpServerConfig {
    Stdio(McpStdioServerConfig),
    Sse(McpSseServerConfig),
    Http(McpHttpServerConfig),
}

impl McpServerConfig {
    /// A stdio server running `command`, with no arguments or environment.
    pub fn stdio(command: String) -> (c: McpServerConfig)
        ensures
            c matches McpServerConfig::Stdio(s) && s.command == command && s.args@.len() == 0
                && s.env@ == Map::<Seq<char>, Seq<char>>::empty(),
    {
        McpServerConfig::Stdio(McpStdioServerConfig::new(command))
    }

    /// An SSE server at `url`, with no headers.
    pub fn sse(url: String) -> (c: McpServerConfig)
        ensures
            c matches McpServerConfig::Sse(s) && s.url == url
                && s.headers@ == Map::<Seq<char>, Seq<char>>::empty(),
    {
        McpServerConfig::Sse(McpSseServerConfig::new(url))
    }

    /// An HTTP server at `url`, with no headers.
    pub fn http(url: String) -> (c: McpServerConfig)
        ensures
            c matches McpServerConfig::Http(s) && s.url == url
                && s.headers@ == Map::<Seq<char>, Seq<char>>::empty(),
    {
        McpServerConfig::Http(McpHttpServerConfig::new(url))
    }
}

impl McpStdioServerConfig {
    pub fn new(command: String) -> (c: McpStdioServerConfig)
        ensures
            c.command == command,
            c.args@.len() == 0,
            c.env@ == Map::<Seq<char>, Seq<char>>::empty(),
    {
        McpStdioServerConfig { command, args: Vec::new(), env: StringMap::new() }
    }

    /// Replace the argument list.
    pub fn with_args(self, args: Vec<String>) -> (c: McpStdioServerConfig)
        ensures
            c.command == self.command,
            c.args == args,
            c.env@ == self.env@,
    {
        McpStdioServerConfig { command: self.command, args, env: self.env }
    }

    /// Set one environment variable.
    pub fn with_env(self, key: String, value: String) -> (c: McpStdioServerConfig)
        ensures
            c.command == self.command,
            c.args == self.args,
            c.env@ == self.env@.insert(key@, value@),
    {
        let mut c = self;
        c.env.insert(key, value);
        c
    }
}

impl McpSseServerConfig {
    pub fn new(url: String) -> (c: McpSseServerConfig)
        ensures
            c.url == url,
            c.headers@ == Map::<Seq<char>, Seq<char>>::empty(),
    {
        McpSseServerConfig { url, headers: StringMap::new() }
    }

    /// Set one header.
    pub fn with_header(self, key: String, value: String) -> (c: McpSseServerConfig)
        ensures
            c.url == self.url,
            c.headers@ == self.headers@.insert(key@, value@),
    {
        let mut c = self;
        c.headers.insert(key, value);
        c
    }
}

impl McpHttpServerConfig {
    pub fn new(url: String) -> (c: McpHttpServerConfig)
        ensures
            c.url == url,
            c.headers@ == Map::<Seq<char>, Seq<char>>::empty(),
    {
        McpHttpServerConfig { url, headers: StringMap::new() }
    }

    /// Set one header.
    pub fn with_header(self, key: String, value: String) -> (c: McpHttpServerConfig)
        ensures
            c.url == self.url,
            c.headers@ == self.headers@.insert(key@, value@),
    {
        let mut c = self;
        c.headers.insert(key, value);
        c
    }
}

} // verus!

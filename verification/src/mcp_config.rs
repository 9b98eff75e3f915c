//! Per-workspace MCP-server configuration: a static, file-based
//! collaborator. The shell reads and parses the optional `.mcp.json`
//! in a space directory; the rule decided here is what a missing file
//! means.

use vstd::prelude::*;

verus! {

/// One configured MCP server.
#[derive(Debug, Clone)]
pub struct McpServerConfig {
    pub name: String,
    pub command: String,
    pub args: Vec<String>,
    pub env: Vec<(String, String)>,
}

/// The configuration for one space.
#[derive(Debug, Clone)]
pub struct McpConfig {
    pub mcp_servers: Vec<McpServerConfig>,
}

impl McpConfig {
    /// The empty configuration: no servers.
    pub fn empty() -> (r: McpConfig)
        ensures
            r.mcp_servers@ == Seq::<McpServerConfig>::empty(),
    {
        McpConfig { mcp_servers: Vec::new() }
    }

    /// The configuration a space uses: what its `.mcp.json` held, or no
    /// servers at all when the space has no such file — a space without
    /// configuration is fine.
    pub fn load_from_space(config_file: Option<McpConfig>) -> (r: McpConfig)
        ensures
            match config_file {
                Some(c) => r == c,
                None => r.mcp_servers@ == Seq::<McpServerConfig>::empty(),
            },
    {
        match config_file {
            Some(c) => c,
            None => McpConfig::empty(),
        }
    }
}

} // verus!

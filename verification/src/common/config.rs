//! Configuration shared by all the servers.

use vstd::prelude::*;
use std::collections::HashMap;

verus! {

/// How the server talks to its client.
#[derive(PartialEq, Eq, Structural, Clone, Copy)]
pub enum TransportMode {
    Stdio,
    Sse,
}

impl Default for TransportMode {
    fn default() -> (r: Self)
        ensures
            r == TransportMode::Stdio,
    {
        TransportMode::Stdio
    }
}

/// Response cache settings.
pub struct CacheConfig {
    /// Maximum number of cached entries.
    pub max_entries: u64,
    /// Default time to live of a cached response, in seconds.
    pub ttl_seconds: u64,
    /// Per-tool time-to-live overrides (tool name to seconds).
    pub tool_ttls: Option<HashMap<String, u64>>,
}

/// Default maximum number of cached entries.
pub fn default_max_entries() -> (r: u64)
    ensures
        r == 1000,
{
    1000
}

/// Default time to live of a cached response, in seconds.
pub fn default_ttl_seconds() -> (r: u64)
    ensures
        r == 60,
{
    60
}

impl Default for CacheConfig {
    fn default() -> (r: Self)
        ensures
            r.max_entries == 1000,
            r.ttl_seconds == 60,
            r.tool_ttls is None,
    {
        CacheConfig { max_entries: default_max_entries(), ttl_seconds: default_ttl_seconds(), tool_ttls: None }
    }
}

/// Settings common to every server.
pub struct ServerConfig {
    /// Transport mode: stdio or sse.
    pub transport: TransportMode,
    /// Bind address for the SSE transport (ignored with stdio).
    pub listen_addr: Option<String>,
    /// Cache settings.
    pub cache: CacheConfig,
    /// Log level (trace, debug, info, warn, error).
    pub log_level: Option<String>,
}

} // verus!

//! Transport layer — stdio, SSE, HTTP.
use vstd::prelude::*;

verus! {

/// How the MCP server talks to its client.
#[derive(Debug, Clone, Copy, PartialEq, Eq)]
pub enum Transport {
    Stdio,
    Sse,
    Http,
}

} // verus!

//! Command-line commands: the checks made before the MCP server starts, and
//! the errors of the commands.
use vstd::prelude::*;
use vstd::string::*;
use crate::filesystem::{path_exists, path_is_dir};
use crate::text::str_equal;

verus! {

/// Why the MCP server command refused to start.
#[derive(Debug, PartialEq)]
pub enum McpCommandError {
    UnsupportedTransport(String),
    ProjectNotFound(String),
    NotADirectory(String),
}

/// The message of an MCP command error.
pub open spec fn mcp_error_text(e: McpCommandError) -> Seq<char> {
    match e {
        McpCommandError::UnsupportedTransport(t) => "unsupported transport: "@ + t@
            + " (supported: stdio, sse)"@,
        McpCommandError::ProjectNotFound(p) => "project not found: "@ + p@,
        McpCommandError::NotADirectory(p) => "project path is not a directory: "@ + p@,
    }
}

impl McpCommandError {
    /// The message of the error.
    pub fn message(&self) -> (m: String)
        ensures
            m@ == mcp_error_text(*self),
    {
        match self {
            McpCommandError::UnsupportedTransport(t) => {
                let mut m = String::from_str("unsupported transport: ");
                m.append(t.as_str());
                m.append(" (supported: stdio, sse)");
                m
            },
            McpCommandError::ProjectNotFound(p) => {
                let mut m = String::from_str("project not found: ");
                m.append(p.as_str());
                m
            },
            McpCommandError::NotADirectory(p) => {
                let mut m = String::from_str("project path is not a directory: ");
                m.append(p.as_str());
                m
            },
        }
    }
}

/// The transports the server can be started on.
pub open spec fn supported_transport(t: Seq<char>) -> bool {
    t == "stdio"@ || t == "sse"@
}

/// The start checks, given what the file system says of the project path:
/// an unsupported transport is refused first; then a project path, when one
/// is given, must exist (`exists`) and be a directory (`is_dir`).
pub fn check_start_with(project: Option<&str>, transport: &str, exists: bool, is_dir: bool) -> (res: Result<(), McpCommandError>)
    ensures
        !supported_transport(transport@) ==> (res matches Err(McpCommandError::UnsupportedTransport(t)) && t@ == transport@),
        supported_transport(transport@) && project is None ==> res is Ok,
        project matches Some(p) ==> (supported_transport(transport@) ==> {
            &&& !exists ==> (res matches Err(McpCommandError::ProjectNotFound(q)) && q@ == p@)
            &&& exists && !is_dir ==> (res matches Err(McpCommandError::NotADirectory(q)) && q@ == p@)
            &&& exists && is_dir ==> res is Ok
        }),
{
    if !str_equal(transport, "stdio") && !str_equal(transport, "sse") {
        return Err(McpCommandError::UnsupportedTransport(transport.to_owned()));
    }
    match project {
        None => Ok(()),
        Some(p) => {
            if !exists {
                Err(McpCommandError::ProjectNotFound(p.to_owned()))
            } else if !is_dir {
                Err(McpCommandError::NotADirectory(p.to_owned()))
            } else {
                Ok(())
            }
        },
    }
}

/// The checks made before the MCP server starts: the transport must be
/// `stdio` or `sse`, and a project path, when one is given, must exist and be
/// a directory. Whether it does is the file system's answer, so for a project
/// path the contract says only which path an error names.
pub fn check_start(project: Option<&str>, transport: &str) -> (res: Result<(), McpCommandError>)
    ensures
        !supported_transport(transport@) ==> (res matches Err(McpCommandError::UnsupportedTransport(t)) && t@ == transport@),
        supported_transport(transport@) && project is None ==> res is Ok,
        project matches Some(p) ==> (supported_transport(transport@) ==> match res {
            Ok(()) => true,
            Err(McpCommandError::ProjectNotFound(q)) => q@ == p@,
            Err(McpCommandError::NotADirectory(q)) => q@ == p@,
            Err(McpCommandError::UnsupportedTransport(_)) => false,
        }),
{
    if !str_equal(transport, "stdio") && !str_equal(transport, "sse") {
        return Err(McpCommandError::UnsupportedTransport(transport.to_owned()));
    }
    match project {
        None => Ok(()),
        Some(p) => {
            let exists = path_exists(p);
            let is_dir = exists && path_is_dir(p);
            check_start_with(project, transport, exists, is_dir)
        },
    }
}

/// Why the setup command failed.
#[derive(Debug, PartialEq)]
pub enum SetupError {
    NotAProject(String),
    IoError(String),
}

/// The message of a setup error.
pub open spec fn setup_error_text(e: SetupError) -> Seq<char> {
    match e {
        SetupError::NotAProject(p) => "not a valid project directory: "@ + p@,
        SetupError::IoError(m) => "IO error: "@ + m@,
    }
}

impl SetupError {
    /// The message of the error.
    pub fn message(&self) -> (m: String)
        ensures
            m@ == setup_error_text(*self),
    {
        match self {
            SetupError::NotAProject(p) => {
                let mut m = String::from_str("not a valid project directory: ");
                m.append(p.as_str());
                m
            },
            SetupError::IoError(e) => {
                let mut m = String::from_str("IO error: ");
                m.append(e.as_str());
                m
            },
        }
    }
}

} // verus!

//! Agent execution context — current project and mode.
use vstd::prelude::*;
use crate::mode::AgentMode;
use crate::project::Project;

verus! {

/// The context an agent works in.
pub struct AgentContext {
    pub project: Option<Project>,
    pub mode: AgentMode,
}

impl AgentContext {
    /// A context with no project, in the default mode (`Code`).
    pub fn new() -> (c: Self)
        ensures
            c.project is None,
            c.mode == AgentMode::Code,
    {
        AgentContext { project: None, mode: AgentMode::default() }
    }
}

} // verus!

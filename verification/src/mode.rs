//! Agent modes — current operational mode (code, chat, plan, etc.).
use vstd::prelude::*;

verus! {

/// The agent's operational mode.
#[derive(Debug, Clone, Copy, PartialEq, Eq)]
pub enum AgentMode {
    Code,
    Chat,
    Plan,
}

impl Default for AgentMode {
    /// Agents start in `Code` mode.
    fn default() -> (m: Self)
        ensures
            m == AgentMode::Code,
    {
        AgentMode::Code
    }
}

} // verus!

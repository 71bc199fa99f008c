//! Serena configuration.
use vstd::prelude::*;

verus! {

/// Serena's global configuration. It carries no settings yet; it marks the
/// place where loaded configuration is handed to the agent.
#[derive(Debug, Clone, PartialEq)]
pub struct SerenaConfig {}

impl SerenaConfig {
    /// The default configuration.
    pub fn new() -> (c: Self) {
        SerenaConfig {  }
    }
}

} // verus!

//! Symbol-level code editing, project and memory bookkeeping, and the text
//! utilities of a coding-agent toolkit, with their contracts.
use vstd::prelude::*;

pub mod agent;
pub mod catalog;
pub mod commands;
pub mod config;
pub mod context;
pub mod editor;
mod filesystem;
pub mod lsp_session;
pub mod memory;
pub mod mode;
pub mod project;
pub mod transport;
pub mod namemap;
pub mod paths;
pub mod pattern;
pub mod provider;
pub mod setup;
pub mod sorting;
pub mod symbol;
pub mod text;
pub mod tools;
pub mod util;

verus! {
} // verus!

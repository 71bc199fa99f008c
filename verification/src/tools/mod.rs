//! The tools an agent calls: files, search, shell, memories, configuration
//! and symbols. Each module holds the decisions of its tools; reading and
//! writing files, running processes and talking to language servers is the
//! application's part.
pub mod config_tools;
pub mod file_tools;
pub mod memory_tools;
pub mod search_tools;
pub mod shell_tools;
pub mod symbol_tools;

//! Core agent orchestration — ties config, project, and memory together.
use vstd::prelude::*;
use vstd::string::*;
use crate::config::SerenaConfig;
use crate::memory::{MemoryManager, MemoryStore};
use crate::project::{opening, OpenError, Project};

verus! {

/// The central orchestrator: configuration, the active project, if any, and
/// the memory manager.
pub struct SerenaAgent {
    pub config: SerenaConfig,
    pub project: Option<Project>,
    pub memory: MemoryManager,
}

/// Where the agent keeps its memories, relative to the working directory.
pub open spec fn default_memory_base() -> Seq<char> {
    ".serena/memories"@
}

impl SerenaAgent {
    /// An agent with the given configuration, no active project, and memories
    /// kept under `.serena/memories`.
    pub fn new(config: SerenaConfig) -> (a: Self)
        ensures
            a.config == config,
            a.project is None,
            a.memory.store_view().base_view() == default_memory_base(),
    {
        let store = MemoryStore::new(String::from_str(".serena/memories"));
        SerenaAgent { config, project: None, memory: MemoryManager::new(store) }
    }

    /// Make `opened`, the outcome of opening a project, the active project:
    /// a project that opened replaces the active one; after a failure the
    /// active project stays as it was. Configuration and memories are kept.
    pub fn activate_opened(&mut self, opened: Result<Project, OpenError>)
        ensures
            final(self).config == old(self).config,
            final(self).memory == old(self).memory,
            final(self).project == match opened {
                Ok(p) => Some(p),
                Err(_) => old(self).project,
            },
    {
        match opened {
            Ok(p) => {
                self.project = Some(p);
            },
            Err(_) => {},
        }
    }

    /// Activate the project at `path`: it is opened (its path resolved to the
    /// canonical form, which must be a directory) and becomes the active
    /// project. When it cannot be opened, the active project stays as it was.
    /// Configuration and memories are kept.
    ///
    /// Whether the path resolves, and to what, is the file system's answer, so
    /// the contract says only that the active project afterwards is the one
    /// before or a project rooted at a resolved directory, as
    /// `Project::from_canonical` gives it.
    pub fn activate_project(&mut self, path: &str)
        ensures
            final(self).config == old(self).config,
            final(self).memory == old(self).memory,
            final(self).project == old(self).project || (final(self).project matches Some(p)
                && exists|c: Seq<char>| #[trigger] opening(c, true) == Ok::<Seq<char>, Seq<char>>(p.root_view())),
    {
        let opened = Project::open(path);
        proof {
            if opened is Ok {
                let c = opened->Ok_0.root_view();
                assert(opening(c, true) == Ok::<Seq<char>, Seq<char>>(c));
            }
        }
        self.activate_opened(opened);
    }
}

} // verus!

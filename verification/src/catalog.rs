//! The catalogue of built-in tools that the MCP server offers, and the
//! decoding of a tool call's arguments into a typed request.
//!
//! Each tool has a name, a description and the parameters of its input
//! schema. A call names a tool and carries JSON arguments; decoding checks the
//! required parameters in schema order, reporting the first that is missing,
//! and reads the optional ones.
use vstd::prelude::*;
use vstd::string::*;
use crate::namemap::NameMap;
use crate::provider::opt_view;
use crate::text::str_equal;

verus! {

/// The JSON type a tool parameter takes.
#[derive(Debug, Clone, Copy, PartialEq, Eq, Structural)]
pub enum ParamKind {
    Str,
    Integer,
    Boolean,
    Array,
    /// Any JSON value.
    Any,
}

/// A parameter of a tool's input schema.
#[derive(Debug, Clone)]
pub struct ParamSpec {
    pub name: String,
    pub kind: ParamKind,
    pub description: String,
    pub required: bool,
}

/// A tool: its name, description and parameters.
#[derive(Debug, Clone)]
pub struct ToolSpec {
    pub name: String,
    pub description: String,
    pub params: Vec<ParamSpec>,
}

/// A parameter as (name, kind, description, required).
pub type ParamView = (Seq<char>, ParamKind, Seq<char>, bool);

/// A tool as (name, description, parameters).
pub type ToolView = (Seq<char>, Seq<char>, Seq<ParamView>);

impl View for ParamSpec {
    type V = ParamView;

    open spec fn view(&self) -> ParamView {
        (self.name@, self.kind, self.description@, self.required)
    }
}

impl View for ToolSpec {
    type V = ToolView;

    open spec fn view(&self) -> ToolView {
        (self.name@, self.description@, self.params@.map_values(|p: ParamSpec| p@))
    }
}

fn param(name: &str, kind: ParamKind, description: &str, required: bool) -> (p: ParamSpec)
    ensures
        p@ == (name@, kind, description@, required),
{
    ParamSpec { name: name.to_owned(), kind, description: description.to_owned(), required }
}

fn tool(name: &str, description: &str, params: Vec<ParamSpec>) -> (t: ToolSpec)
    ensures
        t@ == (name@, description@, params@.map_values(|p: ParamSpec| p@)),
{
    ToolSpec { name: name.to_owned(), description: description.to_owned(), params }
}

/// The built-in tools, in the order they are registered.
pub open spec fn builtin_tools() -> Seq<ToolView> {
    seq![
        ("get_symbols"@, "Get all symbols (functions, classes, variables, etc.) from a source file using the appropriate language server"@, seq![
            ("file_path"@, ParamKind::Str, "Path to the source file"@, true),
            ("text"@, ParamKind::Str, "Optional file content to send to the LSP server"@, false),
        ]),
        ("find_symbol"@, "Find symbols matching a query in a source file using the appropriate language server"@, seq![
            ("file_path"@, ParamKind::Str, "Path to the source file"@, true),
            ("query"@, ParamKind::Str, "Symbol name or pattern to search for"@, true),
            ("text"@, ParamKind::Str, "Optional file content"@, false),
        ]),
        ("list_symbols"@, "List all symbols in a file as a flat list with hierarchy"@, seq![
            ("file_path"@, ParamKind::Str, "Path to the source file"@, true),
            ("text"@, ParamKind::Str, "Optional file content"@, false),
        ]),
        ("read_file"@, "Read the entire contents of a file as text"@, seq![
            ("file_path"@, ParamKind::Str, "Absolute path to the file to read"@, true),
        ]),
        ("list_dir"@, "List all entries (files, directories, symlinks) in a directory"@, seq![
            ("dir_path"@, ParamKind::Str, "Path to the directory to list"@, true),
        ]),
        ("find_file"@, "Find files matching a pattern in a directory tree (supports *.rs suffix patterns)"@, seq![
            ("dir_path"@, ParamKind::Str, "Root directory to search in"@, true),
            ("pattern"@, ParamKind::Str, "File pattern (e.g. *.rs, test* or exact name)"@, true),
        ]),
        ("replace_content"@, "Search and replace text in a file (simple string replacement, not regex)"@, seq![
            ("file_path"@, ParamKind::Str, "Path to the file to modify"@, true),
            ("search"@, ParamKind::Str, "Text to search for"@, true),
            ("replacement"@, ParamKind::Str, "Text to replace matches with"@, true),
        ]),
        ("search_for_pattern"@, "Search file contents for a regex pattern and return matching lines"@, seq![
            ("file_path"@, ParamKind::Str, "Path to the file to search in"@, true),
            ("pattern"@, ParamKind::Str, "Regex pattern to search for"@, true),
        ]),
        ("execute_shell_command"@, "Execute a shell command and return stdout, stderr, and exit code"@, seq![
            ("command"@, ParamKind::Str, "Shell command to execute"@, true),
        ]),
        ("write_memory"@, "Store a persistent memory with a tag and content. Returns the generated memory id."@, seq![
            ("tag"@, ParamKind::Str, "Semantic tag/category for the memory"@, true),
            ("content"@, ParamKind::Str, "Memory content to store"@, true),
        ]),
        ("read_memory"@, "Read a stored memory by its id"@, seq![
            ("id"@, ParamKind::Str, "Memory id to retrieve"@, true),
        ]),
        ("search_memories"@, "Search stored memories by tag (empty tag returns all)"@, seq![
            ("tag"@, ParamKind::Str, "Tag to search for (empty string returns all)"@, true),
        ]),
        ("delete_memory"@, "Delete a stored memory by its id"@, seq![
            ("id"@, ParamKind::Str, "Memory id to delete"@, true),
        ]),
        ("get_config"@, "Get a configuration value by key"@, seq![
            ("key"@, ParamKind::Str, "Configuration key to retrieve"@, true),
        ]),
        ("set_config"@, "Set a configuration value"@, seq![
            ("key"@, ParamKind::Str, "Configuration key to set"@, true),
            ("value"@, ParamKind::Any, "Value to store (any JSON type)"@, true),
        ]),
        ("list_config"@, "List all configuration keys and values"@, seq![
        ]),
        ("get_definition"@, "Get the definition location of a symbol at a given position in a file using the language server"@, seq![
            ("file_path"@, ParamKind::Str, "Path to the source file"@, true),
            ("line"@, ParamKind::Integer, "Line number (0-indexed)"@, true),
            ("column"@, ParamKind::Integer, "Column number (0-indexed)"@, true),
            ("text"@, ParamKind::Str, "Optional file content to send to the LSP server"@, false),
        ]),
        ("find_references"@, "Find all references to a symbol at a given position"@, seq![
            ("file_path"@, ParamKind::Str, "Path to the source file"@, true),
            ("line"@, ParamKind::Integer, "Line number (0-indexed)"@, true),
            ("column"@, ParamKind::Integer, "Column number (0-indexed)"@, true),
            ("include_declaration"@, ParamKind::Boolean, "Whether to include the declaration site"@, false),
            ("text"@, ParamKind::Str, "Optional file content to send to the LSP server"@, false),
        ]),
        ("get_hover"@, "Get hover information (type signature, docs) for a symbol at a given position"@, seq![
            ("file_path"@, ParamKind::Str, "Path to the source file"@, true),
            ("line"@, ParamKind::Integer, "Line number (0-indexed)"@, true),
            ("column"@, ParamKind::Integer, "Column number (0-indexed)"@, true),
            ("text"@, ParamKind::Str, "Optional file content to send to the LSP server"@, false),
        ]),
        ("get_completion"@, "Get code completion items at a given position"@, seq![
            ("file_path"@, ParamKind::Str, "Path to the source file"@, true),
            ("line"@, ParamKind::Integer, "Line number (0-indexed)"@, true),
            ("column"@, ParamKind::Integer, "Column number (0-indexed)"@, true),
            ("text"@, ParamKind::Str, "Optional file content to send to the LSP server"@, false),
        ]),
        ("get_diagnostics"@, "Get diagnostics (errors, warnings) for a file from the language server"@, seq![
            ("file_path"@, ParamKind::Str, "Path to the source file"@, true),
            ("text"@, ParamKind::Str, "Optional file content to send to the LSP server"@, false),
        ]),
        ("rename_symbol"@, "Rename a symbol at a given position across the entire workspace"@, seq![
            ("file_path"@, ParamKind::Str, "Path to the source file"@, true),
            ("line"@, ParamKind::Integer, "Line number (0-indexed)"@, true),
            ("column"@, ParamKind::Integer, "Column number (0-indexed)"@, true),
            ("new_name"@, ParamKind::Str, "New name for the symbol"@, true),
            ("text"@, ParamKind::Str, "Optional file content to send to the LSP server"@, false),
        ]),
        ("apply_code_action"@, "Execute a code action or workspace command (e.g. quick-fix, refactoring)"@, seq![
            ("command"@, ParamKind::Str, "Command identifier to execute"@, true),
            ("arguments"@, ParamKind::Array, "Arguments for the command"@, false),
        ]),
        ("format_code"@, "Format a document using the language server's document formatting"@, seq![
            ("file_path"@, ParamKind::Str, "Path to the source file to format"@, true),
            ("text"@, ParamKind::Str, "Optional file content to send to the LSP server"@, false),
        ]),
        ("serena_info"@, "Get information about the Serena MCP server, available tools, and version"@, seq![
        ]),
    ]
}

/// Built-in tools 1 to 5 of the catalogue.
fn builtin_group_0(v: &mut Vec<ToolSpec>)
    ensures
        final(v)@.map_values(|t: ToolSpec| t@) == old(v)@.map_values(|t: ToolSpec| t@) + builtin_tools().subrange(0, 5),
{
    let ghost before = v@.map_values(|t: ToolSpec| t@);
    v.push(tool(
        "get_symbols",
        "Get all symbols (functions, classes, variables, etc.) from a source file using the appropriate language server",
        vec![
            param("file_path", ParamKind::Str, "Path to the source file", true),
            param("text", ParamKind::Str, "Optional file content to send to the LSP server", false),
        ],
    ));
    v.push(tool(
        "find_symbol",
        "Find symbols matching a query in a source file using the appropriate language server",
        vec![
            param("file_path", ParamKind::Str, "Path to the source file", true),
            param("query", ParamKind::Str, "Symbol name or pattern to search for", true),
            param("text", ParamKind::Str, "Optional file content", false),
        ],
    ));
    v.push(tool(
        "list_symbols",
        "List all symbols in a file as a flat list with hierarchy",
        vec![
            param("file_path", ParamKind::Str, "Path to the source file", true),
            param("text", ParamKind::Str, "Optional file content", false),
        ],
    ));
    v.push(tool(
        "read_file",
        "Read the entire contents of a file as text",
        vec![
            param("file_path", ParamKind::Str, "Absolute path to the file to read", true),
        ],
    ));
    v.push(tool(
        "list_dir",
        "List all entries (files, directories, symlinks) in a directory",
        vec![
            param("dir_path", ParamKind::Str, "Path to the directory to list", true),
        ],
    ));
    assert(v@.map_values(|t: ToolSpec| t@) =~~= before + builtin_tools().subrange(0, 5));
}

/// Built-in tools 6 to 10 of the catalogue.
fn builtin_group_1(v: &mut Vec<ToolSpec>)
    ensures
        final(v)@.map_values(|t: ToolSpec| t@) == old(v)@.map_values(|t: ToolSpec| t@) + builtin_tools().subrange(5, 10),
{
    let ghost before = v@.map_values(|t: ToolSpec| t@);
    v.push(tool(
        "find_file",
        "Find files matching a pattern in a directory tree (supports *.rs suffix patterns)",
        vec![
            param("dir_path", ParamKind::Str, "Root directory to search in", true),
            param("pattern", ParamKind::Str, "File pattern (e.g. *.rs, test* or exact name)", true),
        ],
    ));
    v.push(tool(
        "replace_content",
        "Search and replace text in a file (simple string replacement, not regex)",
        vec![
            param("file_path", ParamKind::Str, "Path to the file to modify", true),
            param("search", ParamKind::Str, "Text to search for", true),
            param("replacement", ParamKind::Str, "Text to replace matches with", true),
        ],
    ));
    v.push(tool(
        "search_for_pattern",
        "Search file contents for a regex pattern and return matching lines",
        vec![
            param("file_path", ParamKind::Str, "Path to the file to search in", true),
            param("pattern", ParamKind::Str, "Regex pattern to search for", true),
        ],
    ));
    v.push(tool(
        "execute_shell_command",
        "Execute a shell command and return stdout, stderr, and exit code",
        vec![
            param("command", ParamKind::Str, "Shell command to execute", true),
        ],
    ));
    v.push(tool(
        "write_memory",
        "Store a persistent memory with a tag and content. Returns the generated memory id.",
        vec![
            param("tag", ParamKind::Str, "Semantic tag/category for the memory", true),
            param("content", ParamKind::Str, "Memory content to store", true),
        ],
    ));
    assert(v@.map_values(|t: ToolSpec| t@) =~~= before + builtin_tools().subrange(5, 10));
}

/// Built-in tools 11 to 15 of the catalogue.
fn builtin_group_2(v: &mut Vec<ToolSpec>)
    ensures
        final(v)@.map_values(|t: ToolSpec| t@) == old(v)@.map_values(|t: ToolSpec| t@) + builtin_tools().subrange(10, 15),
{
    let ghost before = v@.map_values(|t: ToolSpec| t@);
    v.push(tool(
        "read_memory",
        "Read a stored memory by its id",
        vec![
            param("id", ParamKind::Str, "Memory id to retrieve", true),
        ],
    ));
    v.push(tool(
        "search_memories",
        "Search stored memories by tag (empty tag returns all)",
        vec![
            param("tag", ParamKind::Str, "Tag to search for (empty string returns all)", true),
        ],
    ));
    v.push(tool(
        "delete_memory",
        "Delete a stored memory by its id",
        vec![
            param("id", ParamKind::Str, "Memory id to delete", true),
        ],
    ));
    v.push(tool(
        "get_config",
        "Get a configuration value by key",
        vec![
            param("key", ParamKind::Str, "Configuration key to retrieve", true),
        ],
    ));
    v.push(tool(
        "set_config",
        "Set a configuration value",
        vec![
            param("key", ParamKind::Str, "Configuration key to set", true),
            param("value", ParamKind::Any, "Value to store (any JSON type)", true),
        ],
    ));
    assert(v@.map_values(|t: ToolSpec| t@) =~~= before + builtin_tools().subrange(10, 15));
}

/// Built-in tools 16 to 20 of the catalogue.
fn builtin_group_3(v: &mut Vec<ToolSpec>)
    ensures
        final(v)@.map_values(|t: ToolSpec| t@) == old(v)@.map_values(|t: ToolSpec| t@) + builtin_tools().subrange(15, 20),
{
    let ghost before = v@.map_values(|t: ToolSpec| t@);
    v.push(tool(
        "list_config",
        "List all configuration keys and values",
        Vec::new(),
    ));
    v.push(tool(
        "get_definition",
        "Get the definition location of a symbol at a given position in a file using the language server",
        vec![
            param("file_path", ParamKind::Str, "Path to the source file", true),
            param("line", ParamKind::Integer, "Line number (0-indexed)", true),
            param("column", ParamKind::Integer, "Column number (0-indexed)", true),
            param("text", ParamKind::Str, "Optional file content to send to the LSP server", false),
        ],
    ));
    v.push(tool(
        "find_references",
        "Find all references to a symbol at a given position",
        vec![
            param("file_path", ParamKind::Str, "Path to the source file", true),
            param("line", ParamKind::Integer, "Line number (0-indexed)", true),
            param("column", ParamKind::Integer, "Column number (0-indexed)", true),
            param("include_declaration", ParamKind::Boolean, "Whether to include the declaration site", false),
            param("text", ParamKind::Str, "Optional file content to send to the LSP server", false),
        ],
    ));
    v.push(tool(
        "get_hover",
        "Get hover information (type signature, docs) for a symbol at a given position",
        vec![
            param("file_path", ParamKind::Str, "Path to the source file", true),
            param("line", ParamKind::Integer, "Line number (0-indexed)", true),
            param("column", ParamKind::Integer, "Column number (0-indexed)", true),
            param("text", ParamKind::Str, "Optional file content to send to the LSP server", false),
        ],
    ));
    v.push(tool(
        "get_completion",
        "Get code completion items at a given position",
        vec![
            param("file_path", ParamKind::Str, "Path to the source file", true),
            param("line", ParamKind::Integer, "Line number (0-indexed)", true),
            param("column", ParamKind::Integer, "Column number (0-indexed)", true),
            param("text", ParamKind::Str, "Optional file content to send to the LSP server", false),
        ],
    ));
    assert(v@.map_values(|t: ToolSpec| t@) =~~= before + builtin_tools().subrange(15, 20));
}

/// Built-in tools 21 to 25 of the catalogue.
fn builtin_group_4(v: &mut Vec<ToolSpec>)
    ensures
        final(v)@.map_values(|t: ToolSpec| t@) == old(v)@.map_values(|t: ToolSpec| t@) + builtin_tools().subrange(20, 25),
{
    let ghost before = v@.map_values(|t: ToolSpec| t@);
    v.push(tool(
        "get_diagnostics",
        "Get diagnostics (errors, warnings) for a file from the language server",
        vec![
            param("file_path", ParamKind::Str, "Path to the source file", true),
            param("text", ParamKind::Str, "Optional file content to send to the LSP server", false),
        ],
    ));
    v.push(tool(
        "rename_symbol",
        "Rename a symbol at a given position across the entire workspace",
        vec![
            param("file_path", ParamKind::Str, "Path to the source file", true),
            param("line", ParamKind::Integer, "Line number (0-indexed)", true),
            param("column", ParamKind::Integer, "Column number (0-indexed)", true),
            param("new_name", ParamKind::Str, "New name for the symbol", true),
            param("text", ParamKind::Str, "Optional file content to send to the LSP server", false),
        ],
    ));
    v.push(tool(
        "apply_code_action",
        "Execute a code action or workspace command (e.g. quick-fix, refactoring)",
        vec![
            param("command", ParamKind::Str, "Command identifier to execute", true),
            param("arguments", ParamKind::Array, "Arguments for the command", false),
        ],
    ));
    v.push(tool(
        "format_code",
        "Format a document using the language server's document formatting",
        vec![
            param("file_path", ParamKind::Str, "Path to the source file to format", true),
            param("text", ParamKind::Str, "Optional file content to send to the LSP server", false),
        ],
    ));
    v.push(tool(
        "serena_info",
        "Get information about the Serena MCP server, available tools, and version",
        Vec::new(),
    ));
    assert(v@.map_values(|t: ToolSpec| t@) =~~= before + builtin_tools().subrange(20, 25));
}

/// The built-in tools, in the order they are registered.
pub fn builtin_tool_specs() -> (v: Vec<ToolSpec>)
    ensures
        v@.map_values(|t: ToolSpec| t@) == builtin_tools(),
{
    let mut v: Vec<ToolSpec> = Vec::new();
    assert(v@.map_values(|t: ToolSpec| t@) =~= Seq::<ToolView>::empty());

    builtin_group_0(&mut v);
    builtin_group_1(&mut v);
    builtin_group_2(&mut v);
    builtin_group_3(&mut v);
    builtin_group_4(&mut v);
    assert(builtin_tools().subrange(0, 5) + builtin_tools().subrange(5, 10) + builtin_tools().subrange(10, 15)
        + builtin_tools().subrange(15, 20) + builtin_tools().subrange(20, 25) =~= builtin_tools());
    assert(v@.map_values(|t: ToolSpec| t@) =~= builtin_tools());
    v
}

/// A JSON argument value as the tools read it: a string, an unsigned
/// integer (a number that `as_u64` accepts), a boolean, or anything else.
#[derive(Debug, Clone)]
pub enum ArgValue {
    Str(String),
    UInt(u64),
    Bool(bool),
    Other,
}

/// The string argument under `k`, if there is one.
pub open spec fn str_arg(m: Map<Seq<char>, ArgValue>, k: Seq<char>) -> Option<Seq<char>> {
    if m.contains_key(k) {
        match m[k] {
            ArgValue::Str(s) => Some(s@),
            _ => None,
        }
    } else {
        None
    }
}

/// The unsigned integer argument under `k`, if there is one.
pub open spec fn uint_arg(m: Map<Seq<char>, ArgValue>, k: Seq<char>) -> Option<u64> {
    if m.contains_key(k) {
        match m[k] {
            ArgValue::UInt(n) => Some(n),
            _ => None,
        }
    } else {
        None
    }
}

/// The boolean argument under `k`, if there is one.
pub open spec fn bool_arg(m: Map<Seq<char>, ArgValue>, k: Seq<char>) -> Option<bool> {
    if m.contains_key(k) {
        match m[k] {
            ArgValue::Bool(b) => Some(b),
            _ => None,
        }
    } else {
        None
    }
}

/// The arguments of a tool call, by name.
pub struct ToolArgs {
    values: NameMap<ArgValue>,
}

impl ToolArgs {
    /// The arguments by name.
    pub closed spec fn map(&self) -> Map<Seq<char>, ArgValue> {
        self.values.map()
    }

    /// The names are distinct.
    pub closed spec fn wf(&self) -> bool {
        self.values.wf()
    }

    /// No arguments.
    pub fn new() -> (a: Self)
        ensures
            a.wf(),
            a.map() == Map::<Seq<char>, ArgValue>::empty(),
    {
        let a = ToolArgs { values: NameMap::new() };
        assert(a.map() =~= Map::<Seq<char>, ArgValue>::empty());
        a
    }

    /// Set the argument `name`.
    pub fn insert(&mut self, name: String, value: ArgValue)
        requires
            old(self).wf(),
        ensures
            final(self).wf(),
            final(self).map() == old(self).map().insert(name@, value),
    {
        self.values.insert(name, value);
    }

    /// The string argument `name`.
    pub fn get_str(&self, name: &str) -> (r: Option<String>)
        requires
            self.wf(),
        ensures
            opt_view(r) == str_arg(self.map(), name@),
    {
        match self.values.get(name) {
            Some(ArgValue::Str(s)) => Some(s.clone()),
            _ => None,
        }
    }

    /// The unsigned integer argument `name`.
    pub fn get_uint(&self, name: &str) -> (r: Option<u64>)
        requires
            self.wf(),
        ensures
            r == uint_arg(self.map(), name@),
    {
        match self.values.get(name) {
            Some(ArgValue::UInt(n)) => Some(*n),
            _ => None,
        }
    }

    /// The boolean argument `name`.
    pub fn get_bool(&self, name: &str) -> (r: Option<bool>)
        requires
            self.wf(),
        ensures
            r == bool_arg(self.map(), name@),
    {
        match self.values.get(name) {
            Some(ArgValue::Bool(b)) => Some(*b),
            _ => None,
        }
    }

    /// Whether there is an argument `name`, of any type.
    pub fn has(&self, name: &str) -> (b: bool)
        requires
            self.wf(),
        ensures
            b == self.map().contains_key(name@),
    {
        self.values.get(name).is_some()
    }
}

/// Whether `m` supplies a value of the type a parameter of `kind` is read as.
pub open spec fn supplied(m: Map<Seq<char>, ArgValue>, name: Seq<char>, kind: ParamKind) -> bool {
    match kind {
        ParamKind::Str => str_arg(m, name) is Some,
        ParamKind::Integer => uint_arg(m, name) is Some,
        ParamKind::Boolean => bool_arg(m, name) is Some,
        _ => m.contains_key(name),
    }
}

/// The first of the required parameters `ps` that `m` does not supply.
pub open spec fn first_missing(m: Map<Seq<char>, ArgValue>, ps: Seq<ParamView>) -> Option<Seq<char>>
    decreases ps.len(),
{
    if ps.len() == 0 {
        None
    } else if ps[0].3 && !supplied(m, ps[0].0, ps[0].1) {
        Some(ps[0].0)
    } else {
        first_missing(m, ps.drop_first())
    }
}

/// A decoded tool call: the tool and the arguments it reads. The `value` of
/// `set_config` and the `arguments` of `apply_code_action`, which are any JSON,
/// are passed on by the caller as they came.
#[derive(Debug, Clone)]
pub enum ToolRequest {
    GetSymbols { file_path: String, text: Option<String> },
    FindSymbol { file_path: String, query: String, text: Option<String> },
    ListSymbols { file_path: String, text: Option<String> },
    ReadFile { file_path: String },
    ListDir { dir_path: String },
    FindFile { dir_path: String, pattern: String },
    ReplaceContent { file_path: String, search: String, replacement: String },
    SearchForPattern { file_path: String, pattern: String },
    ExecuteShellCommand { command: String },
    WriteMemory { tag: String, content: String },
    ReadMemory { id: String },
    SearchMemories { tag: String },
    DeleteMemory { id: String },
    GetConfig { key: String },
    SetConfig { key: String },
    ListConfig,
    GetDefinition { file_path: String, line: u32, column: u32, text: Option<String> },
    FindReferences { file_path: String, line: u32, column: u32, include_declaration: bool, text: Option<String> },
    GetHover { file_path: String, line: u32, column: u32, text: Option<String> },
    GetCompletion { file_path: String, line: u32, column: u32, text: Option<String> },
    GetDiagnostics { file_path: String, text: Option<String> },
    RenameSymbol { file_path: String, line: u32, column: u32, new_name: String, text: Option<String> },
    ApplyCodeAction { command: String },
    FormatCode { file_path: String, text: Option<String> },
    SerenaInfo,
}

/// Why a tool call could not be decoded.
#[derive(Debug, Clone, PartialEq)]
pub enum CallError {
    /// No tool has this name.
    UnknownTool(String),
    /// A required parameter is missing or has the wrong type.
    MissingParameter(String),
}

/// The message of a call error.
pub open spec fn call_error_text(e: CallError) -> Seq<char> {
    match e {
        CallError::UnknownTool(n) => "tool not found: "@ + n@,
        CallError::MissingParameter(p) => "Missing required parameter: "@ + p@,
    }
}

impl CallError {
    /// The message of the error.
    pub fn message(&self) -> (m: String)
        ensures
            m@ == call_error_text(*self),
    {
        match self {
            CallError::UnknownTool(n) => {
                let mut m = String::from_str("tool not found: ");
                m.append(n.as_str());
                m
            },
            CallError::MissingParameter(p) => {
                let mut m = String::from_str("Missing required parameter: ");
                m.append(p.as_str());
                m
            },
        }
    }
}

/// The index of the first built-in tool named `name` at or after `from`.
pub open spec fn tool_index_from(name: Seq<char>, from: int) -> Option<int>
    decreases builtin_tools().len() - from,
{
    if from < 0 || from >= builtin_tools().len() {
        None
    } else if builtin_tools()[from].0 == name {
        Some(from)
    } else {
        tool_index_from(name, from + 1)
    }
}

/// What `tool_index_from` finds is a tool of that name at or after `from`.
pub proof fn lemma_tool_index_from(name: Seq<char>, from: int)
    requires
        0 <= from,
    ensures
        tool_index_from(name, from) matches Some(i) ==> from <= i < builtin_tools().len()
            && builtin_tools()[i].0 == name,
    decreases builtin_tools().len() - from,
{
    if from < builtin_tools().len() && builtin_tools()[from].0 != name {
        lemma_tool_index_from(name, from + 1);
    }
}

/// The index in the catalogue of the built-in tool named `name`.
pub open spec fn tool_index(name: Seq<char>) -> Option<int> {
    tool_index_from(name, 0)
}

/// `r` is the request that the arguments `m` of a call of the `i`-th
/// built-in tool decode to, once every required parameter is supplied:
/// string parameters as given, line and column numbers truncated to 32 bits,
/// and `include_declaration` true unless given.
pub open spec fn request_for(i: int, m: Map<Seq<char>, ArgValue>, r: ToolRequest) -> bool {
    if i == 0 {
        r matches ToolRequest::GetSymbols { file_path, text } && file_path@ == str_arg(m, "file_path"@).unwrap() && opt_view(text) == str_arg(m, "text"@)
    } else if i == 1 {
        r matches ToolRequest::FindSymbol { file_path, query, text } && file_path@ == str_arg(m, "file_path"@).unwrap() && query@ == str_arg(m, "query"@).unwrap() && opt_view(text) == str_arg(m, "text"@)
    } else if i == 2 {
        r matches ToolRequest::ListSymbols { file_path, text } && file_path@ == str_arg(m, "file_path"@).unwrap() && opt_view(text) == str_arg(m, "text"@)
    } else if i == 3 {
        r matches ToolRequest::ReadFile { file_path } && file_path@ == str_arg(m, "file_path"@).unwrap()
    } else if i == 4 {
        r matches ToolRequest::ListDir { dir_path } && dir_path@ == str_arg(m, "dir_path"@).unwrap()
    } else if i == 5 {
        r matches ToolRequest::FindFile { dir_path, pattern } && dir_path@ == str_arg(m, "dir_path"@).unwrap() && pattern@ == str_arg(m, "pattern"@).unwrap()
    } else if i == 6 {
        r matches ToolRequest::ReplaceContent { file_path, search, replacement } && file_path@ == str_arg(m, "file_path"@).unwrap() && search@ == str_arg(m, "search"@).unwrap() && replacement@ == str_arg(m, "replacement"@).unwrap()
    } else if i == 7 {
        r matches ToolRequest::SearchForPattern { file_path, pattern } && file_path@ == str_arg(m, "file_path"@).unwrap() && pattern@ == str_arg(m, "pattern"@).unwrap()
    } else if i == 8 {
        r matches ToolRequest::ExecuteShellCommand { command } && command@ == str_arg(m, "command"@).unwrap()
    } else if i == 9 {
        r matches ToolRequest::WriteMemory { tag, content } && tag@ == str_arg(m, "tag"@).unwrap() && content@ == str_arg(m, "content"@).unwrap()
    } else if i == 10 {
        r matches ToolRequest::ReadMemory { id } && id@ == str_arg(m, "id"@).unwrap()
    } else if i == 11 {
        r matches ToolRequest::SearchMemories { tag } && tag@ == str_arg(m, "tag"@).unwrap()
    } else if i == 12 {
        r matches ToolRequest::DeleteMemory { id } && id@ == str_arg(m, "id"@).unwrap()
    } else if i == 13 {
        r matches ToolRequest::GetConfig { key } && key@ == str_arg(m, "key"@).unwrap()
    } else if i == 14 {
        r matches ToolRequest::SetConfig { key } && key@ == str_arg(m, "key"@).unwrap()
    } else if i == 15 {
        r is ListConfig
    } else if i == 16 {
        r matches ToolRequest::GetDefinition { file_path, line, column, text } && file_path@ == str_arg(m, "file_path"@).unwrap() && line == (uint_arg(m, "line"@).unwrap() as u32) && column == (uint_arg(m, "column"@).unwrap() as u32) && opt_view(text) == str_arg(m, "text"@)
    } else if i == 17 {
        r matches ToolRequest::FindReferences { file_path, line, column, include_declaration, text } && file_path@ == str_arg(m, "file_path"@).unwrap() && line == (uint_arg(m, "line"@).unwrap() as u32) && column == (uint_arg(m, "column"@).unwrap() as u32) && include_declaration == (match bool_arg(m, "include_declaration"@) { Some(b) => b, None => true }) && opt_view(text) == str_arg(m, "text"@)
    } else if i == 18 {
        r matches ToolRequest::GetHover { file_path, line, column, text } && file_path@ == str_arg(m, "file_path"@).unwrap() && line == (uint_arg(m, "line"@).unwrap() as u32) && column == (uint_arg(m, "column"@).unwrap() as u32) && opt_view(text) == str_arg(m, "text"@)
    } else if i == 19 {
        r matches ToolRequest::GetCompletion { file_path, line, column, text } && file_path@ == str_arg(m, "file_path"@).unwrap() && line == (uint_arg(m, "line"@).unwrap() as u32) && column == (uint_arg(m, "column"@).unwrap() as u32) && opt_view(text) == str_arg(m, "text"@)
    } else if i == 20 {
        r matches ToolRequest::GetDiagnostics { file_path, text } && file_path@ == str_arg(m, "file_path"@).unwrap() && opt_view(text) == str_arg(m, "text"@)
    } else if i == 21 {
        r matches ToolRequest::RenameSymbol { file_path, line, column, new_name, text } && file_path@ == str_arg(m, "file_path"@).unwrap() && line == (uint_arg(m, "line"@).unwrap() as u32) && column == (uint_arg(m, "column"@).unwrap() as u32) && new_name@ == str_arg(m, "new_name"@).unwrap() && opt_view(text) == str_arg(m, "text"@)
    } else if i == 22 {
        r matches ToolRequest::ApplyCodeAction { command } && command@ == str_arg(m, "command"@).unwrap()
    } else if i == 23 {
        r matches ToolRequest::FormatCode { file_path, text } && file_path@ == str_arg(m, "file_path"@).unwrap() && opt_view(text) == str_arg(m, "text"@)
    } else if i == 24 {
        r is SerenaInfo
    } else {
        false
    }
}

/// What decoding a call of the tool `name` with the arguments `m` gives: an
/// unknown tool, else the first required parameter (in schema order) that is
/// missing or of the wrong type, else the request.
pub open spec fn decoded(name: Seq<char>, m: Map<Seq<char>, ArgValue>, res: Result<ToolRequest, CallError>) -> bool {
    match tool_index(name) {
        None => res matches Err(CallError::UnknownTool(n)) && n@ == name,
        Some(i) => match first_missing(m, builtin_tools()[i].2) {
            Some(p) => res matches Err(CallError::MissingParameter(q)) && q@ == p,
            None => res matches Ok(r) && request_for(i, m, r),
        },
    }
}

/// The request of a call of one of the built-in tools 1 to 5.
fn build_request_0(i: usize, args: &ToolArgs) -> (r: ToolRequest)
    requires
        0 <= i < 5,
        args.wf(),
        first_missing(args.map(), builtin_tools()[i as int].2) is None,
    ensures
        request_for(i as int, args.map(), r),
{
    proof {
        reveal_with_fuel(first_missing, 6);
    }
    if i == 0 {
        let file_path = args.get_str("file_path").unwrap();
        let text = args.get_str("text");
        ToolRequest::GetSymbols { file_path, text }
    } else if i == 1 {
        let file_path = args.get_str("file_path").unwrap();
        let query = args.get_str("query").unwrap();
        let text = args.get_str("text");
        ToolRequest::FindSymbol { file_path, query, text }
    } else if i == 2 {
        let file_path = args.get_str("file_path").unwrap();
        let text = args.get_str("text");
        ToolRequest::ListSymbols { file_path, text }
    } else if i == 3 {
        let file_path = args.get_str("file_path").unwrap();
        ToolRequest::ReadFile { file_path }
    } else {
        let dir_path = args.get_str("dir_path").unwrap();
        ToolRequest::ListDir { dir_path }
    }
}

/// The request of a call of one of the built-in tools 6 to 10.
fn build_request_1(i: usize, args: &ToolArgs) -> (r: ToolRequest)
    requires
        5 <= i < 10,
        args.wf(),
        first_missing(args.map(), builtin_tools()[i as int].2) is None,
    ensures
        request_for(i as int, args.map(), r),
{
    proof {
        reveal_with_fuel(first_missing, 6);
    }
    if i == 5 {
        let dir_path = args.get_str("dir_path").unwrap();
        let pattern = args.get_str("pattern").unwrap();
        ToolRequest::FindFile { dir_path, pattern }
    } else if i == 6 {
        let file_path = args.get_str("file_path").unwrap();
        let search = args.get_str("search").unwrap();
        let replacement = args.get_str("replacement").unwrap();
        ToolRequest::ReplaceContent { file_path, search, replacement }
    } else if i == 7 {
        let file_path = args.get_str("file_path").unwrap();
        let pattern = args.get_str("pattern").unwrap();
        ToolRequest::SearchForPattern { file_path, pattern }
    } else if i == 8 {
        let command = args.get_str("command").unwrap();
        ToolRequest::ExecuteShellCommand { command }
    } else {
        let tag = args.get_str("tag").unwrap();
        let content = args.get_str("content").unwrap();
        ToolRequest::WriteMemory { tag, content }
    }
}

/// The request of a call of one of the built-in tools 11 to 15.
fn build_request_2(i: usize, args: &ToolArgs) -> (r: ToolRequest)
    requires
        10 <= i < 15,
        args.wf(),
        first_missing(args.map(), builtin_tools()[i as int].2) is None,
    ensures
        request_for(i as int, args.map(), r),
{
    proof {
        reveal_with_fuel(first_missing, 6);
    }
    if i == 10 {
        let id = args.get_str("id").unwrap();
        ToolRequest::ReadMemory { id }
    } else if i == 11 {
        let tag = args.get_str("tag").unwrap();
        ToolRequest::SearchMemories { tag }
    } else if i == 12 {
        let id = args.get_str("id").unwrap();
        ToolRequest::DeleteMemory { id }
    } else if i == 13 {
        let key = args.get_str("key").unwrap();
        ToolRequest::GetConfig { key }
    } else {
        let key = args.get_str("key").unwrap();
        ToolRequest::SetConfig { key }
    }
}

/// The request of a call of one of the built-in tools 16 to 20.
fn build_request_3(i: usize, args: &ToolArgs) -> (r: ToolRequest)
    requires
        15 <= i < 20,
        args.wf(),
        first_missing(args.map(), builtin_tools()[i as int].2) is None,
    ensures
        request_for(i as int, args.map(), r),
{
    proof {
        reveal_with_fuel(first_missing, 6);
    }
    if i == 15 {
        ToolRequest::ListConfig
    } else if i == 16 {
        let file_path = args.get_str("file_path").unwrap();
        let line = args.get_uint("line").unwrap() as u32;
        let column = args.get_uint("column").unwrap() as u32;
        let text = args.get_str("text");
        ToolRequest::GetDefinition { file_path, line, column, text }
    } else if i == 17 {
        let file_path = args.get_str("file_path").unwrap();
        let line = args.get_uint("line").unwrap() as u32;
        let column = args.get_uint("column").unwrap() as u32;
        let include_declaration = match args.get_bool("include_declaration") { Some(b) => b, None => true };
        let text = args.get_str("text");
        ToolRequest::FindReferences { file_path, line, column, include_declaration, text }
    } else if i == 18 {
        let file_path = args.get_str("file_path").unwrap();
        let line = args.get_uint("line").unwrap() as u32;
        let column = args.get_uint("column").unwrap() as u32;
        let text = args.get_str("text");
        ToolRequest::GetHover { file_path, line, column, text }
    } else {
        let file_path = args.get_str("file_path").unwrap();
        let line = args.get_uint("line").unwrap() as u32;
        let column = args.get_uint("column").unwrap() as u32;
        let text = args.get_str("text");
        ToolRequest::GetCompletion { file_path, line, column, text }
    }
}

/// The request of a call of one of the built-in tools 21 to 25.
fn build_request_4(i: usize, args: &ToolArgs) -> (r: ToolRequest)
    requires
        20 <= i < 25,
        args.wf(),
        first_missing(args.map(), builtin_tools()[i as int].2) is None,
    ensures
        request_for(i as int, args.map(), r),
{
    proof {
        reveal_with_fuel(first_missing, 6);
    }
    if i == 20 {
        let file_path = args.get_str("file_path").unwrap();
        let text = args.get_str("text");
        ToolRequest::GetDiagnostics { file_path, text }
    } else if i == 21 {
        let file_path = args.get_str("file_path").unwrap();
        let line = args.get_uint("line").unwrap() as u32;
        let column = args.get_uint("column").unwrap() as u32;
        let new_name = args.get_str("new_name").unwrap();
        let text = args.get_str("text");
        ToolRequest::RenameSymbol { file_path, line, column, new_name, text }
    } else if i == 22 {
        let command = args.get_str("command").unwrap();
        ToolRequest::ApplyCodeAction { command }
    } else if i == 23 {
        let file_path = args.get_str("file_path").unwrap();
        let text = args.get_str("text");
        ToolRequest::FormatCode { file_path, text }
    } else {
        ToolRequest::SerenaInfo
    }
}

/// The index of the first of the `tools` named `name`.
fn find_tool(tools: &Vec<ToolSpec>, name: &str) -> (r: Option<usize>)
    requires
        tools@.map_values(|t: ToolSpec| t@) == builtin_tools(),
    ensures
        match tool_index(name@) {
            None => r is None,
            Some(i) => r == Some(i as usize),
        },
{
    let ghost all = builtin_tools();
    let mut i: usize = 0;
    while i < tools.len()
        invariant
            tools@.map_values(|t: ToolSpec| t@) == all,
            all == builtin_tools(),
            i <= tools@.len(),
            tool_index(name@) == tool_index_from(name@, i as int),
        decreases tools.len() - i,
    {
        assert(all[i as int].0 == tools@[i as int].name@);
        if str_equal(tools[i].name.as_str(), name) {
            return Some(i);
        }
        i = i + 1;
    }
    None
}

/// Whether `args` supplies the parameter `p`.
fn supplies(args: &ToolArgs, p: &ParamSpec) -> (b: bool)
    requires
        args.wf(),
    ensures
        b == supplied(args.map(), p.name@, p.kind),
{
    match p.kind {
        ParamKind::Str => args.get_str(p.name.as_str()).is_some(),
        ParamKind::Integer => args.get_uint(p.name.as_str()).is_some(),
        ParamKind::Boolean => args.get_bool(p.name.as_str()).is_some(),
        _ => args.has(p.name.as_str()),
    }
}

/// Decodes a call of the tool `name` with the arguments `args`: the tool must
/// exist, its required parameters are checked in schema order (the first one
/// missing, or of the wrong type, is reported), and the parameters it reads
/// make up the request.
pub fn decode_tool_call(name: &str, args: &ToolArgs) -> (res: Result<ToolRequest, CallError>)
    requires
        args.wf(),
    ensures
        decoded(name@, args.map(), res),
{
    let tools = builtin_tool_specs();
    let i = match find_tool(&tools, name) {
        None => {
            return Err(CallError::UnknownTool(name.to_owned()));
        },
        Some(i) => i,
    };
    proof {
        lemma_tool_index_from(name@, 0);
    }
    let t = &tools[i];
    let ghost ps = builtin_tools()[i as int].2;
    assert(t.params@.map_values(|p: ParamSpec| p@) == ps);
    assert(ps.skip(0) =~= ps);
    let mut k: usize = 0;
    while k < t.params.len()
        invariant
            t.params@.map_values(|p: ParamSpec| p@) == ps,
            tool_index(name@) == Some(i as int),
            ps == builtin_tools()[i as int].2,
            k <= t.params@.len(),
            args.wf(),
            first_missing(args.map(), ps) == first_missing(args.map(), ps.skip(k as int)),
        decreases t.params.len() - k,
    {
        let p = &t.params[k];
        assert(ps.skip(k as int)[0] == p@);
        assert(ps.skip(k as int).drop_first() =~= ps.skip(k + 1));
        if p.required && !supplies(args, p) {
            assert(first_missing(args.map(), ps.skip(k as int)) == Some(p.name@));
            let q = p.name.clone();
            assert(q@ == p.name@);
            return Err(CallError::MissingParameter(q));
        }
        k = k + 1;
    }
    assert(ps.skip(k as int) =~= Seq::<ParamView>::empty());
    let r = if i < 5 {
        build_request_0(i, args)
    } else if i < 10 {
        build_request_1(i, args)
    } else if i < 15 {
        build_request_2(i, args)
    } else if i < 20 {
        build_request_3(i, args)
    } else {
        build_request_4(i, args)
    };
    Ok(r)
}

/// `m` with the tools `ts` stored under their names, one after the other.
pub open spec fn insert_tools(m: Map<Seq<char>, ToolView>, ts: Seq<ToolView>) -> Map<Seq<char>, ToolView>
    decreases ts.len(),
{
    if ts.len() == 0 {
        m
    } else {
        insert_tools(m, ts.drop_last()).insert(ts.last().0, ts.last())
    }
}

/// Registry of the MCP tools: tool definitions by name.
pub struct ToolRegistry {
    tools: NameMap<ToolSpec>,
}

impl ToolRegistry {
    /// The registered tools by name.
    pub closed spec fn map(&self) -> Map<Seq<char>, ToolView> {
        self.tools.map().map_values(|t: ToolSpec| t@)
    }

    /// The names are distinct, and each tool is stored under its own name.
    pub closed spec fn wf(&self) -> bool {
        &&& self.tools.wf()
        &&& forall|k: Seq<char>| #[trigger] self.tools.map().contains_key(k) ==> self.tools.map()[k].name@ == k
    }

    /// Create a new empty registry.
    pub fn new() -> (r: Self)
        ensures
            r.wf(),
            r.map() == Map::<Seq<char>, ToolView>::empty(),
            r.map().dom().finite(),
    {
        let r = ToolRegistry { tools: NameMap::new() };
        assert(r.map() =~= Map::<Seq<char>, ToolView>::empty());
        r
    }

    /// A well-formed registry holds finitely many tools.
    pub proof fn lemma_finite(&self)
        requires
            self.wf(),
        ensures
            self.map().dom().finite(),
    {
        crate::namemap::lemma_map_len(self.tools.rows());
        assert(self.map().dom() =~= self.tools.map().dom());
    }

    /// Register a tool; it replaces any tool of the same name. The count of
    /// tools grows by one exactly when the name is new.
    pub fn register(&mut self, tool: ToolSpec)
        requires
            old(self).wf(),
        ensures
            final(self).wf(),
            final(self).map() == old(self).map().insert(tool.name@, tool@),
            final(self).map().dom().finite(),
            final(self).map().len() == old(self).map().len() + if old(self).map().contains_key(tool.name@) {
                0int
            } else {
                1int
            },
    {
        let ghost view = tool@;
        let name = tool.name.clone();
        proof {
            old(self).lemma_finite();
        }
        self.tools.insert(name, tool);
        assert(self.map() =~= old(self).map().insert(view.0, view));
        proof {
            self.lemma_finite();
        }
    }

    /// The tool named `name`.
    pub fn get(&self, name: &str) -> (res: Option<&ToolSpec>)
        requires
            self.wf(),
        ensures
            self.map().contains_key(name@) ==> (res matches Some(t) && t@ == self.map()[name@]),
            !self.map().contains_key(name@) ==> res is None,
    {
        self.tools.get(name)
    }

    /// Number of registered tools.
    pub fn len(&self) -> (n: usize)
        requires
            self.wf(),
        ensures
            n == self.map().len(),
    {
        proof {
            crate::namemap::lemma_map_len(self.tools.rows());
            assert(self.map().dom() =~= self.tools.map().dom());
        }
        self.tools.len()
    }

    /// Whether no tool is registered.
    pub fn is_empty(&self) -> (b: bool)
        requires
            self.wf(),
        ensures
            b == (self.map().len() == 0),
    {
        self.len() == 0
    }

    /// The names of all registered tools.
    pub fn list_tools(&self) -> (names: Vec<&str>)
        requires
            self.wf(),
        ensures
            names@.len() == self.map().len(),
            forall|i: int| 0 <= i < names@.len() ==> self.map().contains_key(#[trigger] names@[i]@),
            forall|k: Seq<char>| self.map().contains_key(k) ==> exists|i: int| 0 <= i < names@.len() && #[trigger] names@[i]@ == k,
    {
        let mut names: Vec<&str> = Vec::new();
        let n = self.tools.len();
        let mut i: usize = 0;
        proof {
            crate::namemap::lemma_map_len(self.tools.rows());
            assert(self.map().dom() =~= self.tools.map().dom());
        }
        while i < n
            invariant
                self.wf(),
                n == self.tools.rows().len(),
                i <= n,
                names@.len() == i,
                forall|j: int| 0 <= j < i ==> #[trigger] names@[j]@ == self.tools.rows()[j].0,
            decreases n - i,
        {
            names.push(self.tools.name_at(i));
            i = i + 1;
        }
        proof {
            assert forall|j: int| 0 <= j < names@.len() implies self.map().contains_key(#[trigger] names@[j]@) by {
                crate::namemap::lemma_value_of_at(self.tools.rows(), j);
            }
            assert forall|k: Seq<char>| self.map().contains_key(k) implies exists|j: int| 0 <= j < names@.len() && #[trigger] names@[j]@ == k by {
                let j = crate::namemap::name_index(self.tools.rows(), k);
                assert(names@[j]@ == k);
            }
        }
        names
    }

    /// The definitions of all registered tools.
    pub fn mcp_tool_list(&self) -> (defs: Vec<&ToolSpec>)
        requires
            self.wf(),
        ensures
            defs@.len() == self.map().len(),
            forall|i: int| 0 <= i < defs@.len() ==> self.map().contains_key(#[trigger] defs@[i].name@)
                && self.map()[defs@[i].name@] == defs@[i]@,
    {
        let mut defs: Vec<&ToolSpec> = Vec::new();
        let n = self.tools.len();
        let mut i: usize = 0;
        proof {
            crate::namemap::lemma_map_len(self.tools.rows());
            assert(self.map().dom() =~= self.tools.map().dom());
        }
        while i < n
            invariant
                self.wf(),
                n == self.tools.rows().len(),
                i <= n,
                defs@.len() == i,
                forall|j: int| 0 <= j < i ==> self.map().contains_key(#[trigger] defs@[j].name@)
                    && self.map()[defs@[j].name@] == defs@[j]@,
            decreases n - i,
        {
            let t = self.tools.value_at(i);
            proof {
                crate::namemap::lemma_value_of_at(self.tools.rows(), i as int);
            }
            assert(self.tools.map().contains_key(self.tools.rows()[i as int].0));
            defs.push(t);
            i = i + 1;
        }
        defs
    }
}

impl Default for ToolRegistry {
    /// An empty registry.
    fn default() -> (r: Self)
        ensures
            r.wf(),
            r.map() == Map::<Seq<char>, ToolView>::empty(),
    {
        ToolRegistry::new()
    }
}

/// Registers every built-in tool, in catalogue order.
pub fn register_builtin_tools(registry: &mut ToolRegistry)
    requires
        old(registry).wf(),
    ensures
        final(registry).wf(),
        final(registry).map() == insert_tools(old(registry).map(), builtin_tools()),
{
    let mut rest = builtin_tool_specs();
    let ghost all = builtin_tools();
    let ghost start = registry.map();
    let mut i: usize = 0;
    assert(all.skip(0) =~= all);
    assert(all.take(0) =~= Seq::<ToolView>::empty());
    while rest.len() > 0
        invariant
            registry.wf(),
            all == builtin_tools(),
            all.len() == 25,
            i <= all.len(),
            rest@.map_values(|t: ToolSpec| t@) == all.skip(i as int),
            registry.map() == insert_tools(start, all.take(i as int)),
        decreases rest.len(),
    {
        assert(rest@.map_values(|t: ToolSpec| t@).len() == rest@.len());
        assert(i < all.len());
        let t = rest.remove(0);
        assert(all.skip(i as int)[0] == t@);
        assert(all.skip(i as int).drop_first() =~= all.skip(i + 1));
        assert(rest@.map_values(|t: ToolSpec| t@) =~= all.skip(i + 1));
        assert(all.take(i + 1).drop_last() =~= all.take(i as int));
        assert(all.take(i + 1).last() == t@);
        registry.register(t);
        i = i + 1;
    }
    assert(all.skip(i as int).len() == 0);
    assert(all.take(i as int) =~= all);
}

/// Every tool stored by `insert_tools` can be found under its name.
pub proof fn lemma_insert_tools_contains(m: Map<Seq<char>, ToolView>, ts: Seq<ToolView>, i: int)
    requires
        0 <= i < ts.len(),
    ensures
        insert_tools(m, ts).contains_key(ts[i].0),
    decreases ts.len(),
{
    if i < ts.len() - 1 {
        lemma_insert_tools_contains(m, ts.drop_last(), i);
        assert(ts.drop_last()[i] == ts[i]);
    }
}

/// Once the built-in tools are registered, each of them can be looked up by
/// its name, whatever was registered before.
pub proof fn law_builtin_tools_registered(before: Map<Seq<char>, ToolView>, i: int)
    requires
        0 <= i < builtin_tools().len(),
    ensures
        insert_tools(before, builtin_tools()).contains_key(builtin_tools()[i].0),
{
    lemma_insert_tools_contains(before, builtin_tools(), i);
}

/// A call of a built-in tool that supplies every required parameter is
/// decoded to a request, never to an error.
pub proof fn law_complete_call_decodes(name: Seq<char>, m: Map<Seq<char>, ArgValue>, res: Result<ToolRequest, CallError>)
    requires
        tool_index(name) is Some,
        first_missing(m, builtin_tools()[tool_index(name)->0].2) is None,
        decoded(name, m, res),
    ensures
        res is Ok,
{
}

/// The parameter that decoding reports missing is a required parameter of the
/// tool, and the call does not supply it.
pub proof fn law_missing_is_required(m: Map<Seq<char>, ArgValue>, ps: Seq<ParamView>)
    ensures
        first_missing(m, ps) matches Some(p) ==> exists|k: int|
            0 <= k < ps.len() && #[trigger] ps[k].0 == p && ps[k].3 && !supplied(m, p, ps[k].1),
    decreases ps.len(),
{
    if ps.len() > 0 && !(ps[0].3 && !supplied(m, ps[0].0, ps[0].1)) {
        law_missing_is_required(m, ps.drop_first());
        if first_missing(m, ps) is Some {
            let p = first_missing(m, ps)->0;
            let k = choose|k: int| 0 <= k < ps.drop_first().len() && #[trigger] ps.drop_first()[k].0 == p
                && ps.drop_first()[k].3 && !supplied(m, p, ps.drop_first()[k].1);
            assert(ps[k + 1] == ps.drop_first()[k]);
        }
    }
}

/// The built-in tools have distinct names.
pub proof fn law_builtin_names_distinct()
    ensures
        forall|i: int, j: int| 0 <= i < j < builtin_tools().len() ==> #[trigger] builtin_tools()[i].0 != #[trigger] builtin_tools()[j].0,
{
    reveal_strlit("get_symbols");
    reveal_strlit("find_symbol");
    reveal_strlit("list_symbols");
    reveal_strlit("read_file");
    reveal_strlit("list_dir");
    reveal_strlit("find_file");
    reveal_strlit("replace_content");
    reveal_strlit("search_for_pattern");
    reveal_strlit("execute_shell_command");
    reveal_strlit("write_memory");
    reveal_strlit("read_memory");
    reveal_strlit("search_memories");
    reveal_strlit("delete_memory");
    reveal_strlit("get_config");
    reveal_strlit("set_config");
    reveal_strlit("list_config");
    reveal_strlit("get_definition");
    reveal_strlit("find_references");
    reveal_strlit("get_hover");
    reveal_strlit("get_completion");
    reveal_strlit("get_diagnostics");
    reveal_strlit("rename_symbol");
    reveal_strlit("apply_code_action");
    reveal_strlit("format_code");
    reveal_strlit("serena_info");
    let ts = builtin_tools();
    assert forall|i: int, j: int| 0 <= i < j < ts.len() implies #[trigger] ts[i].0 != #[trigger] ts[j].0 by {
        if i == 0 {
            if j == 1 {
                assert(ts[0].0[0] != ts[1].0[0]);
            } else if j == 2 {
                assert(ts[0].0.len() != ts[2].0.len());
            } else if j == 3 {
                assert(ts[0].0.len() != ts[3].0.len());
            } else if j == 4 {
                assert(ts[0].0.len() != ts[4].0.len());
            } else if j == 5 {
                assert(ts[0].0.len() != ts[5].0.len());
            } else if j == 6 {
                assert(ts[0].0.len() != ts[6].0.len());
            } else if j == 7 {
                assert(ts[0].0.len() != ts[7].0.len());
            } else if j == 8 {
                assert(ts[0].0.len() != ts[8].0.len());
            } else if j == 9 {
                assert(ts[0].0.len() != ts[9].0.len());
            } else if j == 10 {
                assert(ts[0].0[0] != ts[10].0[0]);
            } else if j == 11 {
                assert(ts[0].0.len() != ts[11].0.len());
            } else if j == 12 {
                assert(ts[0].0.len() != ts[12].0.len());
            } else if j == 13 {
                assert(ts[0].0.len() != ts[13].0.len());
            } else if j == 14 {
                assert(ts[0].0.len() != ts[14].0.len());
            } else if j == 15 {
                assert(ts[0].0[0] != ts[15].0[0]);
            } else if j == 16 {
                assert(ts[0].0.len() != ts[16].0.len());
            } else if j == 17 {
                assert(ts[0].0.len() != ts[17].0.len());
            } else if j == 18 {
                assert(ts[0].0.len() != ts[18].0.len());
            } else if j == 19 {
                assert(ts[0].0.len() != ts[19].0.len());
            } else if j == 20 {
                assert(ts[0].0.len() != ts[20].0.len());
            } else if j == 21 {
                assert(ts[0].0.len() != ts[21].0.len());
            } else if j == 22 {
                assert(ts[0].0.len() != ts[22].0.len());
            } else if j == 23 {
                assert(ts[0].0[0] != ts[23].0[0]);
            } else if j == 24 {
                assert(ts[0].0[0] != ts[24].0[0]);
            }
        } else if i == 1 {
            if j == 2 {
                assert(ts[1].0.len() != ts[2].0.len());
            } else if j == 3 {
                assert(ts[1].0.len() != ts[3].0.len());
            } else if j == 4 {
                assert(ts[1].0.len() != ts[4].0.len());
            } else if j == 5 {
                assert(ts[1].0.len() != ts[5].0.len());
            } else if j == 6 {
                assert(ts[1].0.len() != ts[6].0.len());
            } else if j == 7 {
                assert(ts[1].0.len() != ts[7].0.len());
            } else if j == 8 {
                assert(ts[1].0.len() != ts[8].0.len());
            } else if j == 9 {
                assert(ts[1].0.len() != ts[9].0.len());
            } else if j == 10 {
                assert(ts[1].0[0] != ts[10].0[0]);
            } else if j == 11 {
                assert(ts[1].0.len() != ts[11].0.len());
            } else if j == 12 {
                assert(ts[1].0.len() != ts[12].0.len());
            } else if j == 13 {
                assert(ts[1].0.len() != ts[13].0.len());
            } else if j == 14 {
                assert(ts[1].0.len() != ts[14].0.len());
            } else if j == 15 {
                assert(ts[1].0[0] != ts[15].0[0]);
            } else if j == 16 {
                assert(ts[1].0.len() != ts[16].0.len());
            } else if j == 17 {
                assert(ts[1].0.len() != ts[17].0.len());
            } else if j == 18 {
                assert(ts[1].0.len() != ts[18].0.len());
            } else if j == 19 {
                assert(ts[1].0.len() != ts[19].0.len());
            } else if j == 20 {
                assert(ts[1].0.len() != ts[20].0.len());
            } else if j == 21 {
                assert(ts[1].0.len() != ts[21].0.len());
            } else if j == 22 {
                assert(ts[1].0.len() != ts[22].0.len());
            } else if j == 23 {
                assert(ts[1].0[1] != ts[23].0[1]);
            } else if j == 24 {
                assert(ts[1].0[0] != ts[24].0[0]);
            }
        } else if i == 2 {
            if j == 3 {
                assert(ts[2].0.len() != ts[3].0.len());
            } else if j == 4 {
                assert(ts[2].0.len() != ts[4].0.len());
            } else if j == 5 {
                assert(ts[2].0.len() != ts[5].0.len());
            } else if j == 6 {
                assert(ts[2].0.len() != ts[6].0.len());
            } else if j == 7 {
                assert(ts[2].0.len() != ts[7].0.len());
            } else if j == 8 {
                assert(ts[2].0.len() != ts[8].0.len());
            } else if j == 9 {
                assert(ts[2].0[0] != ts[9].0[0]);
            } else if j == 10 {
                assert(ts[2].0.len() != ts[10].0.len());
            } else if j == 11 {
                assert(ts[2].0.len() != ts[11].0.len());
            } else if j == 12 {
                assert(ts[2].0.len() != ts[12].0.len());
            } else if j == 13 {
                assert(ts[2].0.len() != ts[13].0.len());
            } else if j == 14 {
                assert(ts[2].0.len() != ts[14].0.len());
            } else if j == 15 {
                assert(ts[2].0.len() != ts[15].0.len());
            } else if j == 16 {
                assert(ts[2].0.len() != ts[16].0.len());
            } else if j == 17 {
                assert(ts[2].0.len() != ts[17].0.len());
            } else if j == 18 {
                assert(ts[2].0.len() != ts[18].0.len());
            } else if j == 19 {
                assert(ts[2].0.len() != ts[19].0.len());
            } else if j == 20 {
                assert(ts[2].0.len() != ts[20].0.len());
            } else if j == 21 {
                assert(ts[2].0.len() != ts[21].0.len());
            } else if j == 22 {
                assert(ts[2].0.len() != ts[22].0.len());
            } else if j == 23 {
                assert(ts[2].0.len() != ts[23].0.len());
            } else if j == 24 {
                assert(ts[2].0.len() != ts[24].0.len());
            }
        } else if i == 3 {
            if j == 4 {
                assert(ts[3].0.len() != ts[4].0.len());
            } else if j == 5 {
                assert(ts[3].0[0] != ts[5].0[0]);
            } else if j == 6 {
                assert(ts[3].0.len() != ts[6].0.len());
            } else if j == 7 {
                assert(ts[3].0.len() != ts[7].0.len());
            } else if j == 8 {
                assert(ts[3].0.len() != ts[8].0.len());
            } else if j == 9 {
                assert(ts[3].0.len() != ts[9].0.len());
            } else if j == 10 {
                assert(ts[3].0.len() != ts[10].0.len());
            } else if j == 11 {
                assert(ts[3].0.len() != ts[11].0.len());
            } else if j == 12 {
                assert(ts[3].0.len() != ts[12].0.len());
            } else if j == 13 {
                assert(ts[3].0.len() != ts[13].0.len());
            } else if j == 14 {
                assert(ts[3].0.len() != ts[14].0.len());
            } else if j == 15 {
                assert(ts[3].0.len() != ts[15].0.len());
            } else if j == 16 {
                assert(ts[3].0.len() != ts[16].0.len());
            } else if j == 17 {
                assert(ts[3].0.len() != ts[17].0.len());
            } else if j == 18 {
                assert(ts[3].0[0] != ts[18].0[0]);
            } else if j == 19 {
                assert(ts[3].0.len() != ts[19].0.len());
            } else if j == 20 {
                assert(ts[3].0.len() != ts[20].0.len());
            } else if j == 21 {
                assert(ts[3].0.len() != ts[21].0.len());
            } else if j == 22 {
                assert(ts[3].0.len() != ts[22].0.len());
            } else if j == 23 {
                assert(ts[3].0.len() != ts[23].0.len());
            } else if j == 24 {
                assert(ts[3].0.len() != ts[24].0.len());
            }
        } else if i == 4 {
            if j == 5 {
                assert(ts[4].0.len() != ts[5].0.len());
            } else if j == 6 {
                assert(ts[4].0.len() != ts[6].0.len());
            } else if j == 7 {
                assert(ts[4].0.len() != ts[7].0.len());
            } else if j == 8 {
                assert(ts[4].0.len() != ts[8].0.len());
            } else if j == 9 {
                assert(ts[4].0.len() != ts[9].0.len());
            } else if j == 10 {
                assert(ts[4].0.len() != ts[10].0.len());
            } else if j == 11 {
                assert(ts[4].0.len() != ts[11].0.len());
            } else if j == 12 {
                assert(ts[4].0.len() != ts[12].0.len());
            } else if j == 13 {
                assert(ts[4].0.len() != ts[13].0.len());
            } else if j == 14 {
                assert(ts[4].0.len() != ts[14].0.len());
            } else if j == 15 {
                assert(ts[4].0.len() != ts[15].0.len());
            } else if j == 16 {
                assert(ts[4].0.len() != ts[16].0.len());
            } else if j == 17 {
                assert(ts[4].0.len() != ts[17].0.len());
            } else if j == 18 {
                assert(ts[4].0.len() != ts[18].0.len());
            } else if j == 19 {
                assert(ts[4].0.len() != ts[19].0.len());
            } else if j == 20 {
                assert(ts[4].0.len() != ts[20].0.len());
            } else if j == 21 {
                assert(ts[4].0.len() != ts[21].0.len());
            } else if j == 22 {
                assert(ts[4].0.len() != ts[22].0.len());
            } else if j == 23 {
                assert(ts[4].0.len() != ts[23].0.len());
            } else if j == 24 {
                assert(ts[4].0.len() != ts[24].0.len());
            }
        } else if i == 5 {
            if j == 6 {
                assert(ts[5].0.len() != ts[6].0.len());
            } else if j == 7 {
                assert(ts[5].0.len() != ts[7].0.len());
            } else if j == 8 {
                assert(ts[5].0.len() != ts[8].0.len());
            } else if j == 9 {
                assert(ts[5].0.len() != ts[9].0.len());
            } else if j == 10 {
                assert(ts[5].0.len() != ts[10].0.len());
            } else if j == 11 {
                assert(ts[5].0.len() != ts[11].0.len());
            } else if j == 12 {
                assert(ts[5].0.len() != ts[12].0.len());
            } else if j == 13 {
                assert(ts[5].0.len() != ts[13].0.len());
            } else if j == 14 {
                assert(ts[5].0.len() != ts[14].0.len());
            } else if j == 15 {
                assert(ts[5].0.len() != ts[15].0.len());
            } else if j == 16 {
                assert(ts[5].0.len() != ts[16].0.len());
            } else if j == 17 {
                assert(ts[5].0.len() != ts[17].0.len());
            } else if j == 18 {
                assert(ts[5].0[0] != ts[18].0[0]);
            } else if j == 19 {
                assert(ts[5].0.len() != ts[19].0.len());
            } else if j == 20 {
                assert(ts[5].0.len() != ts[20].0.len());
            } else if j == 21 {
                assert(ts[5].0.len() != ts[21].0.len());
            } else if j == 22 {
                assert(ts[5].0.len() != ts[22].0.len());
            } else if j == 23 {
                assert(ts[5].0.len() != ts[23].0.len());
            } else if j == 24 {
                assert(ts[5].0.len() != ts[24].0.len());
            }
        } else if i == 6 {
            if j == 7 {
                assert(ts[6].0.len() != ts[7].0.len());
            } else if j == 8 {
                assert(ts[6].0.len() != ts[8].0.len());
            } else if j == 9 {
                assert(ts[6].0.len() != ts[9].0.len());
            } else if j == 10 {
                assert(ts[6].0.len() != ts[10].0.len());
            } else if j == 11 {
                assert(ts[6].0[0] != ts[11].0[0]);
            } else if j == 12 {
                assert(ts[6].0.len() != ts[12].0.len());
            } else if j == 13 {
                assert(ts[6].0.len() != ts[13].0.len());
            } else if j == 14 {
                assert(ts[6].0.len() != ts[14].0.len());
            } else if j == 15 {
                assert(ts[6].0.len() != ts[15].0.len());
            } else if j == 16 {
                assert(ts[6].0.len() != ts[16].0.len());
            } else if j == 17 {
                assert(ts[6].0[0] != ts[17].0[0]);
            } else if j == 18 {
                assert(ts[6].0.len() != ts[18].0.len());
            } else if j == 19 {
                assert(ts[6].0.len() != ts[19].0.len());
            } else if j == 20 {
                assert(ts[6].0[0] != ts[20].0[0]);
            } else if j == 21 {
                assert(ts[6].0.len() != ts[21].0.len());
            } else if j == 22 {
                assert(ts[6].0.len() != ts[22].0.len());
            } else if j == 23 {
                assert(ts[6].0.len() != ts[23].0.len());
            } else if j == 24 {
                assert(ts[6].0.len() != ts[24].0.len());
            }
        } else if i == 7 {
            if j == 8 {
                assert(ts[7].0.len() != ts[8].0.len());
            } else if j == 9 {
                assert(ts[7].0.len() != ts[9].0.len());
            } else if j == 10 {
                assert(ts[7].0.len() != ts[10].0.len());
            } else if j == 11 {
                assert(ts[7].0.len() != ts[11].0.len());
            } else if j == 12 {
                assert(ts[7].0.len() != ts[12].0.len());
            } else if j == 13 {
                assert(ts[7].0.len() != ts[13].0.len());
            } else if j == 14 {
                assert(ts[7].0.len() != ts[14].0.len());
            } else if j == 15 {
                assert(ts[7].0.len() != ts[15].0.len());
            } else if j == 16 {
                assert(ts[7].0.len() != ts[16].0.len());
            } else if j == 17 {
                assert(ts[7].0.len() != ts[17].0.len());
            } else if j == 18 {
                assert(ts[7].0.len() != ts[18].0.len());
            } else if j == 19 {
                assert(ts[7].0.len() != ts[19].0.len());
            } else if j == 20 {
                assert(ts[7].0.len() != ts[20].0.len());
            } else if j == 21 {
                assert(ts[7].0.len() != ts[21].0.len());
            } else if j == 22 {
                assert(ts[7].0.len() != ts[22].0.len());
            } else if j == 23 {
                assert(ts[7].0.len() != ts[23].0.len());
            } else if j == 24 {
                assert(ts[7].0.len() != ts[24].0.len());
            }
        } else if i == 8 {
            if j == 9 {
                assert(ts[8].0.len() != ts[9].0.len());
            } else if j == 10 {
                assert(ts[8].0.len() != ts[10].0.len());
            } else if j == 11 {
                assert(ts[8].0.len() != ts[11].0.len());
            } else if j == 12 {
                assert(ts[8].0.len() != ts[12].0.len());
            } else if j == 13 {
                assert(ts[8].0.len() != ts[13].0.len());
            } else if j == 14 {
                assert(ts[8].0.len() != ts[14].0.len());
            } else if j == 15 {
                assert(ts[8].0.len() != ts[15].0.len());
            } else if j == 16 {
                assert(ts[8].0.len() != ts[16].0.len());
            } else if j == 17 {
                assert(ts[8].0.len() != ts[17].0.len());
            } else if j == 18 {
                assert(ts[8].0.len() != ts[18].0.len());
            } else if j == 19 {
                assert(ts[8].0.len() != ts[19].0.len());
            } else if j == 20 {
                assert(ts[8].0.len() != ts[20].0.len());
            } else if j == 21 {
                assert(ts[8].0.len() != ts[21].0.len());
            } else if j == 22 {
                assert(ts[8].0.len() != ts[22].0.len());
            } else if j == 23 {
                assert(ts[8].0.len() != ts[23].0.len());
            } else if j == 24 {
                assert(ts[8].0.len() != ts[24].0.len());
            }
        } else if i == 9 {
            if j == 10 {
                assert(ts[9].0.len() != ts[10].0.len());
            } else if j == 11 {
                assert(ts[9].0.len() != ts[11].0.len());
            } else if j == 12 {
                assert(ts[9].0.len() != ts[12].0.len());
            } else if j == 13 {
                assert(ts[9].0.len() != ts[13].0.len());
            } else if j == 14 {
                assert(ts[9].0.len() != ts[14].0.len());
            } else if j == 15 {
                assert(ts[9].0.len() != ts[15].0.len());
            } else if j == 16 {
                assert(ts[9].0.len() != ts[16].0.len());
            } else if j == 17 {
                assert(ts[9].0.len() != ts[17].0.len());
            } else if j == 18 {
                assert(ts[9].0.len() != ts[18].0.len());
            } else if j == 19 {
                assert(ts[9].0.len() != ts[19].0.len());
            } else if j == 20 {
                assert(ts[9].0.len() != ts[20].0.len());
            } else if j == 21 {
                assert(ts[9].0.len() != ts[21].0.len());
            } else if j == 22 {
                assert(ts[9].0.len() != ts[22].0.len());
            } else if j == 23 {
                assert(ts[9].0.len() != ts[23].0.len());
            } else if j == 24 {
                assert(ts[9].0.len() != ts[24].0.len());
            }
        } else if i == 10 {
            if j == 11 {
                assert(ts[10].0.len() != ts[11].0.len());
            } else if j == 12 {
                assert(ts[10].0.len() != ts[12].0.len());
            } else if j == 13 {
                assert(ts[10].0.len() != ts[13].0.len());
            } else if j == 14 {
                assert(ts[10].0.len() != ts[14].0.len());
            } else if j == 15 {
                assert(ts[10].0[0] != ts[15].0[0]);
            } else if j == 16 {
                assert(ts[10].0.len() != ts[16].0.len());
            } else if j == 17 {
                assert(ts[10].0.len() != ts[17].0.len());
            } else if j == 18 {
                assert(ts[10].0.len() != ts[18].0.len());
            } else if j == 19 {
                assert(ts[10].0.len() != ts[19].0.len());
            } else if j == 20 {
                assert(ts[10].0.len() != ts[20].0.len());
            } else if j == 21 {
                assert(ts[10].0.len() != ts[21].0.len());
            } else if j == 22 {
                assert(ts[10].0.len() != ts[22].0.len());
            } else if j == 23 {
                assert(ts[10].0[0] != ts[23].0[0]);
            } else if j == 24 {
                assert(ts[10].0[0] != ts[24].0[0]);
            }
        } else if i == 11 {
            if j == 12 {
                assert(ts[11].0.len() != ts[12].0.len());
            } else if j == 13 {
                assert(ts[11].0.len() != ts[13].0.len());
            } else if j == 14 {
                assert(ts[11].0.len() != ts[14].0.len());
            } else if j == 15 {
                assert(ts[11].0.len() != ts[15].0.len());
            } else if j == 16 {
                assert(ts[11].0.len() != ts[16].0.len());
            } else if j == 17 {
                assert(ts[11].0[0] != ts[17].0[0]);
            } else if j == 18 {
                assert(ts[11].0.len() != ts[18].0.len());
            } else if j == 19 {
                assert(ts[11].0.len() != ts[19].0.len());
            } else if j == 20 {
                assert(ts[11].0[0] != ts[20].0[0]);
            } else if j == 21 {
                assert(ts[11].0.len() != ts[21].0.len());
            } else if j == 22 {
                assert(ts[11].0.len() != ts[22].0.len());
            } else if j == 23 {
                assert(ts[11].0.len() != ts[23].0.len());
            } else if j == 24 {
                assert(ts[11].0.len() != ts[24].0.len());
            }
        } else if i == 12 {
            if j == 13 {
                assert(ts[12].0.len() != ts[13].0.len());
            } else if j == 14 {
                assert(ts[12].0.len() != ts[14].0.len());
            } else if j == 15 {
                assert(ts[12].0.len() != ts[15].0.len());
            } else if j == 16 {
                assert(ts[12].0.len() != ts[16].0.len());
            } else if j == 17 {
                assert(ts[12].0.len() != ts[17].0.len());
            } else if j == 18 {
                assert(ts[12].0.len() != ts[18].0.len());
            } else if j == 19 {
                assert(ts[12].0.len() != ts[19].0.len());
            } else if j == 20 {
                assert(ts[12].0.len() != ts[20].0.len());
            } else if j == 21 {
                assert(ts[12].0[0] != ts[21].0[0]);
            } else if j == 22 {
                assert(ts[12].0.len() != ts[22].0.len());
            } else if j == 23 {
                assert(ts[12].0.len() != ts[23].0.len());
            } else if j == 24 {
                assert(ts[12].0.len() != ts[24].0.len());
            }
        } else if i == 13 {
            if j == 14 {
                assert(ts[13].0[0] != ts[14].0[0]);
            } else if j == 15 {
                assert(ts[13].0.len() != ts[15].0.len());
            } else if j == 16 {
                assert(ts[13].0.len() != ts[16].0.len());
            } else if j == 17 {
                assert(ts[13].0.len() != ts[17].0.len());
            } else if j == 18 {
                assert(ts[13].0.len() != ts[18].0.len());
            } else if j == 19 {
                assert(ts[13].0.len() != ts[19].0.len());
            } else if j == 20 {
                assert(ts[13].0.len() != ts[20].0.len());
            } else if j == 21 {
                assert(ts[13].0.len() != ts[21].0.len());
            } else if j == 22 {
                assert(ts[13].0.len() != ts[22].0.len());
            } else if j == 23 {
                assert(ts[13].0.len() != ts[23].0.len());
            } else if j == 24 {
                assert(ts[13].0.len() != ts[24].0.len());
            }
        } else if i == 14 {
            if j == 15 {
                assert(ts[14].0.len() != ts[15].0.len());
            } else if j == 16 {
                assert(ts[14].0.len() != ts[16].0.len());
            } else if j == 17 {
                assert(ts[14].0.len() != ts[17].0.len());
            } else if j == 18 {
                assert(ts[14].0.len() != ts[18].0.len());
            } else if j == 19 {
                assert(ts[14].0.len() != ts[19].0.len());
            } else if j == 20 {
                assert(ts[14].0.len() != ts[20].0.len());
            } else if j == 21 {
                assert(ts[14].0.len() != ts[21].0.len());
            } else if j == 22 {
                assert(ts[14].0.len() != ts[22].0.len());
            } else if j == 23 {
                assert(ts[14].0.len() != ts[23].0.len());
            } else if j == 24 {
                assert(ts[14].0.len() != ts[24].0.len());
            }
        } else if i == 15 {
            if j == 16 {
                assert(ts[15].0.len() != ts[16].0.len());
            } else if j == 17 {
                assert(ts[15].0.len() != ts[17].0.len());
            } else if j == 18 {
                assert(ts[15].0.len() != ts[18].0.len());
            } else if j == 19 {
                assert(ts[15].0.len() != ts[19].0.len());
            } else if j == 20 {
                assert(ts[15].0.len() != ts[20].0.len());
            } else if j == 21 {
                assert(ts[15].0.len() != ts[21].0.len());
            } else if j == 22 {
                assert(ts[15].0.len() != ts[22].0.len());
            } else if j == 23 {
                assert(ts[15].0[0] != ts[23].0[0]);
            } else if j == 24 {
                assert(ts[15].0[0] != ts[24].0[0]);
            }
        } else if i == 16 {
            if j == 17 {
                assert(ts[16].0.len() != ts[17].0.len());
            } else if j == 18 {
                assert(ts[16].0.len() != ts[18].0.len());
            } else if j == 19 {
                assert(ts[16].0[4] != ts[19].0[4]);
            } else if j == 20 {
                assert(ts[16].0.len() != ts[20].0.len());
            } else if j == 21 {
                assert(ts[16].0.len() != ts[21].0.len());
            } else if j == 22 {
                assert(ts[16].0.len() != ts[22].0.len());
            } else if j == 23 {
                assert(ts[16].0.len() != ts[23].0.len());
            } else if j == 24 {
                assert(ts[16].0.len() != ts[24].0.len());
            }
        } else if i == 17 {
            if j == 18 {
                assert(ts[17].0.len() != ts[18].0.len());
            } else if j == 19 {
                assert(ts[17].0.len() != ts[19].0.len());
            } else if j == 20 {
                assert(ts[17].0[0] != ts[20].0[0]);
            } else if j == 21 {
                assert(ts[17].0.len() != ts[21].0.len());
            } else if j == 22 {
                assert(ts[17].0.len() != ts[22].0.len());
            } else if j == 23 {
                assert(ts[17].0.len() != ts[23].0.len());
            } else if j == 24 {
                assert(ts[17].0.len() != ts[24].0.len());
            }
        } else if i == 18 {
            if j == 19 {
                assert(ts[18].0.len() != ts[19].0.len());
            } else if j == 20 {
                assert(ts[18].0.len() != ts[20].0.len());
            } else if j == 21 {
                assert(ts[18].0.len() != ts[21].0.len());
            } else if j == 22 {
                assert(ts[18].0.len() != ts[22].0.len());
            } else if j == 23 {
                assert(ts[18].0.len() != ts[23].0.len());
            } else if j == 24 {
                assert(ts[18].0.len() != ts[24].0.len());
            }
        } else if i == 19 {
            if j == 20 {
                assert(ts[19].0.len() != ts[20].0.len());
            } else if j == 21 {
                assert(ts[19].0.len() != ts[21].0.len());
            } else if j == 22 {
                assert(ts[19].0.len() != ts[22].0.len());
            } else if j == 23 {
                assert(ts[19].0.len() != ts[23].0.len());
            } else if j == 24 {
                assert(ts[19].0.len() != ts[24].0.len());
            }
        } else if i == 20 {
            if j == 21 {
                assert(ts[20].0.len() != ts[21].0.len());
            } else if j == 22 {
                assert(ts[20].0.len() != ts[22].0.len());
            } else if j == 23 {
                assert(ts[20].0.len() != ts[23].0.len());
            } else if j == 24 {
                assert(ts[20].0.len() != ts[24].0.len());
            }
        } else if i == 21 {
            if j == 22 {
                assert(ts[21].0.len() != ts[22].0.len());
            } else if j == 23 {
                assert(ts[21].0.len() != ts[23].0.len());
            } else if j == 24 {
                assert(ts[21].0.len() != ts[24].0.len());
            }
        } else if i == 22 {
            if j == 23 {
                assert(ts[22].0.len() != ts[23].0.len());
            } else if j == 24 {
                assert(ts[22].0.len() != ts[24].0.len());
            }
        } else if i == 23 {
            if j == 24 {
                assert(ts[23].0[0] != ts[24].0[0]);
            }
        } else if i == 24 {
        }
    }
}

/// Storing tools with distinct names one after the other gives a map with one
/// entry per tool, each under its own name.
proof fn lemma_insert_tools_distinct(ts: Seq<ToolView>)
    requires
        forall|i: int, j: int| 0 <= i < j < ts.len() ==> #[trigger] ts[i].0 != #[trigger] ts[j].0,
    ensures
        insert_tools(Map::empty(), ts).dom().finite(),
        insert_tools(Map::empty(), ts).len() == ts.len(),
        forall|i: int| 0 <= i < ts.len() ==> #[trigger] insert_tools(Map::empty(), ts)[ts[i].0] == ts[i],
        forall|k: Seq<char>| insert_tools(Map::empty(), ts).contains_key(k) ==> exists|i: int|
            0 <= i < ts.len() && #[trigger] ts[i].0 == k,
    decreases ts.len(),
{
    if ts.len() > 0 {
        let init = ts.drop_last();
        assert forall|i: int, j: int| 0 <= i < j < init.len() implies #[trigger] init[i].0 != #[trigger] init[j].0 by {
            assert(init[i] == ts[i] && init[j] == ts[j]);
        }
        lemma_insert_tools_distinct(init);
        let m = insert_tools(Map::empty(), init);
        let last = ts.last();
        assert(!m.contains_key(last.0)) by {
            if m.contains_key(last.0) {
                let i = choose|i: int| 0 <= i < init.len() && #[trigger] init[i].0 == last.0;
                assert(ts[i].0 == ts[ts.len() - 1].0);
            }
        }
        assert(m.insert(last.0, last).dom() =~= m.dom().insert(last.0));
        assert forall|i: int| 0 <= i < ts.len() implies #[trigger] insert_tools(Map::empty(), ts)[ts[i].0] == ts[i] by {
            if i < ts.len() - 1 {
                assert(init[i] == ts[i]);
                assert(ts[i].0 != ts[ts.len() - 1].0);
            }
        }
        assert forall|k: Seq<char>| insert_tools(Map::empty(), ts).contains_key(k) implies exists|i: int|
            0 <= i < ts.len() && #[trigger] ts[i].0 == k by {
            if k == last.0 {
                assert(ts[ts.len() - 1].0 == k);
            } else {
                let i = choose|i: int| 0 <= i < init.len() && #[trigger] init[i].0 == k;
                assert(ts[i] == init[i]);
            }
        }
    }
}

/// Registering the built-in tools in an empty registry gives exactly the
/// catalogue: one entry per built-in tool, each under its own name.
pub proof fn law_builtin_registry_is_the_catalogue()
    ensures
        insert_tools(Map::empty(), builtin_tools()).len() == builtin_tools().len(),
        forall|i: int| 0 <= i < builtin_tools().len() ==> #[trigger] insert_tools(Map::empty(), builtin_tools())[builtin_tools()[i].0] == builtin_tools()[i],
{
    law_builtin_names_distinct();
    lemma_insert_tools_distinct(builtin_tools());
}

} // verus!

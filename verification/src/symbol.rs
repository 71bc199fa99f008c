//! Symbol types used for code navigation, indexing, and semantic analysis,
//! and the numeric codes by which the Language Server Protocol names their
//! kinds.
use vstd::prelude::*;
use vstd::string::*;

verus! {

/// A symbol in a codebase — function, class, variable, etc.
#[derive(Debug, PartialEq)]
pub struct Symbol {
    /// The symbol name (e.g. `"parse_config"`)
    pub name: String,
    /// The kind of symbol
    pub kind: SymbolKind,
    /// Optional detail (e.g. type signature `"fn(&str) -> Result<Config>"`)
    pub detail: Option<String>,
    /// The full range of the symbol (declaration or definition)
    pub range: Range,
    /// The range of the identifier itself (smaller than `range`)
    pub selection_range: Option<Range>,
    /// Child symbols (e.g. methods on a struct)
    pub children: Vec<Symbol>,
    /// Optional tags (e.g. deprecated, unused)
    pub tags: Vec<SymbolTag>,
    /// Optional deprecation message
    pub deprecated: Option<String>,
}

/// Kinds of symbols.
#[derive(Debug, Clone, Copy, PartialEq, Eq, Hash)]
pub enum SymbolKind {
    File,
    Module,
    Namespace,
    Package,
    Class,
    Method,
    Property,
    Field,
    Constructor,
    Enum,
    Interface,
    Function,
    Variable,
    Constant,
    String,
    Number,
    Boolean,
    Array,
    Object,
    Key,
    Null,
    EnumMember,
    Struct,
    Event,
    Operator,
    TypeParameter,
    Unknown(i32),
}

/// Tags that can be attached to a symbol.
#[derive(Debug, Clone, Copy, PartialEq, Eq, Hash)]
pub enum SymbolTag {
    Deprecated,
    Unused,
    Unknown(i32),
}

/// A position in a text document (0-indexed).
#[derive(Debug, Clone, Copy, PartialEq, Eq, Hash)]
pub struct Position {
    /// Line number (0-indexed)
    pub line: u32,
    /// Column number (0-indexed, UTF-16 code units)
    pub column: u32,
}

/// A range in a text document.
#[derive(Debug, Clone, Copy, PartialEq, Eq, Hash)]
pub struct Range {
    /// Start position (inclusive)
    pub start: Position,
    /// End position (exclusive)
    pub end: Position,
}

/// A location in a text document.
#[derive(Debug, Clone, PartialEq)]
pub struct Location {
    /// The document URI
    pub uri: String,
    /// The range within the document
    pub range: Range,
}

/// Hover information.
#[derive(Debug, Clone, PartialEq)]
pub struct HoverInfo {
    /// The hover contents (markdown or plain text)
    pub contents: Vec<MarkupContent>,
    /// The range of the symbol being hovered over
    pub range: Option<Range>,
}

/// Markup content for display.
#[derive(Debug, Clone, PartialEq)]
pub struct MarkupContent {
    /// The kind of markup (markdown or plaintext)
    pub kind: MarkupKind,
    /// The content value
    pub value: String,
}

/// Kinds of markup.
#[derive(Debug, Clone, Copy, PartialEq, Eq, Hash)]
pub enum MarkupKind {
    PlainText,
    Markdown,
}

/// A code action / quick-fix.
#[derive(Debug, Clone, PartialEq)]
pub struct CodeAction {
    /// Title shown in the UI
    pub title: String,
    /// Optional kind (e.g. "quickfix", "refactor")
    pub kind: Option<String>,
    /// Optional diagnostics this action addresses
    pub diagnostics: Vec<Diagnostic>,
    /// The edit to apply, if known
    pub edit: Option<WorkspaceEdit>,
    /// Whether this is a preferred action
    pub is_preferred: Option<bool>,
}

/// A diagnostic message (error, warning, etc.).
#[derive(Debug, Clone, PartialEq)]
pub struct Diagnostic {
    /// The range where the diagnostic applies
    pub range: Range,
    /// Severity (1=error, 2=warning, 3=info, 4=hint)
    pub severity: Option<i32>,
    /// The diagnostic message
    pub message: String,
    /// Optional source (e.g. "rustc", "eslint")
    pub source: Option<String>,
    /// Optional diagnostic code
    pub code: Option<String>,
    /// Related information
    pub related_information: Vec<DiagnosticRelatedInfo>,
}

/// Related information for a diagnostic.
#[derive(Debug, Clone, PartialEq)]
pub struct DiagnosticRelatedInfo {
    pub location: Location,
    pub message: String,
}

/// A workspace edit (set of text changes).
#[derive(Debug, Clone, PartialEq)]
pub struct WorkspaceEdit {
    /// Changes per document URI
    pub changes: Vec<TextEdit>,
}

/// A single text edit to apply.
#[derive(Debug, Clone, PartialEq)]
pub struct TextEdit {
    /// The range to replace
    pub range: Range,
    /// The new text
    pub new_text: String,
}

/// A completion item.
#[derive(Debug, Clone, PartialEq)]
pub struct CompletionItem {
    pub label: String,
    pub kind: Option<CompletionItemKind>,
    pub detail: Option<String>,
    pub documentation: Option<String>,
}

/// Kinds of completion items.
#[derive(Debug, Clone, Copy, PartialEq, Eq, Hash)]
pub enum CompletionItemKind {
    Text,
    Method,
    Function,
    Constructor,
    Field,
    Variable,
    Class,
    Interface,
    Module,
    Property,
    Unit,
    Value,
    Enum,
    Keyword,
    Snippet,
    Color,
    File,
    Reference,
    Folder,
    EnumMember,
    Constant,
    Struct,
    Event,
    Operator,
    TypeParameter,
    Unknown(i32),
}

impl Position {
    /// Create a new position.
    pub fn new(line: u32, column: u32) -> (p: Self)
        ensures
            p.line == line,
            p.column == column,
    {
        Position { line, column }
    }
}

impl Range {
    /// Create a new range.
    pub fn new(start: Position, end: Position) -> (r: Self)
        ensures
            r.start == start,
            r.end == end,
    {
        Range { start, end }
    }
}

/// The symbol followed by all its descendants, depth first, parents before
/// children, children in order.
pub open spec fn preorder(s: Symbol) -> Seq<Symbol>
    decreases s, 1int,
{
    seq![s] + preorder_all(s.children@)
}

/// The depth-first listings of a sequence of sibling symbols, one after the
/// other.
pub open spec fn preorder_all(syms: Seq<Symbol>) -> Seq<Symbol>
    decreases syms, 0int,
{
    if syms.len() == 0 {
        Seq::empty()
    } else {
        preorder(syms[0]) + preorder_all(syms.subrange(1, syms.len() as int))
    }
}

impl Symbol {
    /// Flatten this symbol and its children into a list.
    pub fn flatten(&self) -> (res: Vec<&Symbol>)
        ensures
            res@.map_values(|r: &Symbol| *r) == preorder(*self),
        decreases self,
    {
        let mut result: Vec<&Symbol> = vec![self];
        let mut i: usize = 0;
        assert(self.children@.subrange(0, self.children@.len() as int) =~= self.children@);
        while i < self.children.len()
            invariant
                i <= self.children@.len(),
                result@.map_values(|r: &Symbol| *r) + preorder_all(
                    self.children@.subrange(i as int, self.children@.len() as int),
                ) == preorder(*self),
            decreases self.children.len() - i,
        {
            let child = &self.children[i];
            proof {
                assert(decreases_to!(*self => self.children));
                assert(decreases_to!(self.children => self.children@));
                assert(decreases_to!(self.children@ => self.children@[i as int]));
            }
            let sub = child.flatten();
            let ghost rest = self.children@.subrange(i as int, self.children@.len() as int);
            let ghost before = result@.map_values(|r: &Symbol| *r);
            let mut j: usize = 0;
            while j < sub.len()
                invariant
                    j <= sub@.len(),
                    result@.map_values(|r: &Symbol| *r) == before + sub@.map_values(|r: &Symbol| *r).take(j as int),
                decreases sub.len() - j,
            {
                let ghost prev = result@;
                result.push(sub[j]);
                proof {
                    assert(result@ == prev.push(sub@[j as int]));
                    assert(result@.map_values(|r: &Symbol| *r) =~= prev.map_values(|r: &Symbol| *r).push(
                        *sub@[j as int],
                    ));
                    assert(sub@.map_values(|r: &Symbol| *r).take(j + 1) =~= sub@.map_values(
                        |r: &Symbol| *r,
                    ).take(j as int).push(*sub@[j as int]));
                }
                j = j + 1;
                assert(result@.map_values(|r: &Symbol| *r) =~= before + sub@.map_values(|r: &Symbol| *r).take(j as int));
            }
            i = i + 1;
            assert(rest.subrange(1, rest.len() as int) =~= self.children@.subrange(i as int, self.children@.len() as int));
            assert(sub@.map_values(|r: &Symbol| *r).take(sub@.len() as int) =~= sub@.map_values(|r: &Symbol| *r));
            assert(rest[0] == *child);
        }
        assert(self.children@.subrange(i as int, self.children@.len() as int) =~= Seq::<Symbol>::empty());
        result
    }
}

/// The symbol kind that an LSP `SymbolKind` code denotes (codes 1 to 26);
/// any other code is `Unknown(0)`.
pub open spec fn symbol_kind_of_code(code: i32) -> SymbolKind {
    if code == 1 { SymbolKind::File }
    else if code == 2 { SymbolKind::Module }
    else if code == 3 { SymbolKind::Namespace }
    else if code == 4 { SymbolKind::Package }
    else if code == 5 { SymbolKind::Class }
    else if code == 6 { SymbolKind::Method }
    else if code == 7 { SymbolKind::Property }
    else if code == 8 { SymbolKind::Field }
    else if code == 9 { SymbolKind::Constructor }
    else if code == 10 { SymbolKind::Enum }
    else if code == 11 { SymbolKind::Interface }
    else if code == 12 { SymbolKind::Function }
    else if code == 13 { SymbolKind::Variable }
    else if code == 14 { SymbolKind::Constant }
    else if code == 15 { SymbolKind::String }
    else if code == 16 { SymbolKind::Number }
    else if code == 17 { SymbolKind::Boolean }
    else if code == 18 { SymbolKind::Array }
    else if code == 19 { SymbolKind::Object }
    else if code == 20 { SymbolKind::Key }
    else if code == 21 { SymbolKind::Null }
    else if code == 22 { SymbolKind::EnumMember }
    else if code == 23 { SymbolKind::Struct }
    else if code == 24 { SymbolKind::Event }
    else if code == 25 { SymbolKind::Operator }
    else if code == 26 { SymbolKind::TypeParameter }
    else { SymbolKind::Unknown(0) }
}

/// The LSP code of a symbol kind; `Unknown` kinds are sent as code 1 (file).
pub open spec fn code_of_symbol_kind(kind: SymbolKind) -> i32 {
    match kind {
        SymbolKind::File => 1,
        SymbolKind::Module => 2,
        SymbolKind::Namespace => 3,
        SymbolKind::Package => 4,
        SymbolKind::Class => 5,
        SymbolKind::Method => 6,
        SymbolKind::Property => 7,
        SymbolKind::Field => 8,
        SymbolKind::Constructor => 9,
        SymbolKind::Enum => 10,
        SymbolKind::Interface => 11,
        SymbolKind::Function => 12,
        SymbolKind::Variable => 13,
        SymbolKind::Constant => 14,
        SymbolKind::String => 15,
        SymbolKind::Number => 16,
        SymbolKind::Boolean => 17,
        SymbolKind::Array => 18,
        SymbolKind::Object => 19,
        SymbolKind::Key => 20,
        SymbolKind::Null => 21,
        SymbolKind::EnumMember => 22,
        SymbolKind::Struct => 23,
        SymbolKind::Event => 24,
        SymbolKind::Operator => 25,
        SymbolKind::TypeParameter => 26,
        SymbolKind::Unknown(_) => 1,
    }
}

impl SymbolKind {
    /// The symbol kind of an LSP `SymbolKind` code.
    pub fn from_lsp_code(code: i32) -> (k: SymbolKind)
        ensures
            k == symbol_kind_of_code(code),
    {
        if code == 1 { SymbolKind::File }
        else if code == 2 { SymbolKind::Module }
        else if code == 3 { SymbolKind::Namespace }
        else if code == 4 { SymbolKind::Package }
        else if code == 5 { SymbolKind::Class }
        else if code == 6 { SymbolKind::Method }
        else if code == 7 { SymbolKind::Property }
        else if code == 8 { SymbolKind::Field }
        else if code == 9 { SymbolKind::Constructor }
        else if code == 10 { SymbolKind::Enum }
        else if code == 11 { SymbolKind::Interface }
        else if code == 12 { SymbolKind::Function }
        else if code == 13 { SymbolKind::Variable }
        else if code == 14 { SymbolKind::Constant }
        else if code == 15 { SymbolKind::String }
        else if code == 16 { SymbolKind::Number }
        else if code == 17 { SymbolKind::Boolean }
        else if code == 18 { SymbolKind::Array }
        else if code == 19 { SymbolKind::Object }
        else if code == 20 { SymbolKind::Key }
        else if code == 21 { SymbolKind::Null }
        else if code == 22 { SymbolKind::EnumMember }
        else if code == 23 { SymbolKind::Struct }
        else if code == 24 { SymbolKind::Event }
        else if code == 25 { SymbolKind::Operator }
        else if code == 26 { SymbolKind::TypeParameter }
        else { SymbolKind::Unknown(0) }
    }

    /// The LSP `SymbolKind` code of this kind.
    pub fn lsp_code(&self) -> (code: i32)
        ensures
            code == code_of_symbol_kind(*self),
    {
        match self {
            SymbolKind::File => 1,
            SymbolKind::Module => 2,
            SymbolKind::Namespace => 3,
            SymbolKind::Package => 4,
            SymbolKind::Class => 5,
            SymbolKind::Method => 6,
            SymbolKind::Property => 7,
            SymbolKind::Field => 8,
            SymbolKind::Constructor => 9,
            SymbolKind::Enum => 10,
            SymbolKind::Interface => 11,
            SymbolKind::Function => 12,
            SymbolKind::Variable => 13,
            SymbolKind::Constant => 14,
            SymbolKind::String => 15,
            SymbolKind::Number => 16,
            SymbolKind::Boolean => 17,
            SymbolKind::Array => 18,
            SymbolKind::Object => 19,
            SymbolKind::Key => 20,
            SymbolKind::Null => 21,
            SymbolKind::EnumMember => 22,
            SymbolKind::Struct => 23,
            SymbolKind::Event => 24,
            SymbolKind::Operator => 25,
            SymbolKind::TypeParameter => 26,
            SymbolKind::Unknown(_) => 1,
        }
    }
}

/// A known symbol kind survives the trip to its LSP code and back; so does a
/// known code.
pub proof fn law_symbol_kind_code_round_trip(kind: SymbolKind, code: i32)
    ensures
        !(kind is Unknown) ==> symbol_kind_of_code(code_of_symbol_kind(kind)) == kind,
        1 <= code <= 26 ==> code_of_symbol_kind(symbol_kind_of_code(code)) == code,
{
}

/// The tag an LSP `SymbolTag` code denotes: 1 is deprecated, anything else
/// is `Unknown(0)`.
pub open spec fn symbol_tag_of_code(code: i32) -> SymbolTag {
    if code == 1 {
        SymbolTag::Deprecated
    } else {
        SymbolTag::Unknown(0)
    }
}

impl SymbolTag {
    /// The symbol tag of an LSP `SymbolTag` code.
    pub fn from_lsp_code(code: i32) -> (t: SymbolTag)
        ensures
            t == symbol_tag_of_code(code),
    {
        if code == 1 {
            SymbolTag::Deprecated
        } else {
            SymbolTag::Unknown(0)
        }
    }
}

/// Some tag in `tags` marks deprecation.
pub open spec fn has_deprecated_tag(tags: Seq<SymbolTag>) -> bool {
    exists|i: int| 0 <= i < tags.len() && #[trigger] tags[i] is Deprecated
}

/// Whether some tag in `tags` marks deprecation.
pub fn tagged_deprecated(tags: &Vec<SymbolTag>) -> (b: bool)
    ensures
        b == has_deprecated_tag(tags@),
{
    let mut i: usize = 0;
    while i < tags.len()
        invariant
            i <= tags@.len(),
            forall|j: int| 0 <= j < i ==> !(#[trigger] tags@[j] is Deprecated),
        decreases tags.len() - i,
    {
        if let SymbolTag::Deprecated = tags[i] {
            assert(tags@[i as int] is Deprecated);
            return true;
        }
        i = i + 1;
    }
    false
}

/// The note a symbol carries: `"deprecated"` when it is deprecated, none
/// otherwise.
pub open spec fn deprecation_note(deprecated: bool) -> Option<Seq<char>> {
    if deprecated {
        Some("deprecated"@)
    } else {
        None
    }
}

/// The note a symbol that is (or is not) `deprecated` carries.
pub fn deprecation_note_of(deprecated: bool) -> (r: Option<String>)
    ensures
        match r {
            Some(s) => deprecation_note(deprecated) == Some(s@),
            None => deprecation_note(deprecated) is None,
        },
{
    if deprecated {
        Some(String::from_str("deprecated"))
    } else {
        None
    }
}

/// The completion item kind an LSP `CompletionItemKind` code denotes (codes 1
/// to 25); any other code is `Unknown(0)`.
pub open spec fn completion_kind_of_code(code: i32) -> CompletionItemKind {
    if code == 1 { CompletionItemKind::Text }
    else if code == 2 { CompletionItemKind::Method }
    else if code == 3 { CompletionItemKind::Function }
    else if code == 4 { CompletionItemKind::Constructor }
    else if code == 5 { CompletionItemKind::Field }
    else if code == 6 { CompletionItemKind::Variable }
    else if code == 7 { CompletionItemKind::Class }
    else if code == 8 { CompletionItemKind::Interface }
    else if code == 9 { CompletionItemKind::Module }
    else if code == 10 { CompletionItemKind::Property }
    else if code == 11 { CompletionItemKind::Unit }
    else if code == 12 { CompletionItemKind::Value }
    else if code == 13 { CompletionItemKind::Enum }
    else if code == 14 { CompletionItemKind::Keyword }
    else if code == 15 { CompletionItemKind::Snippet }
    else if code == 16 { CompletionItemKind::Color }
    else if code == 17 { CompletionItemKind::File }
    else if code == 18 { CompletionItemKind::Reference }
    else if code == 19 { CompletionItemKind::Folder }
    else if code == 20 { CompletionItemKind::EnumMember }
    else if code == 21 { CompletionItemKind::Constant }
    else if code == 22 { CompletionItemKind::Struct }
    else if code == 23 { CompletionItemKind::Event }
    else if code == 24 { CompletionItemKind::Operator }
    else if code == 25 { CompletionItemKind::TypeParameter }
    else { CompletionItemKind::Unknown(0) }
}

impl CompletionItemKind {
    /// The completion item kind of an LSP `CompletionItemKind` code.
    pub fn from_lsp_code(code: i32) -> (k: CompletionItemKind)
        ensures
            k == completion_kind_of_code(code),
    {
        if code == 1 { CompletionItemKind::Text }
        else if code == 2 { CompletionItemKind::Method }
        else if code == 3 { CompletionItemKind::Function }
        else if code == 4 { CompletionItemKind::Constructor }
        else if code == 5 { CompletionItemKind::Field }
        else if code == 6 { CompletionItemKind::Variable }
        else if code == 7 { CompletionItemKind::Class }
        else if code == 8 { CompletionItemKind::Interface }
        else if code == 9 { CompletionItemKind::Module }
        else if code == 10 { CompletionItemKind::Property }
        else if code == 11 { CompletionItemKind::Unit }
        else if code == 12 { CompletionItemKind::Value }
        else if code == 13 { CompletionItemKind::Enum }
        else if code == 14 { CompletionItemKind::Keyword }
        else if code == 15 { CompletionItemKind::Snippet }
        else if code == 16 { CompletionItemKind::Color }
        else if code == 17 { CompletionItemKind::File }
        else if code == 18 { CompletionItemKind::Reference }
        else if code == 19 { CompletionItemKind::Folder }
        else if code == 20 { CompletionItemKind::EnumMember }
        else if code == 21 { CompletionItemKind::Constant }
        else if code == 22 { CompletionItemKind::Struct }
        else if code == 23 { CompletionItemKind::Event }
        else if code == 24 { CompletionItemKind::Operator }
        else if code == 25 { CompletionItemKind::TypeParameter }
        else { CompletionItemKind::Unknown(0) }
    }
}

} // verus!

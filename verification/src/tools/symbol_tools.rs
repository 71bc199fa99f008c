//! Symbol tools: the symbol entries that the tools answer with, the search of
//! symbols by name, and the choice of language server for a file.
use vstd::prelude::*;
use vstd::string::*;
use crate::provider::{LanguageServerProvider, ServerConfig, for_file_spec, opt_view};
use crate::namemap::NameMap;
use crate::symbol::{Location, Symbol, SymbolKind, TextEdit, preorder};
use crate::text::{chars_of, find_seq, find_seq_from, push_char, str_equal};

verus! {

/// Parameters for querying symbols in a file.
#[derive(Debug, Clone)]
pub struct SymbolQueryParams {
    /// File path or URI to query
    pub file_path: String,
    /// Optional text content to send to the LSP server
    pub text: Option<String>,
    /// Language ID override (auto-detected from extension if absent)
    pub language_id: Option<String>,
    /// Optional symbol name filter (for find_symbol)
    pub query: Option<String>,
}

/// Parameters for finding references to a symbol.
#[derive(Debug, Clone)]
pub struct ReferenceQueryParams {
    /// File path or URI
    pub file_path: String,
    /// Line number (0-indexed)
    pub line: u32,
    /// Column number (0-indexed)
    pub column: u32,
}

/// A symbol result formatted for tool output.
#[derive(Debug)]
pub struct SymbolEntry {
    pub name: String,
    pub kind: String,
    pub detail: Option<String>,
    pub file_path: String,
    pub line: u32,
    pub column: u32,
    pub children: Vec<SymbolEntry>,
}

/// A 2D position in a text document.
#[derive(Debug, Clone, Copy)]
pub struct Position2d {
    pub line: u32,
    pub column: u32,
}

/// A range within a location.
#[derive(Debug, Clone, Copy)]
pub struct LocationRange {
    pub start: Position2d,
    pub end: Position2d,
}

/// A location pointing to a definition or reference.
#[derive(Debug, Clone)]
pub struct DefinitionLocation {
    pub uri: String,
    pub range: LocationRange,
}

impl DefinitionLocation {
    /// The tool form of a location.
    pub fn from_location(loc: &Location) -> (d: DefinitionLocation)
        ensures
            d.uri@ == loc.uri@,
            d.range.start.line == loc.range.start.line,
            d.range.start.column == loc.range.start.column,
            d.range.end.line == loc.range.end.line,
            d.range.end.column == loc.range.end.column,
    {
        DefinitionLocation {
            uri: loc.uri.clone(),
            range: LocationRange {
                start: Position2d { line: loc.range.start.line, column: loc.range.start.column },
                end: Position2d { line: loc.range.end.line, column: loc.range.end.column },
            },
        }
    }
}

/// The decimal digit `d` (for `0 <= d < 10`).
pub open spec fn digit_char(d: int) -> char {
    if d == 0 { '0' }
    else if d == 1 { '1' }
    else if d == 2 { '2' }
    else if d == 3 { '3' }
    else if d == 4 { '4' }
    else if d == 5 { '5' }
    else if d == 6 { '6' }
    else if d == 7 { '7' }
    else if d == 8 { '8' }
    else { '9' }
}

/// The decimal digits of `n`, most significant first, without leading zeros.
pub open spec fn decimal_digits(n: nat) -> Seq<char>
    decreases n,
{
    if n < 10 {
        seq![digit_char(n as int)]
    } else {
        decimal_digits(n / 10).push(digit_char((n % 10) as int))
    }
}

/// `n` written in decimal, with a leading `-` when negative.
pub open spec fn decimal(n: int) -> Seq<char> {
    if n < 0 {
        seq!['-'] + decimal_digits((-n) as nat)
    } else {
        decimal_digits(n as nat)
    }
}

fn digit(d: u64) -> (c: char)
    requires
        d < 10,
    ensures
        c == digit_char(d as int),
{
    if d == 0 { '0' }
    else if d == 1 { '1' }
    else if d == 2 { '2' }
    else if d == 3 { '3' }
    else if d == 4 { '4' }
    else if d == 5 { '5' }
    else if d == 6 { '6' }
    else if d == 7 { '7' }
    else if d == 8 { '8' }
    else { '9' }
}

/// `n` written in decimal.
pub fn decimal_text(n: i32) -> (s: String)
    ensures
        s@ == decimal(n as int),
{
    let wide = n as i64;
    let mut m: u64 = if wide < 0 {
        (-wide) as u64
    } else {
        wide as u64
    };
    let ghost total: nat = m as nat;
    let mut out: Vec<char> = Vec::new();
    while m >= 10
        invariant
            decimal_digits(total) == decimal_digits(m as nat) + out@,
        decreases m,
    {
        let d = m % 10;
        let ghost before = out@;
        out.insert(0, digit(d));
        assert(decimal_digits(m as nat) == decimal_digits((m / 10) as nat).push(digit_char(d as int)));
        assert(out@ =~= seq![digit_char(d as int)] + before);
        assert(decimal_digits((m / 10) as nat) + out@ =~= decimal_digits(m as nat) + before);
        m = m / 10;
    }
    let ghost before = out@;
    out.insert(0, digit(m));
    assert(out@ =~= decimal_digits(total));
    let mut s = String::new();
    if n < 0 {
        push_char(&mut s, '-');
    }
    let mut i: usize = 0;
    let ghost sign: Seq<char> = if n < 0 { seq!['-'] } else { Seq::empty() };
    assert(s@ =~= sign);
    while i < out.len()
        invariant
            i <= out@.len(),
            s@ == sign + out@.take(i as int),
        decreases out.len() - i,
    {
        push_char(&mut s, out[i]);
        i = i + 1;
        assert(s@ =~= sign + out@.take(i as int));
    }
    assert(out@.take(out@.len() as int) =~= out@);
    s
}

/// The name under which a symbol kind is shown (its `Debug` form).
pub open spec fn kind_name(kind: SymbolKind) -> Seq<char> {
    match kind {
        SymbolKind::File => "File"@,
        SymbolKind::Module => "Module"@,
        SymbolKind::Namespace => "Namespace"@,
        SymbolKind::Package => "Package"@,
        SymbolKind::Class => "Class"@,
        SymbolKind::Method => "Method"@,
        SymbolKind::Property => "Property"@,
        SymbolKind::Field => "Field"@,
        SymbolKind::Constructor => "Constructor"@,
        SymbolKind::Enum => "Enum"@,
        SymbolKind::Interface => "Interface"@,
        SymbolKind::Function => "Function"@,
        SymbolKind::Variable => "Variable"@,
        SymbolKind::Constant => "Constant"@,
        SymbolKind::String => "String"@,
        SymbolKind::Number => "Number"@,
        SymbolKind::Boolean => "Boolean"@,
        SymbolKind::Array => "Array"@,
        SymbolKind::Object => "Object"@,
        SymbolKind::Key => "Key"@,
        SymbolKind::Null => "Null"@,
        SymbolKind::EnumMember => "EnumMember"@,
        SymbolKind::Struct => "Struct"@,
        SymbolKind::Event => "Event"@,
        SymbolKind::Operator => "Operator"@,
        SymbolKind::TypeParameter => "TypeParameter"@,
        SymbolKind::Unknown(n) => "Unknown("@ + decimal(n as int) + ")"@,
    }
}

/// The name under which a symbol kind is shown.
pub fn kind_label(kind: SymbolKind) -> (s: String)
    ensures
        s@ == kind_name(kind),
{
    match kind {
        SymbolKind::File => String::from_str("File"),
        SymbolKind::Module => String::from_str("Module"),
        SymbolKind::Namespace => String::from_str("Namespace"),
        SymbolKind::Package => String::from_str("Package"),
        SymbolKind::Class => String::from_str("Class"),
        SymbolKind::Method => String::from_str("Method"),
        SymbolKind::Property => String::from_str("Property"),
        SymbolKind::Field => String::from_str("Field"),
        SymbolKind::Constructor => String::from_str("Constructor"),
        SymbolKind::Enum => String::from_str("Enum"),
        SymbolKind::Interface => String::from_str("Interface"),
        SymbolKind::Function => String::from_str("Function"),
        SymbolKind::Variable => String::from_str("Variable"),
        SymbolKind::Constant => String::from_str("Constant"),
        SymbolKind::String => String::from_str("String"),
        SymbolKind::Number => String::from_str("Number"),
        SymbolKind::Boolean => String::from_str("Boolean"),
        SymbolKind::Array => String::from_str("Array"),
        SymbolKind::Object => String::from_str("Object"),
        SymbolKind::Key => String::from_str("Key"),
        SymbolKind::Null => String::from_str("Null"),
        SymbolKind::EnumMember => String::from_str("EnumMember"),
        SymbolKind::Struct => String::from_str("Struct"),
        SymbolKind::Event => String::from_str("Event"),
        SymbolKind::Operator => String::from_str("Operator"),
        SymbolKind::TypeParameter => String::from_str("TypeParameter"),
        SymbolKind::Unknown(n) => {
            let mut s = String::from_str("Unknown(");
            let d = decimal_text(n);
            s.append(d.as_str());
            s.append(")");
            s
        },
    }
}

/// `e` is the tool entry of the symbol `s` found in the file `path`: its
/// fields, and the entries of its children in order.
pub open spec fn entry_of(e: SymbolEntry, s: Symbol, path: Seq<char>) -> bool
    decreases s, 1int,
{
    &&& e.name@ == s.name@
    &&& e.kind@ == kind_name(s.kind)
    &&& opt_view(e.detail) == opt_view(s.detail)
    &&& e.file_path@ == path
    &&& e.line == s.range.start.line
    &&& e.column == s.range.start.column
    &&& entries_of(e.children@, s.children@, path)
}

/// `es` are the tool entries of the symbols `ss`, one for one.
pub open spec fn entries_of(es: Seq<SymbolEntry>, ss: Seq<Symbol>, path: Seq<char>) -> bool
    decreases ss, 0int,
{
    if ss.len() == 0 {
        es.len() == 0
    } else {
        &&& es.len() > 0
        &&& entry_of(es[0], ss[0], path)
        &&& entries_of(es.subrange(1, es.len() as int), ss.subrange(1, ss.len() as int), path)
    }
}

/// Entries of a sequence of symbols extend by one entry of one more symbol.
pub proof fn lemma_entries_push(es: Seq<SymbolEntry>, ss: Seq<Symbol>, e: SymbolEntry, s: Symbol, path: Seq<char>)
    requires
        entries_of(es, ss, path),
        entry_of(e, s, path),
    ensures
        entries_of(es.push(e), ss.push(s), path),
    decreases ss.len(),
{
    if ss.len() == 0 {
        assert(es.len() == 0);
        assert(es.push(e).subrange(1, 1) =~= Seq::<SymbolEntry>::empty());
        assert(ss.push(s).subrange(1, 1) =~= Seq::<Symbol>::empty());
        assert(es.push(e)[0] == e);
        assert(ss.push(s)[0] == s);
        assert(entries_of(Seq::<SymbolEntry>::empty(), Seq::<Symbol>::empty(), path));
    } else {
        lemma_entries_push(
            es.subrange(1, es.len() as int),
            ss.subrange(1, ss.len() as int),
            e,
            s,
            path,
        );
        assert(es.push(e).subrange(1, es.len() + 1 as int) =~= es.subrange(1, es.len() as int).push(e));
        assert(ss.push(s).subrange(1, ss.len() + 1 as int) =~= ss.subrange(1, ss.len() as int).push(s));
        assert(es.push(e)[0] == es[0]);
        assert(ss.push(s)[0] == ss[0]);
    }
}

impl SymbolEntry {
    /// The tool entry of `sym`, found in the file `path`.
    pub fn from_symbol(sym: &Symbol, path: &str) -> (e: SymbolEntry)
        ensures
            entry_of(e, *sym, path@),
        decreases sym,
    {
        let mut children: Vec<SymbolEntry> = Vec::new();
        let mut i: usize = 0;
        assert(sym.children@.take(0) =~= Seq::<Symbol>::empty());
        while i < sym.children.len()
            invariant
                i <= sym.children@.len(),
                entries_of(children@, sym.children@.take(i as int), path@),
            decreases sym.children.len() - i,
        {
            let child = &sym.children[i];
            proof {
                assert(decreases_to!(*sym => sym.children));
                assert(decreases_to!(sym.children => sym.children@));
                assert(decreases_to!(sym.children@ => sym.children@[i as int]));
            }
            let e = SymbolEntry::from_symbol(child, path);
            proof {
                lemma_entries_push(children@, sym.children@.take(i as int), e, *child, path@);
                assert(sym.children@.take(i + 1) =~= sym.children@.take(i as int).push(*child));
            }
            children.push(e);
            i = i + 1;
        }
        assert(sym.children@.take(sym.children@.len() as int) =~= sym.children@);
        let detail = match &sym.detail {
            Some(d) => Some(d.clone()),
            None => None,
        };
        SymbolEntry {
            name: sym.name.clone(),
            kind: kind_label(sym.kind),
            detail,
            file_path: path.to_owned(),
            line: sym.range.start.line,
            column: sym.range.start.column,
            children,
        }
    }
}

/// `text` in lower case, as `str::to_lowercase` gives it.
pub uninterp spec fn lowercase(text: Seq<char>) -> Seq<char>;

/// `str::to_lowercase`: the lower-case form of `text`, by Unicode's case
/// mapping. The result is named, not stated.
#[verifier::external_body]
fn to_lowercase(text: &str) -> (r: String)
    ensures
        r@ == lowercase(text@),
{
    text.to_lowercase()
}

/// Whether a name matches a query that is already in lower case: the lower
/// case name contains it.
pub open spec fn name_hits(name: Seq<char>, query_lower: Seq<char>) -> bool {
    find_seq_from(lowercase(name), query_lower, 0) is Some
}

/// The symbols among `cs` whose names match, other than those named
/// `top_name`.
pub open spec fn hits_besides(cs: Seq<Symbol>, query_lower: Seq<char>, top_name: Seq<char>) -> Seq<Symbol>
    decreases cs.len(),
{
    if cs.len() == 0 {
        Seq::empty()
    } else {
        let rest = hits_besides(cs.drop_last(), query_lower, top_name);
        let c = cs.last();
        if name_hits(c.name@, query_lower) && c.name@ != top_name {
            rest.push(c)
        } else {
            rest
        }
    }
}

/// The symbols that a search by name finds in one top-level symbol: the symbol
/// itself when it matches, then the matching symbols of its flattened tree
/// that do not carry its name.
pub open spec fn hits_in(sym: Symbol, query_lower: Seq<char>) -> Seq<Symbol> {
    (if name_hits(sym.name@, query_lower) {
        seq![sym]
    } else {
        Seq::empty()
    }) + hits_besides(preorder(sym), query_lower, sym.name@)
}

/// The symbols that a search by name finds among top-level symbols, in order.
pub open spec fn symbol_hits(syms: Seq<Symbol>, query_lower: Seq<char>) -> Seq<Symbol>
    decreases syms.len(),
{
    if syms.len() == 0 {
        Seq::empty()
    } else {
        symbol_hits(syms.drop_last(), query_lower) + hits_in(syms.last(), query_lower)
    }
}

/// Whether the (already lower-cased) `query` occurs in the lower case form of
/// `name`.
fn hits(name: &str, query_lower: &Vec<char>) -> (b: bool)
    ensures
        b == name_hits(name@, query_lower@),
{
    let lower = to_lowercase(name);
    let lc = chars_of(lower.as_str());
    find_seq(&lc, query_lower, 0).is_some()
}

/// The entries of the symbols whose names contain `query`, ignoring case, as
/// `find_symbol` answers them: for each top-level symbol, the symbol when it
/// matches, then the matching symbols of its tree that do not carry its name.
pub fn matching_symbols(symbols: &Vec<Symbol>, query: &str, path: &str) -> (found: Vec<SymbolEntry>)
    ensures
        entries_of(found@, symbol_hits(symbols@, lowercase(query@)), path@),
{
    let q = to_lowercase(query);
    let qc = chars_of(q.as_str());
    let ghost ql = lowercase(query@);
    let mut found: Vec<SymbolEntry> = Vec::new();
    let ghost mut hit_syms: Seq<Symbol> = Seq::empty();
    let mut i: usize = 0;
    assert(symbols@.take(0) =~= Seq::<Symbol>::empty());
    while i < symbols.len()
        invariant
            i <= symbols@.len(),
            qc@ == ql,
            hit_syms == symbol_hits(symbols@.take(i as int), ql),
            entries_of(found@, hit_syms, path@),
        decreases symbols.len() - i,
    {
        let sym = &symbols[i];
        let ghost start_hits = hit_syms;
        if hits(sym.name.as_str(), &qc) {
            let e = SymbolEntry::from_symbol(sym, path);
            proof {
                lemma_entries_push(found@, hit_syms, e, *sym, path@);
                hit_syms = hit_syms.push(*sym);
            }
            found.push(e);
        }
        let ghost after_top = hit_syms;
        let flat = sym.flatten();
        let ghost pre = preorder(*sym);
        assert(flat@.map_values(|r: &Symbol| *r) == pre);
        let mut j: usize = 0;
        assert(pre.take(0) =~= Seq::<Symbol>::empty());
        assert(hit_syms =~= after_top + hits_besides(pre.take(0), ql, sym.name@));
        while j < flat.len()
            invariant
                j <= flat@.len() == pre.len(),
                flat@.map_values(|r: &Symbol| *r) == pre,
                qc@ == ql,
                hit_syms == after_top + hits_besides(pre.take(j as int), ql, sym.name@),
                entries_of(found@, hit_syms, path@),
            decreases flat.len() - j,
        {
            let child = flat[j];
            assert(*child == pre[j as int]);
            assert(pre.take(j + 1).drop_last() =~= pre.take(j as int));
            assert(pre.take(j + 1).last() == *child);
            if hits(child.name.as_str(), &qc) && !str_equal(child.name.as_str(), sym.name.as_str()) {
                let e = SymbolEntry::from_symbol(child, path);
                proof {
                    lemma_entries_push(found@, hit_syms, e, *child, path@);
                    hit_syms = hit_syms.push(*child);
                }
                found.push(e);
                assert(hit_syms =~= after_top + hits_besides(pre.take(j + 1), ql, sym.name@));
            } else {
                assert(hit_syms =~= after_top + hits_besides(pre.take(j + 1), ql, sym.name@));
            }
            j = j + 1;
        }
        assert(pre.take(pre.len() as int) =~= pre);
        assert(symbols@.take(i + 1).drop_last() =~= symbols@.take(i as int));
        assert(symbols@.take(i + 1).last() == *sym);
        assert(hit_syms =~= start_hits + hits_in(*sym, ql));
        i = i + 1;
    }
    assert(symbols@.take(symbols@.len() as int) =~= symbols@);
    found
}

/// The entries of top-level symbols, as `list_symbols` answers them.
pub fn symbol_entries(symbols: &Vec<Symbol>, path: &str) -> (entries: Vec<SymbolEntry>)
    ensures
        entries_of(entries@, symbols@, path@),
{
    let mut entries: Vec<SymbolEntry> = Vec::new();
    let mut i: usize = 0;
    assert(symbols@.take(0) =~= Seq::<Symbol>::empty());
    while i < symbols.len()
        invariant
            i <= symbols@.len(),
            entries_of(entries@, symbols@.take(i as int), path@),
        decreases symbols.len() - i,
    {
        let e = SymbolEntry::from_symbol(&symbols[i], path);
        proof {
            lemma_entries_push(entries@, symbols@.take(i as int), e, symbols@[i as int], path@);
            assert(symbols@.take(i + 1) =~= symbols@.take(i as int).push(symbols@[i as int]));
        }
        entries.push(e);
        i = i + 1;
    }
    assert(symbols@.take(symbols@.len() as int) =~= symbols@);
    entries
}

/// The message for a file that no language server handles.
pub open spec fn no_server_text(path: Seq<char>) -> Seq<char> {
    "No language server configured for file: "@ + path
}

/// The language server configuration for a file, or the message that none
/// handles it.
pub fn resolve_server<'a>(provider: &'a LanguageServerProvider, file_path: &str) -> (res: Result<
    &'a ServerConfig,
    String,
>)
    requires
        provider.wf(),
    ensures
        match for_file_spec(provider@, file_path@) {
            Some(c) => res matches Ok(r) && r@ == c,
            None => res matches Err(m) && m@ == no_server_text(file_path@),
        },
{
    match provider.for_file(file_path) {
        Some(c) => Ok(c),
        None => {
            let mut m = String::from_str("No language server configured for file: ");
            m.append(file_path);
            Err(m)
        },
    }
}

/// The language id under which a document is opened with a server: the
/// server's first language id, else `plaintext`.
pub fn language_id_for(config: &ServerConfig) -> (id: String)
    ensures
        config@.language_ids.len() > 0 ==> id@ == config@.language_ids[0],
        config@.language_ids.len() == 0 ==> id@ == "plaintext"@,
{
    if config.language_ids.len() > 0 {
        config.language_ids[0].clone()
    } else {
        String::from_str("plaintext")
    }
}

/// The name of an LSP diagnostic severity code.
pub open spec fn severity_text(code: i32) -> Seq<char> {
    if code == 1 {
        "error"@
    } else if code == 2 {
        "warning"@
    } else if code == 3 {
        "info"@
    } else if code == 4 {
        "hint"@
    } else {
        "unknown"@
    }
}

/// The name of an LSP diagnostic severity code.
pub fn severity_name(code: i32) -> (s: &'static str)
    ensures
        s@ == severity_text(code),
{
    if code == 1 {
        "error"
    } else if code == 2 {
        "warning"
    } else if code == 3 {
        "info"
    } else if code == 4 {
        "hint"
    } else {
        "unknown"
    }
}

/// The edits per document that a rename answers with: `m` with every entry
/// of `edits` that has at least one edit stored under its document, one after
/// the other.
pub open spec fn store_nonempty(
    m: Map<Seq<char>, Seq<TextEdit>>,
    edits: Seq<(Seq<char>, Seq<TextEdit>)>,
) -> Map<Seq<char>, Seq<TextEdit>>
    decreases edits.len(),
{
    if edits.len() == 0 {
        m
    } else {
        let before = store_nonempty(m, edits.drop_last());
        if edits.last().1.len() > 0 {
            before.insert(edits.last().0, edits.last().1)
        } else {
            before
        }
    }
}

/// The changes of a rename: the edits of the document changes, by document,
/// leaving out documents without edits; when that leaves nothing, the edits of
/// the plain change map instead.
pub open spec fn rename_changes_spec(
    document_edits: Seq<(Seq<char>, Seq<TextEdit>)>,
    fallback: Seq<(Seq<char>, Seq<TextEdit>)>,
) -> Map<Seq<char>, Seq<TextEdit>> {
    let primary = store_nonempty(Map::empty(), document_edits);
    if primary.len() == 0 {
        store_nonempty(Map::empty(), fallback)
    } else {
        primary
    }
}

/// The edits of a list of documents as a mathematical sequence.
pub open spec fn edits_view(v: Seq<(String, Vec<TextEdit>)>) -> Seq<(Seq<char>, Seq<TextEdit>)> {
    v.map_values(|e: (String, Vec<TextEdit>)| (e.0@, e.1@))
}

/// Store the entries with edits of `edits` into `out`.
fn store_edits(out: &mut NameMap<Vec<TextEdit>>, edits: Vec<(String, Vec<TextEdit>)>)
    requires
        old(out).wf(),
    ensures
        final(out).wf(),
        final(out).map().map_values(|v: Vec<TextEdit>| v@) == store_nonempty(
            old(out).map().map_values(|v: Vec<TextEdit>| v@),
            edits_view(edits@),
        ),
{
    let ghost start = out.map().map_values(|v: Vec<TextEdit>| v@);
    let ghost all = edits_view(edits@);
    assert(all.len() == edits@.len());
    let mut rest = edits;
    let n = rest.len();
    let mut i: usize = 0;
    assert(all.take(0) =~= Seq::<(Seq<char>, Seq<TextEdit>)>::empty());
    assert(edits_view(rest@) =~= all.skip(0));
    while rest.len() > 0
        invariant
            out.wf(),
            i <= all.len(),
            all.len() <= usize::MAX,
            edits_view(rest@) == all.skip(i as int),
            out.map().map_values(|v: Vec<TextEdit>| v@) == store_nonempty(start, all.take(i as int)),
        decreases rest.len(),
    {
        assert(edits_view(rest@).len() == rest@.len());
        let (uri, es) = rest.remove(0);
        assert(all.skip(i as int)[0] == (uri@, es@));
        assert(all.skip(i as int).drop_first() =~= all.skip(i + 1));
        assert(edits_view(rest@) =~= all.skip(i + 1));
        assert(all.take(i + 1).drop_last() =~= all.take(i as int));
        assert(all.take(i + 1).last() == (uri@, es@));
        let ghost before = out.map();
        if es.len() > 0 {
            out.insert(uri, es);
            assert(out.map().map_values(|v: Vec<TextEdit>| v@) =~= before.map_values(
                |v: Vec<TextEdit>| v@,
            ).insert(all[i as int].0, all[i as int].1));
        }
        i = i + 1;
    }
    assert(all.take(i as int) =~= all);
}

/// The changes of a rename, by document (see `rename_changes_spec`).
pub fn rename_changes(
    document_edits: Vec<(String, Vec<TextEdit>)>,
    fallback: Vec<(String, Vec<TextEdit>)>,
) -> (changes: NameMap<Vec<TextEdit>>)
    ensures
        changes.wf(),
        changes.map().map_values(|v: Vec<TextEdit>| v@) == rename_changes_spec(
            edits_view(document_edits@),
            edits_view(fallback@),
        ),
{
    let mut primary: NameMap<Vec<TextEdit>> = NameMap::new();
    assert(primary.map().map_values(|v: Vec<TextEdit>| v@) =~= Map::<Seq<char>, Seq<TextEdit>>::empty());
    store_edits(&mut primary, document_edits);
    proof {
        crate::namemap::lemma_map_len(primary.rows());
        assert(primary.map().map_values(|v: Vec<TextEdit>| v@).dom() =~= primary.map().dom());
    }
    if primary.len() > 0 {
        return primary;
    }
    let mut changes: NameMap<Vec<TextEdit>> = NameMap::new();
    assert(changes.map().map_values(|v: Vec<TextEdit>| v@) =~= Map::<Seq<char>, Seq<TextEdit>>::empty());
    store_edits(&mut changes, fallback);
    changes
}

/// Register symbol tools (tools are registered at the MCP level).
pub fn register() {
}

} // verus!

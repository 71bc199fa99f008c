use serena::symbol::{deprecation_note_of, tagged_deprecated};
use lsp_types as lspt;
use serena::symbol::{Position, Range, Symbol, SymbolKind, SymbolTag, CompletionItemKind};
use serena::tools::symbol_tools::{
    decimal_text, kind_label, matching_symbols, resolve_server, severity_name, symbol_entries,
    language_id_for, SymbolEntry,
};
use serena::provider::LanguageServerProvider;

fn make_symbol(name: &str, kind: SymbolKind) -> Symbol {
    Symbol {
        name: name.to_string(),
        kind,
        detail: None,
        range: Range::new(Position::new(10, 5), Position::new(20, 0)),
        selection_range: None,
        children: vec![],
        tags: vec![],
        deprecated: None,
    }
}

#[test]
fn test_flatten() {
    let child = Symbol {
        name: "child".into(),
        kind: SymbolKind::Variable,
        detail: None,
        range: Range::new(Position::new(0, 0), Position::new(0, 0)),
        selection_range: None,
        children: vec![],
        tags: vec![],
        deprecated: None,
    };
    let parent = Symbol {
        name: "parent".into(),
        kind: SymbolKind::Function,
        detail: None,
        range: Range::new(Position::new(0, 0), Position::new(0, 0)),
        selection_range: None,
        children: vec![child],
        tags: vec![],
        deprecated: None,
    };
    let flat = parent.flatten();
    assert_eq!(flat.len(), 2);
    assert_eq!(flat[0].name, "parent");
    assert_eq!(flat[1].name, "child");
}

#[test]
fn test_symbol_entry_from_symbol() {
    let sym = make_symbol("my_function", SymbolKind::Function);
    let entry = SymbolEntry::from_symbol(&sym, "src/main.rs");

    assert_eq!(entry.name, "my_function");
    assert_eq!(entry.kind, "Function");
    assert_eq!(entry.file_path, "src/main.rs");
    assert_eq!(entry.line, 10);
    assert_eq!(entry.column, 5);
    assert!(entry.children.is_empty());
}

#[test]
fn test_symbol_entry_with_children() {
    let child = Symbol {
        name: "child_val".to_string(),
        kind: SymbolKind::Variable,
        detail: None,
        range: Range::new(Position::new(12, 4), Position::new(12, 14)),
        selection_range: None,
        children: vec![],
        tags: vec![],
        deprecated: None,
    };
    let parent = Symbol {
        name: "parent_fn".to_string(),
        kind: SymbolKind::Function,
        detail: Some("fn() -> i32".to_string()),
        range: Range::new(Position::new(10, 0), Position::new(15, 0)),
        selection_range: None,
        children: vec![child],
        tags: vec![],
        deprecated: None,
    };

    let entry = SymbolEntry::from_symbol(&parent, "lib.rs");
    assert_eq!(entry.name, "parent_fn");
    assert_eq!(entry.detail, Some("fn() -> i32".to_string()));
    assert_eq!(entry.children.len(), 1);
    assert_eq!(entry.children[0].name, "child_val");
    assert_eq!(entry.children[0].kind, "Variable");
}

#[test]
fn test_resolve_server_supported_file() {
    let provider = LanguageServerProvider::new();
    let config = resolve_server(&provider, "src/main.rs");
    assert!(config.is_ok());
    assert_eq!(config.unwrap().name, "rust-analyzer");
}

#[test]
fn test_resolve_server_unsupported_file() {
    let provider = LanguageServerProvider::new();
    let config = resolve_server(&provider, "file.xyz");
    assert!(config.is_err());
    assert!(config.unwrap_err().contains("No language server configured"));
}

#[test]
fn test_find_symbol_matches_name() {
    let provider = LanguageServerProvider::new();
    let result = resolve_server(&provider, "test.py");
    assert!(result.is_ok());
    assert_eq!(result.unwrap().name, "pyright");
}

#[test]
fn symbol_kind_codes_round_trip() {
    for code in 1..=26 {
        let kind = SymbolKind::from_lsp_code(code);
        assert_eq!(kind.lsp_code(), code);
    }
    assert_eq!(SymbolKind::from_lsp_code(12), SymbolKind::Function);
    assert_eq!(SymbolKind::from_lsp_code(99), SymbolKind::Unknown(0));
    assert_eq!(SymbolTag::from_lsp_code(1), SymbolTag::Deprecated);
    assert_eq!(CompletionItemKind::from_lsp_code(3), CompletionItemKind::Function);
}

#[test]
fn kind_labels_are_debug_names() {
    assert_eq!(kind_label(SymbolKind::TypeParameter), "TypeParameter");
    assert_eq!(kind_label(SymbolKind::Unknown(42)), "Unknown(42)");
    assert_eq!(kind_label(SymbolKind::Unknown(-7)), "Unknown(-7)");
    assert_eq!(decimal_text(i32::MIN), "-2147483648");
    assert_eq!(decimal_text(0), "0");
    assert_eq!(decimal_text(1090), "1090");
}

#[test]
fn find_by_name_ignores_case_and_skips_same_named_descendants() {
    let mut inner = make_symbol("Helper", SymbolKind::Function);
    inner.children = vec![make_symbol("helper", SymbolKind::Variable)];
    let mut top = make_symbol("help", SymbolKind::Module);
    top.children = vec![inner, make_symbol("help", SymbolKind::Variable), make_symbol("other", SymbolKind::Field)];
    let found = matching_symbols(&vec![top], "HELP", "a.rs");
    let names: Vec<&str> = found.iter().map(|e| e.name.as_str()).collect();
    assert_eq!(names, vec!["help", "Helper", "helper"]);
    assert_eq!(found[0].children.len(), 3);
}

#[test]
fn list_symbols_gives_one_entry_per_top_level_symbol() {
    let syms = vec![make_symbol("a", SymbolKind::Class), make_symbol("b", SymbolKind::Method)];
    let entries = symbol_entries(&syms, "x.rs");
    assert_eq!(entries.len(), 2);
    assert_eq!(entries[1].kind, "Method");
    assert_eq!(entries[1].file_path, "x.rs");
}

#[test]
fn severities_and_language_ids() {
    assert_eq!(severity_name(1), "error");
    assert_eq!(severity_name(4), "hint");
    assert_eq!(severity_name(9), "unknown");
    let provider = LanguageServerProvider::new();
    assert_eq!(language_id_for(provider.get("rust-analyzer").unwrap()), "rust");
}

fn wire_code<T: serde::Serialize>(value: &T) -> i32 {
    serde_json::to_value(value).unwrap().as_i64().unwrap() as i32
}

#[test]
fn test_symbol_kind_conversion() {
    let pairs: &[(lspt::SymbolKind, SymbolKind)] = &[
        (lspt::SymbolKind::FILE, SymbolKind::File),
        (lspt::SymbolKind::FUNCTION, SymbolKind::Function),
        (lspt::SymbolKind::CLASS, SymbolKind::Class),
        (lspt::SymbolKind::MODULE, SymbolKind::Module),
        (lspt::SymbolKind::STRUCT, SymbolKind::Struct),
        (lspt::SymbolKind::ENUM, SymbolKind::Enum),
        (lspt::SymbolKind::INTERFACE, SymbolKind::Interface),
        (lspt::SymbolKind::METHOD, SymbolKind::Method),
        (lspt::SymbolKind::VARIABLE, SymbolKind::Variable),
        (lspt::SymbolKind::CONSTANT, SymbolKind::Constant),
        (lspt::SymbolKind::PROPERTY, SymbolKind::Property),
        (lspt::SymbolKind::FIELD, SymbolKind::Field),
        (lspt::SymbolKind::NAMESPACE, SymbolKind::Namespace),
        (lspt::SymbolKind::PACKAGE, SymbolKind::Package),
        (lspt::SymbolKind::ENUM_MEMBER, SymbolKind::EnumMember),
        (lspt::SymbolKind::TYPE_PARAMETER, SymbolKind::TypeParameter),
    ];
    for (lsp, ours) in pairs {
        let converted = SymbolKind::from_lsp_code(wire_code(lsp));
        assert_eq!(converted, *ours, "SymbolKind mismatch for {lsp:?}");
        // Round-trip through the LSP code.
        let back = converted.lsp_code();
        assert_eq!(back, wire_code(lsp));
        let round = SymbolKind::from_lsp_code(back);
        assert_eq!(round, *ours, "Round-trip failed for {lsp:?}");
    }
}

#[test]
fn deprecation_note_follows_the_tags() {
    assert!(tagged_deprecated(&vec![SymbolTag::Unused, SymbolTag::Deprecated]));
    assert!(!tagged_deprecated(&vec![SymbolTag::Unused]));
    assert!(!tagged_deprecated(&vec![]));
    assert_eq!(deprecation_note_of(true), Some("deprecated".to_string()));
    assert_eq!(deprecation_note_of(false), None);
}

use serena::editor::{CodeEditor, EditOperation, EditorError};

#[test]
fn test_symbol_not_found_error() {
    let editor = CodeEditor::new();
    let err = editor
        .apply("fn foo() {}", &EditOperation::Delete { symbol: "nonexistent".to_string() })
        .unwrap_err();
    assert!(matches!(err, EditorError::SymbolNotFound(_)));
}

#[test]
fn test_empty_source_error() {
    let editor = CodeEditor::new();
    let err = editor
        .apply("", &EditOperation::InsertBefore { symbol: "x".to_string(), content: "y".to_string() })
        .unwrap_err();
    assert_eq!(err, EditorError::EmptySource);
}

#[test]
fn test_insert_before_symbol() {
    let source = "fn foo() {\n    println!(\"hello\");\n}\n\nfn bar() {\n    println!(\"world\");\n}";
    let editor = CodeEditor::new();
    let op = EditOperation::InsertBefore {
        symbol: "fn foo".to_string(),
        content: "// This is foo\n".to_string(),
    };
    let result = editor.apply(source, &op).unwrap();
    assert!(result.contains("// This is foo\nfn foo"));
    assert!(result.contains("fn bar"));
}

#[test]
fn test_insert_after_symbol() {
    let source = "fn foo() {\n    return 1;\n}\n\nfn bar() {\n    return 2;\n}";
    let editor = CodeEditor::new();
    let op = EditOperation::InsertAfter {
        symbol: "fn foo".to_string(),
        content: "\n// end of foo\n".to_string(),
    };
    let result = editor.apply(source, &op).unwrap();
    println!("--- insert_after result ---\n{result}\n---");
    assert!(result.contains("// end of foo"));
    assert!(result.contains("fn bar"));
}

#[test]
fn test_replace_body_of_function() {
    let source = "fn foo() {\n    let x = 1;\n    x + 1\n}";
    let editor = CodeEditor::new();
    let op = EditOperation::ReplaceBody { symbol: "fn foo".to_string(), content: "    42".to_string() };
    let result = editor.apply(source, &op).unwrap();
    println!("--- replace_body result ---\n{result}\n---");
    assert!(result.contains("    42"));
}

#[test]
fn test_delete_symbol() {
    let source = "fn keep() {}\n\nfn remove_me() {\n    println!(\"bye\");\n}\n\nfn also_keep() {}";
    let editor = CodeEditor::new();
    let op = EditOperation::Delete { symbol: "fn remove_me".to_string() };
    let result = editor.apply(source, &op).unwrap();
    assert!(result.contains("fn keep()"));
    assert!(result.contains("fn also_keep"));
    assert!(!result.contains("remove_me"));
}

#[test]
fn test_rename_symbol() {
    let source = "fn old_name() {\n    println!(\"hello\");\n}";
    let editor = CodeEditor::new();
    let op = EditOperation::Rename { symbol: "fn old_name".to_string(), new_name: "fn new_name".to_string() };
    let result = editor.apply(source, &op).unwrap();
    assert!(!result.contains("fn old_name"));
    assert!(result.contains("fn new_name"));
}

#[test]
fn test_insert_before_class_in_java() {
    let source = "public class Foo {\n    int x;\n}\n\npublic class Bar {\n    int y;\n}";
    let editor = CodeEditor::new();
    let op = EditOperation::InsertBefore {
        symbol: "public class Bar".to_string(),
        content: "// New class below\n".to_string(),
    };
    let result = editor.apply(source, &op).unwrap();
    assert!(result.contains("// New class below\npublic class Bar"));
}

#[test]
fn test_edit_on_empty_source_returns_error() {
    let editor = CodeEditor::new();
    let op = EditOperation::InsertBefore { symbol: "fn main".to_string(), content: "// nothing\n".to_string() };
    let result = editor.apply("", &op);
    assert!(result.is_err());
}

#[test]
fn test_edit_symbol_not_found_returns_error() {
    let editor = CodeEditor::new();
    let op = EditOperation::Delete { symbol: "nonexistent_symbol".to_string() };
    let result = editor.apply("fn foo() {}", &op);
    assert!(result.is_err());
}

#[test]
fn insert_before_result_is_exact() {
    let editor = CodeEditor::new();
    let op = EditOperation::InsertBefore { symbol: "fn b".to_string(), content: "// b\n".to_string() };
    let result = editor.apply("fn a() {}\nfn b() {}", &op).unwrap();
    assert_eq!(result, "fn a() {}\n// b\nfn b() {}");
}

#[test]
fn rename_changes_only_first_occurrence() {
    let editor = CodeEditor::new();
    let op = EditOperation::Rename { symbol: "foo".to_string(), new_name: "bar".to_string() };
    let result = editor.apply("foo(); foo();", &op).unwrap();
    assert_eq!(result, "bar(); foo();");
}

#[test]
fn replace_body_keeps_braces() {
    let editor = CodeEditor::new();
    let op = EditOperation::ReplaceBody { symbol: "fn f".to_string(), content: "    2".to_string() };
    let result = editor.apply("fn f() {\n    1\n}\nfn g() {}", &op).unwrap();
    assert!(result.starts_with("fn f() {"));
    assert!(result.contains("    2"));
    assert!(!result.contains("    1"));
    assert!(result.ends_with("fn g() {}"));
}

#[test]
fn replace_body_without_brace_is_an_error() {
    let editor = CodeEditor::new();
    let op = EditOperation::ReplaceBody { symbol: "let x".to_string(), content: "1".to_string() };
    let result = editor.apply("let x = 1;", &op);
    assert!(matches!(result, Err(EditorError::RegexError(_))));
}

#[test]
fn symbol_with_regex_characters_is_found_literally() {
    let editor = CodeEditor::new();
    let op = EditOperation::Rename { symbol: "a.b(".to_string(), new_name: "c(".to_string() };
    let result = editor.apply("xaxb( a.b(", &op).unwrap();
    assert_eq!(result, "xaxb( c(");
}

#[test]
fn error_messages_name_the_symbol() {
    assert_eq!(EditorError::SymbolNotFound("s".to_string()).message(), "symbol not found in source: s");
    assert_eq!(EditorError::EmptySource.message(), "source text is empty");
}

#[test]
fn insert_after_goes_at_the_end_of_the_line() {
    let editor = CodeEditor::new();
    let op = EditOperation::InsertAfter { symbol: "fn foo".to_string(), content: "\n// x".to_string() };
    let result = editor.apply("fn foo() {}\nfn bar() {}", &op).unwrap();
    assert_eq!(result, "fn foo() {}\n// x\nfn bar() {}");
}

#[test]
fn replace_body_result_is_exact() {
    let editor = CodeEditor::new();
    let op = EditOperation::ReplaceBody { symbol: "fn f".to_string(), content: "    2".to_string() };
    let result = editor.apply("fn f() {\n    1\n}\nfn g() {}", &op).unwrap();
    assert_eq!(result, "fn f() {    2\n}\nfn g() {}");
}

#[test]
fn symbols_with_meta_characters_are_found_literally() {
    let editor = CodeEditor::new();
    let source = "let a = x+y;\nfn f(a: [u8; 2]) {}\n";
    let op = EditOperation::InsertBefore { symbol: "fn f(a: [u8".to_string(), content: "// f\n".to_string() };
    assert_eq!(editor.apply(source, &op).unwrap(), "let a = x+y;\n// f\nfn f(a: [u8; 2]) {}\n");
    let op = EditOperation::InsertBefore { symbol: "x+y".to_string(), content: "/*s*/".to_string() };
    assert_eq!(editor.apply(source, &op).unwrap(), "let a = /*s*/x+y;\nfn f(a: [u8; 2]) {}\n");
    let op = EditOperation::InsertBefore { symbol: "x.y".to_string(), content: "!".to_string() };
    assert!(editor.apply(source, &op).is_err());
}

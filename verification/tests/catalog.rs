use serena::catalog::{
    builtin_tool_specs, decode_tool_call, register_builtin_tools, ArgValue, CallError, ParamKind,
    ToolArgs, ToolRegistry, ToolRequest,
};

fn args(pairs: Vec<(&str, ArgValue)>) -> ToolArgs {
    let mut a = ToolArgs::new();
    for (k, v) in pairs {
        a.insert(k.to_string(), v);
    }
    a
}

#[test]
fn catalogue_lists_all_builtin_tools() {
    let names: Vec<String> = builtin_tool_specs().into_iter().map(|t| t.name).collect();
    let expected = vec![
        "get_symbols", "find_symbol", "list_symbols", "read_file", "list_dir", "find_file",
        "replace_content", "search_for_pattern", "execute_shell_command", "write_memory",
        "read_memory", "search_memories", "delete_memory", "get_config", "set_config",
        "list_config", "get_definition", "find_references", "get_hover", "get_completion",
        "get_diagnostics", "rename_symbol", "apply_code_action", "format_code", "serena_info",
    ];
    assert_eq!(names, expected);
}

#[test]
fn registry_holds_each_builtin_tool_once() {
    let mut registry = ToolRegistry::new();
    assert!(registry.is_empty());
    register_builtin_tools(&mut registry);
    assert_eq!(registry.len(), 25);
    for name in ["get_symbols", "find_symbol", "list_symbols", "serena_info", "format_code"] {
        assert!(registry.list_tools().contains(&name));
    }
    assert_eq!(registry.get("read_file").unwrap().params[0].name, "file_path");
    assert!(registry.get("nonexistent").is_none());
}

#[test]
fn registering_a_tool_again_overwrites_it() {
    let mut registry = ToolRegistry::new();
    let mut tools = builtin_tool_specs();
    let mut second = tools.remove(1);
    let first = tools.remove(0);
    second.name = first.name.clone();
    second.description = "Overwritten".to_string();
    registry.register(first);
    registry.register(second);
    assert_eq!(registry.len(), 1);
    assert_eq!(registry.get("get_symbols").unwrap().description, "Overwritten");
    assert_eq!(registry.mcp_tool_list().len(), 1);
}

#[test]
fn decode_reports_the_first_missing_parameter() {
    let a = args(vec![("file_path", ArgValue::Str("a.rs".to_string())), ("column", ArgValue::UInt(3))]);
    let err = decode_tool_call("get_definition", &a).unwrap_err();
    assert_eq!(err, CallError::MissingParameter("line".to_string()));
    assert_eq!(err.message(), "Missing required parameter: line");
    let wrong_type = args(vec![("file_path", ArgValue::UInt(1))]);
    assert_eq!(
        decode_tool_call("read_file", &wrong_type).unwrap_err(),
        CallError::MissingParameter("file_path".to_string())
    );
}

#[test]
fn decode_reads_optional_parameters() {
    let a = args(vec![
        ("file_path", ArgValue::Str("a.rs".to_string())),
        ("line", ArgValue::UInt(4294967298)),
        ("column", ArgValue::UInt(7)),
    ]);
    match decode_tool_call("find_references", &a).unwrap() {
        ToolRequest::FindReferences { file_path, line, column, include_declaration, text } => {
            assert_eq!(file_path, "a.rs");
            assert_eq!(line, 2);
            assert_eq!(column, 7);
            assert!(include_declaration);
            assert_eq!(text, None);
        },
        other => panic!("unexpected request {other:?}"),
    }
}

#[test]
fn decode_unknown_tool_and_parameterless_tools() {
    let none = ToolArgs::new();
    assert_eq!(
        decode_tool_call("nonexistent", &none).unwrap_err().message(),
        "tool not found: nonexistent"
    );
    assert!(matches!(decode_tool_call("list_config", &none), Ok(ToolRequest::ListConfig)));
    assert!(matches!(decode_tool_call("serena_info", &none), Ok(ToolRequest::SerenaInfo)));
    let v = args(vec![("key", ArgValue::Str("k".to_string())), ("value", ArgValue::Other)]);
    assert!(matches!(decode_tool_call("set_config", &v), Ok(ToolRequest::SetConfig { .. })));
}

#[test]
fn schemas_mark_required_parameters() {
    let tools = builtin_tool_specs();
    let set_config = tools.iter().find(|t| t.name == "set_config").unwrap();
    assert_eq!(set_config.params[1].kind, ParamKind::Any);
    assert!(set_config.params.iter().all(|p| p.required));
    let find_refs = tools.iter().find(|t| t.name == "find_references").unwrap();
    assert_eq!(find_refs.params.iter().filter(|p| p.required).count(), 3);
}

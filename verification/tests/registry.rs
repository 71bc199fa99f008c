use serena::catalog::{register_builtin_tools, ParamKind, ParamSpec, ToolRegistry, ToolSpec};

fn spec(name: &str, description: &str, params: Vec<ParamSpec>) -> ToolSpec {
    ToolSpec { name: name.to_string(), description: description.to_string(), params }
}

#[test]
fn test_empty_registry() {
    let registry = ToolRegistry::new();
    assert!(registry.is_empty());
    assert_eq!(registry.len(), 0);
}

#[test]
fn test_register_and_list() {
    let mut registry = ToolRegistry::new();
    registry.register(spec(
        "test_tool",
        "A test tool",
        vec![ParamSpec { name: "input".to_string(), kind: ParamKind::Str, description: String::new(), required: false }],
    ));
    assert_eq!(registry.len(), 1);
    assert!(!registry.is_empty());
    assert!(registry.list_tools().contains(&"test_tool"));
}

#[test]
fn test_get_handler() {
    let mut registry = ToolRegistry::new();
    registry.register(spec("get_symbols", "Get symbols from a file", vec![]));

    let handler = registry.get("get_symbols");
    assert!(handler.is_some());
    assert_eq!(handler.unwrap().name, "get_symbols");
    assert_eq!(handler.unwrap().description, "Get symbols from a file");

    assert!(registry.get("nonexistent").is_none());
}

#[test]
fn test_mcp_tool_list_format() {
    let mut registry = ToolRegistry::new();
    registry.register(spec("tool_a", "Tool A", vec![]));
    registry.register(spec("tool_b", "Tool B", vec![]));

    let defs = registry.mcp_tool_list();
    assert_eq!(defs.len(), 2);

    let names: Vec<&str> = defs.iter().map(|d| d.name.as_str()).collect();
    assert!(names.contains(&"tool_a"));
    assert!(names.contains(&"tool_b"));
}

#[test]
fn test_register_overwrite() {
    let mut registry = ToolRegistry::new();
    registry.register(spec("tool", "Original", vec![]));
    registry.register(spec("tool", "Overwritten", vec![]));

    assert_eq!(registry.len(), 1);
    assert_eq!(registry.get("tool").unwrap().description, "Overwritten");
}

#[test]
fn test_register_builtin_symbol_tools() {
    let mut registry = ToolRegistry::new();
    register_builtin_tools(&mut registry);

    let count = registry.len();
    assert!(count >= 3, "Expected at least 3 built-in tools, got {count}");

    let names = registry.list_tools();
    assert!(names.contains(&"get_symbols"));
    assert!(names.contains(&"find_symbol"));
    assert!(names.contains(&"list_symbols"));
}

#[test]
fn test_register_builtin_all_tools() {
    let mut registry = ToolRegistry::new();
    register_builtin_tools(&mut registry);

    let count = registry.len();
    assert!(count >= 16, "Expected at least 16 built-in tools, got {count}");

    let names = registry.list_tools();
    for name in [
        "get_symbols", "find_symbol", "list_symbols", "read_file", "list_dir", "find_file",
        "replace_content", "search_for_pattern", "execute_shell_command", "write_memory",
        "read_memory", "search_memories", "delete_memory", "get_config", "set_config",
        "list_config", "get_definition", "find_references", "get_hover", "get_completion",
        "get_diagnostics", "rename_symbol", "apply_code_action", "format_code", "serena_info",
    ] {
        assert!(names.contains(&name));
    }
}

#[test]
fn test_command_registers_builtin_tools() {
    let mut registry = ToolRegistry::default();
    register_builtin_tools(&mut registry);

    let count = registry.len();
    assert!(count >= 3, "Expected at least 3 built-in tools, got {count}");

    let defs = registry.mcp_tool_list();
    let names: Vec<&str> = defs.iter().map(|t| t.name.as_str()).collect();
    assert!(names.contains(&"get_symbols"));
    assert!(names.contains(&"find_symbol"));
    assert!(names.contains(&"list_symbols"));
}

#[test]
fn registering_a_new_name_adds_one_tool() {
    let mut registry = ToolRegistry::new();
    registry.register(spec("a", "A", vec![]));
    registry.register(spec("b", "B", vec![]));
    assert_eq!(registry.len(), 2);
    registry.register(spec("a", "A again", vec![]));
    assert_eq!(registry.len(), 2);
    assert_eq!(registry.get("b").unwrap().description, "B");
}

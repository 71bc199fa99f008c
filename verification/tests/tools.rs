use serena::memory::MemoryStore;
use serena::tools::config_tools::ConfigValues;
use serena::tools::file_tools::{check_search_root, name_matches, replace_in_content, sort_entries, DirEntry, cannot_read_message};
use serena::tools::memory_tools::search_by_tag;
use serena::tools::search_tools::{lines, search_in_content};
use serena::tools::shell_tools::{shell_invocation, ShellCommandResult};

#[test]
fn find_file_patterns() {
    assert!(name_matches("*.rs", "main.rs"));
    assert!(!name_matches("*.rs", "README.md"));
    assert!(name_matches("test*", "test_util.py"));
    assert!(!name_matches("test*", "my_test"));
    assert!(name_matches("lib", "mylib.rs"));
    assert!(name_matches("*", "anything"));
}

#[test]
fn test_replace_content_matches() {
    let (new, count) = replace_in_content("foo bar foo baz", "foo", "qux");
    assert_eq!(count, 2, "should replace 2 occurrences");
    assert_eq!(new, Some("qux bar qux baz".to_string()));
}

#[test]
fn test_replace_content_no_match() {
    let (new, count) = replace_in_content("hello world", "nonexistent", "replaced");
    assert_eq!(count, 0);
    assert_eq!(new, None);
}

#[test]
fn list_dir_entries_are_sorted_by_name() {
    let e = |n: &str, d: bool| DirEntry { name: n.to_string(), is_dir: d, is_file: !d, is_symlink: false };
    let sorted = sort_entries(vec![e("sub", true), e("b.txt", false), e("a.txt", false)]);
    let names: Vec<&str> = sorted.iter().map(|e| e.name.as_str()).collect();
    assert_eq!(names, vec!["a.txt", "b.txt", "sub"]);
}

#[test]
fn file_tool_messages() {
    assert!(cannot_read_message("/nonexistent/path.txt", "No such file").contains("Cannot read file"));
    let err = check_search_root("/tmp/file.txt", false).unwrap_err();
    assert!(err.contains("Not a directory"));
    assert!(check_search_root("/tmp", true).is_ok());
}

#[test]
fn test_search_for_pattern_finds_matches() {
    let results = search_in_content("hello world\nfoo bar\nbaz hello\n", "hello").unwrap();
    assert_eq!(results.len(), 2, "should match 2 lines");
    assert_eq!(results[0].line_number, 1);
    assert_eq!(results[0].content, "hello world");
    assert_eq!(results[1].line_number, 3);
    assert_eq!(results[1].content, "baz hello");
}

#[test]
fn test_search_for_pattern_no_match() {
    let results = search_in_content("hello world\nfoo bar\n", "nonexistent").unwrap();
    assert!(results.is_empty());
}

#[test]
fn test_search_for_pattern_invalid_regex() {
    let result = search_in_content("content", "[invalid");
    assert!(result.is_err());
    assert!(result.unwrap_err().contains("Invalid regex pattern"));
}

#[test]
fn lines_drop_line_endings() {
    assert_eq!(lines("a\r\nb\n\nc"), vec!["a", "b", "", "c"]);
    assert_eq!(lines("x\n"), vec!["x"]);
    assert!(lines("").is_empty());
    assert_eq!(lines("end\r"), vec!["end\r"]);
}

#[test]
fn shell_results_and_invocations() {
    let r = ShellCommandResult::from_status(None, "out".to_string(), String::new(), false);
    assert_eq!(r.exit_code, -1);
    let r = ShellCommandResult::from_status(Some(42), String::new(), String::new(), false);
    assert_eq!(r.exit_code, 42);
    assert_eq!(shell_invocation("echo hi", false), ("sh".to_string(), vec!["-c".to_string(), "echo hi".to_string()]));
    assert_eq!(shell_invocation("dir", true), ("cmd".to_string(), vec!["/C".to_string(), "dir".to_string()]));
}

#[test]
fn tag_search_matches_substrings_and_empty_returns_all() {
    let store = MemoryStore::new("m".to_string());
    let listing = vec![("1".to_string(), "secret data".to_string()), ("2".to_string(), "junk".to_string())];
    let entries = vec![
        Some(MemoryStore::new_entry("1".to_string(), "important", "secret data", String::new())),
        Some(MemoryStore::new_entry("2".to_string(), "trivial", "junk", String::new())),
    ];
    let found = search_by_tag(listing.clone(), &entries, "import");
    assert_eq!(found, vec![("1".to_string(), "secret data".to_string())]);
    let all = search_by_tag(listing, &entries, "");
    assert_eq!(all.len(), 2);
    assert_eq!(store.base(), "m");
}

#[test]
fn test_overwrite_config() {
    let mut config = ConfigValues::new();
    config.set("theme".to_string(), serde_json::Value::String("dark".to_string()));
    assert_eq!(config.get("theme").unwrap(), &serde_json::Value::String("dark".to_string()));
    config.set("theme".to_string(), serde_json::Value::String("light".to_string()));
    assert_eq!(config.get("theme").unwrap(), &serde_json::Value::String("light".to_string()));
    assert_eq!(config.len(), 1);
    let err = config.get("nonexistent").unwrap_err();
    assert_eq!(err, "Config key not found: 'nonexistent'");
}

#[test]
fn test_set_and_get_config() {
    let mut config = ConfigValues::new();
    config.set("theme".to_string(), serde_json::Value::from("dark"));
    let value = config.get("theme").unwrap();
    assert_eq!(*value, "dark");
}

#[test]
fn test_get_config_nonexistent() {
    let config = ConfigValues::new();
    let result = config.get("nonexistent");
    assert!(result.is_err());
}

#[test]
fn test_list_config() {
    let mut config = ConfigValues::new();
    config.set("a".to_string(), serde_json::Value::from(1));
    config.set("b".to_string(), serde_json::Value::from("two"));
    assert_eq!(config.len(), 2);
    assert_eq!(config.get("a").unwrap(), &serde_json::Value::from(1));
    assert_eq!(config.get("b").unwrap(), &serde_json::Value::from("two"));
}

#[test]
fn test_search_memories_by_tag() {
    let listing = vec![("1".to_string(), "secret data".to_string()), ("2".to_string(), "junk".to_string())];
    let entries = vec![
        Some(MemoryStore::new_entry("1".to_string(), "important", "secret data", String::new())),
        Some(MemoryStore::new_entry("2".to_string(), "trivial", "junk", String::new())),
    ];
    let results = search_by_tag(listing, &entries, "important");
    assert_eq!(results.len(), 1);
    assert_eq!(results[0].1, "secret data");
}

#[test]
fn test_search_memories_empty_tag_returns_all() {
    let listing = vec![("1".to_string(), "content a".to_string()), ("2".to_string(), "content b".to_string())];
    let entries = vec![None, None];
    let results = search_by_tag(listing, &entries, "");
    assert_eq!(results.len(), 2);
}

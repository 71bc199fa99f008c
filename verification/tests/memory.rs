use serena::memory::{
    compose_memory_id, join_path, memory_id_of_path, render_memory_file, sanitize_tag,
    sort_listing, split_front_matter, MemoryEntry, MemoryManager, MemoryStore,
};
use serena::agent::SerenaAgent;
use serena::config::SerenaConfig;

fn entry(id: &str, tag: &str, content: &str) -> MemoryEntry {
    MemoryStore::new_entry(id.to_string(), tag, content, "2024-01-01T00:00:00+00:00".to_string())
}

#[test]
fn memory_paths_follow_namespace_and_id() {
    let store = MemoryStore::new("/work/.serena/memories".to_string());
    assert_eq!(store.namespace_dir("project"), "/work/.serena/memories/project");
    assert_eq!(store.memory_path("project", "note_1"), "/work/.serena/memories/project/note_1.md");
    assert_eq!(join_path("base/", "x"), "base/x");
    assert_eq!(join_path("", "x"), "x");
    assert_eq!(join_path("base", "/abs"), "/abs");
}

#[test]
fn memory_ids_sanitise_the_tag() {
    assert_eq!(sanitize_tag("my tag/x"), "my_tag_x");
    assert_eq!(sanitize_tag("keep-this_1"), "keep-this_1");
    assert_eq!(compose_memory_id("a b", "20240101"), "a_b_20240101");
    let store = MemoryStore::new("m".to_string());
    let id = store.generate_id("key-a");
    assert!(id.starts_with("key-a_"));
    assert_eq!(id.len(), "key-a_".len() + 17);
}

#[test]
fn distinct_tags_give_distinct_ids() {
    let store = MemoryStore::new("m".to_string());
    let pid = store.generate_id("p-tag");
    let gid = store.generate_id("g-tag");
    assert_ne!(pid, gid);
}

#[test]
fn written_file_is_read_back() {
    let text = render_memory_file("id: x\ntag: t\n", "Hello memory");
    assert_eq!(text, "---\nid: x\ntag: t\n---\n\nHello memory");
    let (yaml, body) = split_front_matter(&text).unwrap();
    assert_eq!(yaml, "\nid: x\ntag: t");
    assert_eq!(body, Some("Hello memory".to_string()));
}

#[test]
fn front_matter_needs_both_markers() {
    assert!(split_front_matter("no front matter").is_none());
    assert!(split_front_matter("---\nid: x\n").is_none());
    let (_, body) = split_front_matter("  ---\na: b\n---").unwrap();
    assert_eq!(body, None);
}

#[test]
fn empty_body_keeps_the_stored_content() {
    let e = entry("i", "t", "from yaml");
    assert_eq!(e.clone().with_body("").content, "from yaml");
    assert_eq!(e.with_body("from body").content, "from body");
}

#[test]
fn listing_is_sorted_by_id() {
    let items = vec![
        ("b".to_string(), "2".to_string()),
        ("a".to_string(), "1".to_string()),
        ("c".to_string(), "3".to_string()),
    ];
    let sorted = sort_listing(items);
    let ids: Vec<&str> = sorted.iter().map(|p| p.0.as_str()).collect();
    assert_eq!(ids, vec!["a", "b", "c"]);
}

#[test]
fn listing_keeps_the_order_of_equal_ids() {
    let items = vec![
        ("b".to_string(), "first b".to_string()),
        ("a".to_string(), "a".to_string()),
        ("b".to_string(), "second b".to_string()),
    ];
    let sorted = sort_listing(items);
    assert_eq!(sorted[1].1, "first b");
    assert_eq!(sorted[2].1, "second b");
}

#[test]
fn memory_files_are_recognised_by_extension() {
    assert_eq!(memory_id_of_path("/m/project/note_1.md"), Some("note_1".to_string()));
    assert_eq!(memory_id_of_path("/m/project/note.txt"), None);
    assert_eq!(memory_id_of_path("/m/project/.md"), None);
}

#[test]
fn find_by_tag_is_exact() {
    let manager = MemoryManager::new(MemoryStore::new("m".to_string()));
    let listing = vec![
        ("a".to_string(), "first".to_string()),
        ("b".to_string(), "second".to_string()),
        ("c".to_string(), "third".to_string()),
    ];
    let tags = vec![Some("my-tag".to_string()), Some("my-tag-2".to_string()), None];
    let found = manager.find_by_tag(listing, &tags, "my-tag");
    assert_eq!(found, vec![("a".to_string(), "first".to_string())]);
}

#[test]
fn agent_starts_without_project() {
    let mut agent = SerenaAgent::new(SerenaConfig::new());
    assert!(agent.project.is_none());
    assert_eq!(agent.memory.store().base(), ".serena/memories");
    agent.activate_project("/somewhere");
    assert!(agent.project.is_none());
}

#[test]
fn activating_an_existing_directory_sets_the_project() {
    let mut agent = SerenaAgent::new(SerenaConfig::new());
    agent.activate_project("/");
    assert_eq!(agent.project.as_ref().unwrap().root(), "/");
    assert_eq!(agent.memory.store().base(), ".serena/memories");
    agent.activate_project("/nonexistent/path/that/does/not/exist");
    assert_eq!(agent.project.as_ref().unwrap().root(), "/");
}

use serena::project::{FileScanner, IgnoreSpec, OpenError, Project};

#[test]
fn test_project_open_nonexistent() {
    let result = Project::open("/tmp/serena-nonexistent-dir-12345");
    assert!(result.is_err());
}

#[test]
fn test_project_open_invalid_path() {
    let result = Project::open("/nonexistent/path/that/does/not/exist");
    assert!(result.is_err());
}

#[test]
fn test_ignore_spec_empty() {
    let spec = IgnoreSpec::empty();
    assert!(!spec.is_ignored("anything.txt"));
    assert!(!spec.is_ignored("target/build.o"));
}

#[test]
fn from_canonical_accepts_directories_only() {
    let p = Project::from_canonical("/srv/app".to_string(), true).unwrap();
    assert_eq!(p.root(), "/srv/app");
    let err = Project::from_canonical("/srv/app/file.txt".to_string(), false).unwrap_err();
    assert_eq!(err.message(), "path is not a directory: /srv/app/file.txt");
    assert!(matches!(err, OpenError::InvalidInput(_)));
}

#[test]
fn open_existing_directory_gives_its_canonical_root() {
    let p = Project::open("/").unwrap();
    assert_eq!(p.root(), "/");
}

#[test]
fn from_root_keeps_the_path() {
    let p = Project::from_root("relative/dir".to_string());
    assert_eq!(p.root(), "relative/dir");
}

#[test]
fn missing_gitignore_ignores_nothing() {
    let spec = IgnoreSpec::from_gitignore("/nonexistent/dir/.gitignore").unwrap();
    assert!(!spec.is_ignored("target/build.o"));
}

#[test]
fn scanner_relative_path_strips_the_root() {
    let scanner = FileScanner::new(IgnoreSpec::empty());
    assert_eq!(scanner.relative_path("/proj", "/proj/src/app.rs"), "src/app.rs");
    assert_eq!(scanner.relative_path("/proj", "/other/app.rs"), "/other/app.rs");
}

#[test]
fn scanner_wants_listed_extensions() {
    let scanner = FileScanner::new(IgnoreSpec::empty());
    assert!(scanner.wants_file("/proj/src/app.rs", &["rs", "py"]));
    assert!(!scanner.wants_file("/proj/README.md", &["rs"]));
    assert!(!scanner.wants_file("/proj/.rs", &["rs"]));
}

#[test]
fn open_unresolvable_path_is_unresolved() {
    let err = Project::open("/nonexistent/path/that/does/not/exist").unwrap_err();
    assert!(matches!(err, OpenError::Unresolved(_)));
    assert!(!err.message().is_empty());
}

#[test]
fn missing_gitignore_gives_a_spec_without_matcher() {
    let spec = IgnoreSpec::from_probe("/nonexistent/dir/.gitignore", false);
    assert!(!spec.is_active());
    assert!(spec.admits("/anywhere"));
    assert!(!spec.is_ignored_with("target/build.o", true));
}

#[test]
fn unreadable_gitignore_gives_an_empty_matcher() {
    // The file is probed as present but cannot be read: the matcher holds no
    // rules, so every path is admitted and nothing is ignored.
    let spec = IgnoreSpec::from_probe("/nonexistent/dir/.gitignore", true);
    assert!(spec.is_active());
    assert!(spec.admits(".//x"));
    assert!(!spec.is_ignored_with("target/build.o", false));
}

use serena::provider::{LanguageServerProvider, ServerConfig};

#[test]
fn test_provider_has_builtin_servers() {
    let provider = LanguageServerProvider::new();
    let servers: Vec<&str> = provider.servers();
    assert!(servers.contains(&"rust-analyzer"));
    assert!(servers.contains(&"pyright"));
    assert!(servers.contains(&"gopls"));
    assert!(servers.contains(&"typescript-language-server"));
    assert!(servers.contains(&"taplo"));
}

#[test]
fn test_for_file_by_extension() {
    let provider = LanguageServerProvider::new();

    let rs = provider.for_file("src/main.rs");
    assert!(rs.is_some());
    assert_eq!(rs.unwrap().name, "rust-analyzer");

    let py = provider.for_file("app/main.py");
    assert!(py.is_some());
    assert_eq!(py.unwrap().name, "pyright");

    let ts = provider.for_file("components/Button.tsx");
    assert!(ts.is_some());
    assert_eq!(ts.unwrap().name, "typescript-language-server");
}

#[test]
fn test_for_file_unknown_extension() {
    let provider = LanguageServerProvider::new();
    let result = provider.for_file("file.xyz");
    assert!(result.is_none());
}

#[test]
fn test_for_language() {
    let provider = LanguageServerProvider::new();

    let rust = provider.for_language("rust");
    assert!(rust.is_some());
    assert_eq!(rust.unwrap().command, "rust-analyzer");

    let python = provider.for_language("python");
    assert!(python.is_some());
    assert_eq!(python.unwrap().command, "pyright-langserver");
}

#[test]
fn test_for_language_unknown() {
    let provider = LanguageServerProvider::new();
    assert!(provider.for_language("brainfuck").is_none());
}

#[test]
fn test_get_by_name() {
    let provider = LanguageServerProvider::new();
    let config = provider.get("rust-analyzer");
    assert!(config.is_some());
    assert_eq!(config.unwrap().command, "rust-analyzer");
    assert!(config.unwrap().file_extensions.contains(&".rs".to_string()));
}

#[test]
fn test_get_unknown_server() {
    let provider = LanguageServerProvider::new();
    assert!(provider.get("nonexistent").is_none());
}

#[test]
fn test_custom_registration() {
    let mut provider = LanguageServerProvider::new();
    provider.register(ServerConfig {
        name: "my-lang-server".into(),
        command: "myls".into(),
        args: vec!["--verbose".into()],
        file_extensions: vec![".my".into()],
        language_ids: vec!["mylang".into()],
        env: vec![],
        initialization_options: None,
        settings: None,
    });

    let config = provider.for_file("test.my");
    assert!(config.is_some());
    assert_eq!(config.unwrap().name, "my-lang-server");

    let config = provider.for_language("mylang");
    assert!(config.is_some());
    assert_eq!(config.unwrap().command, "myls");
}

#[test]
fn test_dockerfile_detection() {
    let provider = LanguageServerProvider::new();
    let df = provider.for_file("Dockerfile");
    if df.is_none() {
        println!("Dockerfile (no extension) not matched by provider — expected behavior");
    }
}

#[test]
fn test_cargo_toml_detection() {
    let provider = LanguageServerProvider::new();
    let cargo = provider.for_file("Cargo.toml");
    assert!(cargo.is_some());
    if let Some(config) = cargo {
        assert_eq!(config.name, "taplo");
    }
}

#[test]
fn provider_lists_twelve_builtin_servers() {
    let provider = LanguageServerProvider::new();
    assert_eq!(provider.servers().len(), 12);
}

#[test]
fn registering_a_server_again_replaces_it() {
    let mut provider = LanguageServerProvider::new();
    provider.register(ServerConfig {
        name: "gopls".into(),
        command: "gopls-custom".into(),
        args: vec![],
        file_extensions: vec![".go".into()],
        language_ids: vec!["go".into()],
        env: vec![],
        initialization_options: None,
        settings: None,
    });
    assert_eq!(provider.get("gopls").unwrap().command, "gopls-custom");
    assert_eq!(provider.for_file("main.go").unwrap().command, "gopls-custom");
    assert_eq!(provider.servers().len(), 12);
}

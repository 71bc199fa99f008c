use serena::setup::{default_lsps, detect_languages, detect_lsps, has_entry_with_extension, indicator_probes, languages_from_answers, IndicatorProbe};

#[test]
fn test_default_lsps_contains_rust() {
    let lsps = default_lsps();
    assert!(lsps.contains_key("rust"), "rust should have default LSPs");
    assert!(
        lsps.get("rust").unwrap().contains(&"rust-analyzer".to_string()),
        "rust-analyzer should be default for rust"
    );
}

#[test]
fn test_detect_lsps_for_detected_languages() {
    let languages = vec!["rust".to_string(), "python".to_string()];
    let lsps = detect_lsps(&languages);

    assert!(lsps.contains_key("rust"));
    assert!(lsps.contains_key("python"));

    let rust_lsps = lsps.get("rust").unwrap();
    assert!(rust_lsps.contains(&"rust-analyzer".to_string()));

    let python_lsps = lsps.get("python").unwrap();
    assert!(python_lsps.contains(&"pyright".to_string()));
}

#[test]
fn test_detect_lsps_unknown_language() {
    let languages = vec!["unknown_lang".to_string()];
    let lsps = detect_lsps(&languages);

    assert!(lsps.contains_key("unknown_lang"));
    assert!(lsps.get("unknown_lang").unwrap().is_empty(), "unknown language has no LSPs");
}

#[test]
fn test_detect_languages_nonexistent_path() {
    let languages = detect_languages("/nonexistent/path");
    assert!(languages.is_empty(), "no languages in nonexistent path");
}

#[test]
fn default_lsps_lists_ten_languages_in_order() {
    let lsps = default_lsps();
    assert_eq!(lsps.len(), 10);
    assert_eq!(
        lsps.keys(),
        vec!["cpp", "csharp", "go", "java", "javascript", "php", "python", "ruby", "rust", "typescript"]
    );
    assert_eq!(lsps.get("python").unwrap(), &vec!["pyright".to_string(), "ruff".to_string()]);
}

#[test]
fn languages_from_indicators_sorts_and_dedups() {
    let mut present = vec![false; 14];
    present[0] = true;
    present[2] = true;
    present[3] = true;
    let langs = serena::setup::languages_from_indicators(&present);
    assert_eq!(langs, vec!["python".to_string(), "rust".to_string()]);
}

#[test]
fn indicator_probes_name_files_and_the_csproj_extension() {
    let probes = indicator_probes("/work/app");
    assert_eq!(probes.len(), 14);
    assert!(matches!(&probes[0], IndicatorProbe::File(p) if p == "/work/app/Cargo.toml"));
    assert!(matches!(&probes[10], IndicatorProbe::Extension(e) if e == "csproj"));
    assert!(matches!(&probes[13], IndicatorProbe::File(p) if p == "/work/app/composer.json"));
    let slash = indicator_probes("/work/app/");
    assert!(matches!(&slash[7], IndicatorProbe::File(p) if p == "/work/app/go.mod"));
}

#[test]
fn entries_with_an_extension_are_found() {
    let names = vec!["README.md".to_string(), "App.csproj".to_string(), ".csproj".to_string()];
    assert!(has_entry_with_extension(&names, "csproj"));
    assert!(!has_entry_with_extension(&names, "sln"));
    let hidden_only = vec![".csproj".to_string()];
    assert!(!has_entry_with_extension(&hidden_only, "csproj"));
}

#[test]
fn languages_follow_the_answers_and_the_listing() {
    let mut answers = vec![false; 14];
    answers[0] = true; // Cargo.toml
    answers[6] = true; // tsconfig.json
    let listing = vec!["App.csproj".to_string(), "README.md".to_string()];
    assert_eq!(languages_from_answers(&answers, &listing), vec!["csharp", "rust", "typescript"]);
    // The file answer of the extension indicator is not consulted.
    let mut only_csharp_answer = vec![false; 14];
    only_csharp_answer[10] = true;
    assert!(languages_from_answers(&only_csharp_answer, &vec![]).is_empty());
    assert!(languages_from_answers(&[], &listing).contains(&"csharp".to_string()));
}

use guardian_cli::checks::rust_edition::{
    check, check_cargo_toml, edition_result, find_cargo_files, is_ignored_dir,
};
use guardian_cli::checks::Severity;
use guardian_cli::project::{Entry, Project};

fn file(name: &str, path: &str, content: &str) -> Entry {
    Entry {
        name: name.to_string(),
        path: path.to_string(),
        exists: true,
        is_dir: false,
        is_file: true,
        identity: None,
        content: Ok(content.to_string()),
        listing: None,
    }
}

fn dir(name: &str, path: &str, entries: Vec<Entry>) -> Entry {
    Entry {
        name: name.to_string(),
        path: path.to_string(),
        exists: true,
        is_dir: true,
        is_file: false,
        identity: None,
        content: Err("Is a directory (os error 21)".to_string()),
        listing: Some(entries),
    }
}

fn project_with_manifest(content: &str) -> Project {
    Project {
        name: Some("p".to_string()),
        listing: Some(vec![file("Cargo.toml", "/p/Cargo.toml", content)]),
    }
}

#[test]
fn test_correct_edition() {
    let p = project_with_manifest("\n[package]\nname = \"test\"\nedition = \"2024\"\n");
    let results = check(&p, "2024");
    assert_eq!(results.len(), 1);
    assert!(results[0].passed);
}

#[test]
fn test_wrong_edition() {
    let p = project_with_manifest("\n[package]\nname = \"test\"\nedition = \"2021\"\n");
    let results = check(&p, "2024");
    assert_eq!(results.len(), 1);
    assert!(!results[0].passed);
    assert!(results[0].message.contains("2021"));
    assert!(results[0].fix.is_some());
}

#[test]
fn test_missing_edition() {
    let p = project_with_manifest("\n[package]\nname = \"test\"\n");
    let results = check(&p, "2024");
    assert_eq!(results.len(), 1);
    assert!(!results[0].passed);
    assert!(results[0].message.contains("No edition"));
}

#[test]
fn exact_texts_for_each_outcome() {
    let ok = edition_result(Some("2024"), false, "Cargo.toml", "/p/Cargo.toml", "2024");
    assert!(ok.passed);
    assert_eq!(ok.check_name, "rust-edition");
    assert_eq!(ok.message, "Cargo.toml: Using Rust 2024 edition");
    assert_eq!(ok.file, Some("/p/Cargo.toml".to_string()));
    assert_eq!(ok.fix, None);

    let wrong = edition_result(Some("2021"), true, "Cargo.toml", "/p/Cargo.toml", "2024");
    assert_eq!(wrong.severity, Severity::Error);
    assert_eq!(wrong.message, "Cargo.toml: Using edition '2021', expected '2024'");
    assert_eq!(
        wrong.fix,
        Some("Change edition = \"2021\" to edition = \"2024\"".to_string())
    );
    assert!(wrong.fix.unwrap().contains("edition = \"2024\""));

    let root = edition_result(None, true, "Cargo.toml", "/p/Cargo.toml", "2024");
    assert!(root.passed);
    assert_eq!(root.message, "Cargo.toml: Workspace root (no edition required)");

    let missing = edition_result(None, false, "Cargo.toml", "/p/Cargo.toml", "2024");
    assert_eq!(missing.severity, Severity::Error);
    assert_eq!(missing.message, "Cargo.toml: No edition specified");
    assert_eq!(
        missing.fix,
        Some("Add edition = \"2024\" to [package] section".to_string())
    );
}

#[test]
fn workspace_root_without_package_passes() {
    let p = project_with_manifest("[workspace]\nmembers = [\"a\"]\n");
    let results = check(&p, "2024");
    assert_eq!(results.len(), 1);
    assert!(results[0].passed);
    assert_eq!(results[0].message, "Cargo.toml: Workspace root (no edition required)");
}

#[test]
fn workspace_root_with_package_needs_an_edition() {
    let p = project_with_manifest("[workspace]\nmembers = []\n[package]\nname = \"x\"\n");
    let results = check(&p, "2024");
    assert!(!results[0].passed);
    assert_eq!(results[0].message, "Cargo.toml: No edition specified");
}

#[test]
fn an_edition_that_is_no_string_counts_as_missing() {
    let p = project_with_manifest("[package]\nname = \"x\"\nedition = 2024\n");
    let results = check(&p, "2024");
    assert_eq!(results[0].message, "Cargo.toml: No edition specified");
    let p = project_with_manifest("package = \"text\"\n");
    let results = check(&p, "2024");
    assert_eq!(results[0].message, "Cargo.toml: No edition specified");
}

#[test]
fn invalid_manifest_is_an_error() {
    let p = project_with_manifest("[package\nname = ");
    let results = check(&p, "2024");
    assert_eq!(results.len(), 1);
    assert_eq!(results[0].severity, Severity::Error);
    assert!(results[0].message.starts_with("Invalid TOML: "));
    assert!(results[0].message.len() > "Invalid TOML: ".len());
    assert_eq!(results[0].file, Some("/p/Cargo.toml".to_string()));
}

#[test]
fn unreadable_manifest_is_an_error() {
    let mut manifest = file("Cargo.toml", "/p/Cargo.toml", "");
    manifest.content = Err("permission denied".to_string());
    let r = check_cargo_toml(&manifest, "2024");
    assert_eq!(r.severity, Severity::Error);
    assert_eq!(r.message, "Failed to read: permission denied");
    assert_eq!(r.file, Some("/p/Cargo.toml".to_string()));
}

#[test]
fn no_manifest_is_a_warning() {
    let p = Project { name: None, listing: Some(vec![]) };
    let results = check(&p, "2024");
    assert_eq!(results.len(), 1);
    assert!(!results[0].passed);
    assert_eq!(results[0].severity, Severity::Warning);
    assert_eq!(results[0].message, "No Cargo.toml found");
    assert_eq!(results[0].file, None);
}

#[test]
fn manifests_of_members_are_found_in_order() {
    let member = |name: &str, edition: &str| {
        dir(
            name,
            &format!("/w/{name}"),
            vec![file(
                "Cargo.toml",
                &format!("/w/{name}/Cargo.toml"),
                &format!("[package]\nname = \"{name}\"\nedition = \"{edition}\"\n"),
            )],
        )
    };
    let listing = vec![
        member("b", "2021"),
        file("Cargo.toml", "/w/Cargo.toml", "[workspace]\n"),
        member("target", "2015"),
        member("a", "2024"),
        dir("empty", "/w/empty", vec![]),
    ];
    let p = Project { name: None, listing: Some(listing) };
    let found: Vec<&str> = find_cargo_files(&p).iter().map(|e| e.path.as_str()).collect();
    assert_eq!(found, vec!["/w/Cargo.toml", "/w/b/Cargo.toml", "/w/a/Cargo.toml"]);
    let results = check(&p, "2024");
    let passed: Vec<bool> = results.iter().map(|r| r.passed).collect();
    assert_eq!(passed, vec![true, false, true]);
    assert!(is_ignored_dir("target"));
    assert!(!is_ignored_dir("a"));
}

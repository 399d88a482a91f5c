use guardian_cli::checks::module_count::{
    check, check_crate, count_modules, has_rs_files, is_ignored_dir,
};
use guardian_cli::checks::Severity;
use guardian_cli::project::{Entry, Project};

fn file(name: &str, path: &str, content: &str) -> Entry {
    Entry {
        name: name.to_string(),
        path: path.to_string(),
        exists: true,
        is_dir: false,
        is_file: true,
        identity: None,
        content: Ok(content.to_string()),
        listing: None,
    }
}

fn dir(name: &str, path: &str, entries: Vec<Entry>) -> Entry {
    Entry {
        name: name.to_string(),
        path: path.to_string(),
        exists: true,
        is_dir: true,
        is_file: false,
        identity: None,
        content: Err("Is a directory (os error 21)".to_string()),
        listing: Some(entries),
    }
}

fn src_with(root: &str, modules: &[&str]) -> Entry {
    let mut entries = vec![file("main.rs", &format!("{root}/src/main.rs"), "fn main() {}")];
    for module in modules {
        entries.push(file(&format!("{module}.rs"), &format!("{root}/src/{module}.rs"), "// module"));
    }
    dir("src", &format!("{root}/src"), entries)
}

fn project_with_modules(modules: &[&str]) -> Project {
    Project { name: Some("demo".to_string()), listing: Some(vec![src_with("/demo", modules)]) }
}

#[test]
fn test_count_under_limit() {
    let p = project_with_modules(&["config", "utils"]);
    let results = check(&p, 4);
    assert_eq!(results.len(), 1);
    assert!(results[0].passed);
}

#[test]
fn test_count_over_limit() {
    let p = project_with_modules(&["a", "b", "c", "d", "e"]);
    let results = check(&p, 4);
    assert_eq!(results.len(), 1);
    assert!(!results[0].passed);
    assert!(results[0].message.contains("5 modules"));
}

#[test]
fn test_excludes_main_lib() {
    let src = dir(
        "src",
        "/p/src",
        vec![
            file("main.rs", "/p/src/main.rs", ""),
            file("lib.rs", "/p/src/lib.rs", ""),
            file("mod.rs", "/p/src/mod.rs", ""),
        ],
    );
    let count = count_modules(&src);
    assert_eq!(count, 0);
}

#[test]
fn module_count_exact_messages() {
    let over = check_crate(&src_with("/demo", &["a", "b"]), "demo", 1);
    assert_eq!(over.check_name, "module-count");
    assert_eq!(over.severity, Severity::Error);
    assert_eq!(over.message, "demo: 2 modules exceeds max 1");
    assert_eq!(over.file, Some("/demo/src".to_string()));
    assert_eq!(
        over.fix,
        Some("Consider splitting into multiple crates or reducing module count".to_string())
    );
    let at = check_crate(&src_with("/demo", &["a", "b"]), "demo", 2);
    assert!(at.passed);
    assert_eq!(at.message, "demo: 2 modules (OK)");
    assert_eq!(at.fix, None);
}

#[test]
fn directories_count_when_they_hold_sources() {
    let with_mod = dir("a", "/p/src/a", vec![file("mod.rs", "/p/src/a/mod.rs", "")]);
    let with_source = dir("b", "/p/src/b", vec![file("x.rs", "/p/src/b/x.rs", "")]);
    let without = dir("c", "/p/src/c", vec![file("notes.txt", "/p/src/c/notes.txt", "")]);
    let empty = dir("d", "/p/src/d", vec![]);
    let mut unlisted = dir("e", "/p/src/e", vec![]);
    unlisted.listing = None;
    assert!(has_rs_files(&with_source));
    assert!(!has_rs_files(&without));
    assert!(!has_rs_files(&unlisted));
    let src = dir("src", "/p/src", vec![with_mod, with_source, without, empty, unlisted]);
    assert_eq!(count_modules(&src), 2);
}

#[test]
fn other_files_and_dangling_entries_do_not_count() {
    let mut dangling = file("gone.rs", "/p/src/gone.rs", "");
    dangling.exists = false;
    dangling.is_file = false;
    let src = dir(
        "src",
        "/p/src",
        vec![file("a.rs", "/p/src/a.rs", ""), file("b.txt", "/p/src/b.txt", ""), dangling],
    );
    assert_eq!(count_modules(&src), 1);
}

#[test]
fn a_project_without_a_name_is_called_crate() {
    let p = Project { name: None, listing: Some(vec![src_with("", &["a"])]) };
    let results = check(&p, 4);
    assert_eq!(results[0].message, "crate: 1 modules (OK)");
}

#[test]
fn a_project_without_src_gives_nothing() {
    let p = Project { name: Some("p".to_string()), listing: Some(vec![]) };
    assert!(check(&p, 4).is_empty());
}

#[test]
fn workspace_members_are_checked_one_by_one() {
    let member = |name: &str, modules: &[&str]| {
        dir(name, &format!("/w/{name}"), vec![src_with(&format!("/w/{name}"), modules)])
    };
    let listing = vec![
        file("Cargo.toml", "/w/Cargo.toml", "[workspace]\nmembers = [\"one\", \"two\"]\n"),
        src_with("/w", &["r"]),
        member("one", &["a"]),
        member("target", &["a", "b", "c", "d", "e"]),
        member("two", &["a", "b", "c", "d", "e"]),
        dir("docs", "/w/docs", vec![]),
    ];
    let p = Project { name: Some("w".to_string()), listing: Some(listing) };
    let results = check(&p, 4);
    let messages: Vec<&str> = results.iter().map(|r| r.message.as_str()).collect();
    assert_eq!(
        messages,
        vec!["root: 1 modules (OK)", "one: 1 modules (OK)", "two: 5 modules exceeds max 4"]
    );
}

#[test]
fn ignored_directories() {
    for name in ["target", ".git", "node_modules", ".cargo"] {
        assert!(is_ignored_dir(name));
    }
    for name in ["src", "Target", "targets", ""] {
        assert!(!is_ignored_dir(name));
    }
}

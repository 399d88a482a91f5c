use guardian_cli::checks::clippy_disables::{
    check, check_file, extract_lint_name, is_allowed_suppression,
};
use guardian_cli::checks::Severity;
use guardian_cli::project::{Entry, Project};

fn project_with_file(name: &str, content: &str) -> Project {
    let file = Entry {
        name: name.to_string(),
        path: format!("/p/src/{}", name),
        exists: true,
        is_dir: false,
        is_file: true,
        identity: None,
        content: Ok(content.to_string()),
        listing: None,
    };
    let src = Entry {
        name: "src".to_string(),
        path: "/p/src".to_string(),
        exists: true,
        is_dir: true,
        is_file: false,
        identity: None,
        content: Err("Is a directory (os error 21)".to_string()),
        listing: Some(vec![file]),
    };
    Project { name: Some("p".to_string()), listing: Some(vec![src]) }
}

#[test]
fn test_detects_clippy_allow() {
    let p = project_with_file(
        "lib.rs",
        "\n#[allow(clippy::unwrap_used)]\nfn risky() {\n    let x: Option<i32> = None;\n    x.unwrap();\n}\n",
    );
    let results = check(&p);
    let failures: Vec<_> = results.iter().filter(|r| !r.passed).collect();
    assert_eq!(failures.len(), 1);
    assert!(failures[0].message.contains("clippy::unwrap_used"));
}

#[test]
fn test_allows_dead_code() {
    let p = project_with_file("lib.rs", "\n#[allow(dead_code)]\nfn unused_function() {}\n");
    let results = check(&p);
    assert!(results.iter().all(|r| r.passed));
}

#[test]
fn test_detects_module_level_allow() {
    let p = project_with_file("lib.rs", "\n#![allow(clippy::all)]\n\nfn main() {}\n");
    let results = check(&p);
    let failures: Vec<_> = results.iter().filter(|r| !r.passed).collect();
    assert_eq!(failures.len(), 1);
}

#[test]
fn test_clean_file_passes() {
    let p = project_with_file("lib.rs", "\nfn clean_code() -> i32 {\n    42\n}\n");
    let results = check(&p);
    assert!(results.iter().all(|r| r.passed));
}

#[test]
fn lint_names_are_extracted_and_trimmed() {
    assert_eq!(extract_lint_name("#[allow(clippy::unwrap_used)]"), "clippy::unwrap_used");
    assert_eq!(extract_lint_name("#![allow(  unused_variables )]"), "unused_variables");
    assert_eq!(extract_lint_name("#[allow(a, b)] // and allow(c)"), "a, b");
    assert_eq!(extract_lint_name("#[allow(unclosed"), "");
    assert_eq!(extract_lint_name("nothing here"), "");
}

#[test]
fn development_markers_are_allowed() {
    assert!(is_allowed_suppression("dead_code"));
    assert!(is_allowed_suppression("unused"));
    assert!(is_allowed_suppression("unused_imports"));
    assert!(is_allowed_suppression("clippy::unused_self"));
    assert!(!is_allowed_suppression("clippy::all"));
    assert!(!is_allowed_suppression(""));
}

#[test]
fn severity_follows_the_linter() {
    let results = check_file("#[allow(clippy::all)]\n#[allow(missing_docs)]\n", "a.rs", "/p/src/a.rs");
    assert_eq!(results.len(), 2);
    assert_eq!(results[0].severity, Severity::Error);
    assert_eq!(results[0].line, Some(1));
    assert_eq!(results[1].severity, Severity::Warning);
    assert_eq!(results[1].line, Some(2));
}

#[test]
fn clippy_disables_finding_has_exact_texts() {
    let results = check_file("fn a() {}\n   #[allow(clippy::all)]  \n", "a.rs", "/p/src/a.rs");
    assert_eq!(results.len(), 1);
    let r = &results[0];
    assert_eq!(r.check_name, "clippy-disables");
    assert_eq!(r.message, "a.rs: Lint suppression found: #[allow(clippy::all)]");
    assert_eq!(r.file, Some("/p/src/a.rs".to_string()));
    assert_eq!(r.line, Some(2));
    assert_eq!(
        r.fix,
        Some("Remove the #[allow(...)] and fix the underlying issue instead".to_string())
    );
}

#[test]
fn clean_file_has_exact_message() {
    let results = check_file("fn a() {}\n", "a.rs", "/p/src/a.rs");
    assert_eq!(results.len(), 1);
    assert!(results[0].passed);
    assert_eq!(results[0].message, "a.rs: No lint suppressions found");
    assert_eq!(results[0].file, Some("/p/src/a.rs".to_string()));
}

#[test]
fn comments_and_raw_strings_are_left_out() {
    let content = "// #[allow(clippy::all)]\nlet s = r#\"\n#[allow(clippy::all)]\n\"#;\nlet t = r#\"#[allow(clippy::all)]\"#;\n";
    let results = check_file(content, "a.rs", "a.rs");
    assert_eq!(results.len(), 1);
    assert!(results[0].passed);
}

#[test]
fn conditional_attributes_count_when_they_allow() {
    let with = check_file("#[cfg_attr(test, allow(clippy::all))]\n", "a.rs", "a.rs");
    assert_eq!(with.len(), 1);
    assert!(!with[0].passed);
    let without = check_file("#[cfg_attr(test, derive(Debug))]\n", "a.rs", "a.rs");
    assert!(without[0].passed);
}

#[test]
fn one_finding_for_a_line_whatever_it_matches() {
    let results = check_file("#[allow(x)] #![allow(y)]\n", "a.rs", "a.rs");
    assert_eq!(results.len(), 1);
    assert_eq!(results[0].line, Some(1));
    let results = check_file(
        "#[cfg_attr(test, allow(x))] #[allow(y)]\nfn a() {}\n#![allow(z)]\n",
        "a.rs",
        "a.rs",
    );
    let lines: Vec<Option<usize>> = results.iter().map(|r| r.line).collect();
    assert_eq!(lines, vec![Some(1), Some(3)]);
}

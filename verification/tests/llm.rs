use guardian_cli::checks::{CheckResult, Severity};
use guardian_cli::commands::llm::{
    build_evaluation_prompt, find_host, first_model, host_not_found, preferred_model,
};
use guardian_cli::config::OllamaHost;
use guardian_cli::ollama::OllamaModel;

#[test]
fn prompt_groups_findings_under_their_check() {
    let results = vec![
        CheckResult::pass("rust-edition", "Cargo.toml: Using Rust 2024 edition")
            .with_file("/p/Cargo.toml"),
        CheckResult::fail("loc-limits", Severity::Error, "a.rs: 600 lines exceeds max 500")
            .with_file("/p/src/a.rs")
            .with_fix("Split a.rs"),
        CheckResult::fail("loc-limits", Severity::Warning, "b.rs: 400 lines")
            .with_file("/p/src/b.rs")
            .with_line(3),
    ];
    let prompt = build_evaluation_prompt(&results, "/p");
    let expected = "You are a code quality guardian enforcing development process rules.\n\n\
## Project\nDirectory: /p\n\n## Check Results\n\n\
### rust-edition\n- [PASS] Cargo.toml: Using Rust 2024 edition\n  File: /p/Cargo.toml\n\
### loc-limits\n- [FAIL] [ERROR] a.rs: 600 lines exceeds max 500\n  File: /p/src/a.rs\n  Suggested fix: Split a.rs\n\
- [FAIL] [WARNING] b.rs: 400 lines\n  File: /p/src/b.rs\n  Line: 3\n\
\n## Your Task\n\n\
Analyze the FAILED checks above and provide:\n\
1. A brief summary of the violations\n\
2. For each ERROR, explain WHY this violates good architecture/process\n\
3. Specific, actionable instructions to fix each violation\n\
4. Priority order for fixes (most critical first)\n\n\
Be concise and direct. Focus on actionable guidance.\n";
    assert_eq!(prompt, expected);
}

#[test]
fn prompt_without_findings_has_header_and_task() {
    let prompt = build_evaluation_prompt(&vec![], ".");
    assert!(prompt.starts_with("You are a code quality guardian"));
    assert!(prompt.contains("Directory: .\n\n## Check Results\n\n\n## Your Task\n\n"));
}

fn host(name: &str) -> OllamaHost {
    OllamaHost {
        name: name.to_string(),
        base_url: String::new(),
        enabled: true,
        fallback: false,
        description: None,
    }
}

#[test]
fn a_host_is_found_by_name() {
    let a = host("a");
    let b = host("b");
    let b2 = host("b");
    let hosts = vec![&a, &b, &b2];
    assert_eq!(find_host(&hosts, "b"), Some(1));
    assert_eq!(find_host(&hosts, "a"), Some(0));
    assert_eq!(find_host(&hosts, "c"), None);
    assert_eq!(host_not_found("c"), "Host 'c' not found or disabled");
}

#[test]
fn the_requested_model_goes_before_the_default() {
    assert_eq!(preferred_model(Some("x"), Some("d")), Some("x".to_string()));
    assert_eq!(preferred_model(None, Some("d")), Some("d".to_string()));
    assert_eq!(preferred_model(None, None), None);
}

#[test]
fn the_first_listed_model_is_taken() {
    let model = |name: &str| OllamaModel {
        name: name.to_string(),
        modified_at: None,
        size: None,
        digest: None,
    };
    assert_eq!(first_model(&vec![model("m1"), model("m2")], "h"), Ok("m1".to_string()));
    assert_eq!(first_model(&vec![], "h"), Err("No models available on host h".to_string()));
}

use guardian_cli::checks::CheckConfig;
use guardian_cli::commands::checks::{run_checks, run_selected_checks, CheckOptions};
use guardian_cli::project::{Entry, Project};

fn file(name: &str, path: &str, content: &str) -> Entry {
    Entry {
        name: name.to_string(),
        path: path.to_string(),
        exists: true,
        is_dir: false,
        is_file: true,
        identity: Some(path.to_string()),
        content: Ok(content.to_string()),
        listing: None,
    }
}

fn dir(name: &str, path: &str, entries: Vec<Entry>) -> Entry {
    Entry {
        name: name.to_string(),
        path: path.to_string(),
        exists: true,
        is_dir: true,
        is_file: false,
        identity: Some(path.to_string()),
        content: Err("Is a directory (os error 21)".to_string()),
        listing: Some(entries),
    }
}

fn sample() -> Project {
    Project {
        name: Some("p".to_string()),
        listing: Some(vec![
            file("Cargo.toml", "/p/Cargo.toml", "[package]\nname = \"p\"\nedition = \"2024\"\n"),
            file("README.md", "/p/README.md", "![a](a.png)\n"),
            dir(
                "src",
                "/p/src",
                vec![
                    file("main.rs", "/p/src/main.rs", "fn main() {}\n"),
                    file("util.rs", "/p/src/util.rs", "#[allow(clippy::all)]\nfn u() {}\n"),
                ],
            ),
        ]),
    }
}

fn names(results: &Vec<guardian_cli::checks::CheckResult>) -> Vec<String> {
    let mut out: Vec<String> = Vec::new();
    for r in results {
        if out.last() != Some(&r.check_name) {
            out.push(r.check_name.clone());
        }
    }
    out
}

#[test]
fn all_checks_run_in_a_fixed_order() {
    let results = run_selected_checks(&sample(), &CheckConfig::default(), None);
    assert_eq!(
        names(&results),
        vec![
            "rust-edition",
            "module-count",
            "loc-limits",
            "function-count",
            "test-quality",
            "clippy-disables",
            "cache-busting",
        ]
    );
    assert_eq!(results.len(), 1 + 1 + 2 + 2 + 2 + 2 + 1);
}

#[test]
fn the_filter_selects_by_name_whatever_its_order() {
    let results =
        run_selected_checks(&sample(), &CheckConfig::default(), Some(" cache-busting ,loc-limits"));
    assert_eq!(names(&results), vec!["loc-limits", "cache-busting"]);
}

#[test]
fn unknown_names_select_nothing() {
    let config = CheckConfig::default();
    assert!(run_selected_checks(&sample(), &config, Some("no-such-check")).is_empty());
    assert!(run_selected_checks(&sample(), &config, Some("")).is_empty());
    assert!(run_selected_checks(&sample(), &config, Some("loc-limit")).is_empty());
    let results = run_selected_checks(&sample(), &config, Some("bogus,module-count"));
    assert_eq!(names(&results), vec!["module-count"]);
    let results = run_selected_checks(&sample(), &config, Some("loc-limits,module-count"));
    assert_eq!(names(&results), vec!["module-count", "loc-limits"]);
}

#[test]
fn two_runs_give_the_same_results() {
    let config = CheckConfig::default();
    let first = run_selected_checks(&sample(), &config, None);
    let second = run_selected_checks(&sample(), &config, None);
    assert_eq!(format!("{:?}", first), format!("{:?}", second));
}

#[test]
fn options_carry_the_thresholds() {
    let opts = CheckOptions {
        path: Some("/p"),
        only: Some("loc-limits,rust-edition"),
        max_loc: 1,
        warn_loc: 0,
        max_functions: 7,
        max_modules: 4,
        edition: "2021",
        json_output: false,
    };
    let results = run_checks(opts, &sample());
    let messages: Vec<&str> = results.iter().map(|r| r.message.as_str()).collect();
    assert_eq!(
        messages,
        vec![
            "Cargo.toml: Using edition '2024', expected '2021'",
            "main.rs: 1 lines exceeds warning threshold 0",
            "util.rs: 2 lines exceeds max 1",
        ]
    );
}

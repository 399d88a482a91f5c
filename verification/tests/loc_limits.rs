use guardian_cli::checks::loc_limits::{check, check_file, line_count};
use guardian_cli::checks::Severity;
use guardian_cli::project::{Entry, Project};

fn content_with_lines(lines: usize) -> String {
    (0..lines).map(|i| format!("// line {i}\n")).collect()
}

fn file(name: &str, content: String) -> Entry {
    Entry {
        name: name.to_string(),
        path: format!("/p/src/{}", name),
        exists: true,
        is_dir: false,
        is_file: true,
        identity: None,
        content: Ok(content),
        listing: None,
    }
}

fn dir(name: &str, path: &str, entries: Vec<Entry>) -> Entry {
    Entry {
        name: name.to_string(),
        path: path.to_string(),
        exists: true,
        is_dir: true,
        is_file: false,
        identity: None,
        content: Err("Is a directory (os error 21)".to_string()),
        listing: Some(entries),
    }
}

fn project_with_file(name: &str, lines: usize) -> Project {
    let src = dir("src", "/p/src", vec![file(name, content_with_lines(lines))]);
    Project { name: Some("p".to_string()), listing: Some(vec![src]) }
}

#[test]
fn test_file_under_limit() {
    let p = project_with_file("main.rs", 100);
    let results = check(&p, 500, 350);
    assert_eq!(results.len(), 1);
    assert!(results[0].passed);
}

#[test]
fn test_file_over_warning() {
    let p = project_with_file("main.rs", 400);
    let results = check(&p, 500, 350);
    assert_eq!(results.len(), 1);
    assert!(!results[0].passed);
    assert_eq!(results[0].severity, Severity::Warning);
}

#[test]
fn test_file_over_max() {
    let p = project_with_file("main.rs", 600);
    let results = check(&p, 500, 350);
    assert_eq!(results.len(), 1);
    assert!(!results[0].passed);
    assert_eq!(results[0].severity, Severity::Error);
}

#[test]
fn boundaries_of_the_thresholds() {
    let at_warn = check_file(&content_with_lines(350), "a.rs", "/p/src/a.rs", 500, 350);
    assert!(at_warn.passed);
    assert_eq!(at_warn.severity, Severity::Info);
    let above_warn = check_file(&content_with_lines(351), "a.rs", "/p/src/a.rs", 500, 350);
    assert!(!above_warn.passed);
    assert_eq!(above_warn.severity, Severity::Warning);
    let at_max = check_file(&content_with_lines(500), "a.rs", "/p/src/a.rs", 500, 350);
    assert_eq!(at_max.severity, Severity::Warning);
    let above_max = check_file(&content_with_lines(501), "a.rs", "/p/src/a.rs", 500, 350);
    assert_eq!(above_max.severity, Severity::Error);
}

#[test]
fn loc_limits_exact_messages() {
    let pass = check_file(&content_with_lines(3), "a.rs", "/p/src/a.rs", 500, 350);
    assert_eq!(pass.message, "a.rs: 3 lines (OK)");
    assert_eq!(pass.file, Some("/p/src/a.rs".to_string()));
    assert_eq!(pass.fix, None);
    let warn = check_file(&content_with_lines(400), "a.rs", "/p/src/a.rs", 500, 350);
    assert_eq!(warn.message, "a.rs: 400 lines exceeds warning threshold 350");
    assert_eq!(warn.fix, Some("Consider splitting into smaller modules".to_string()));
    let error = check_file(&content_with_lines(600), "a.rs", "/p/src/a.rs", 500, 350);
    assert_eq!(error.message, "a.rs: 600 lines exceeds max 500");
    assert_eq!(
        error.fix,
        Some("Split a.rs into smaller modules (each under 500 lines)".to_string())
    );
    assert_eq!(error.check_name, "loc-limits");
}

#[test]
fn a_warning_threshold_above_the_maximum_never_warns() {
    let r = check_file(&content_with_lines(450), "a.rs", "a.rs", 400, 500);
    assert_eq!(r.severity, Severity::Error);
    let r = check_file(&content_with_lines(400), "a.rs", "a.rs", 400, 500);
    assert!(r.passed);
}

#[test]
fn line_counts_follow_line_endings() {
    assert_eq!(line_count(""), 0);
    assert_eq!(line_count("a"), 1);
    assert_eq!(line_count("a\n"), 1);
    assert_eq!(line_count("a\n\n"), 2);
    assert_eq!(line_count("a\r\nb"), 2);
}

#[test]
fn walk_goes_into_directories_and_keeps_order() {
    let nested = dir("deep", "/p/src/deep", vec![file("inner.rs", content_with_lines(1))]);
    let mut other = file("notes.txt", content_with_lines(9));
    other.path = "/p/src/notes.txt".to_string();
    let hidden = file(".rs", content_with_lines(1));
    let src = dir(
        "src",
        "/p/src",
        vec![file("b.rs", content_with_lines(2)), nested, other, hidden, file("a.rs", content_with_lines(3))],
    );
    let p = Project { name: None, listing: Some(vec![src]) };
    let results = check(&p, 500, 350);
    let messages: Vec<&str> = results.iter().map(|r| r.message.as_str()).collect();
    assert_eq!(messages, vec!["b.rs: 2 lines (OK)", "inner.rs: 1 lines (OK)", "a.rs: 3 lines (OK)"]);
}

#[test]
fn a_project_without_sources_gives_nothing() {
    let p = Project { name: None, listing: Some(vec![]) };
    assert!(check(&p, 500, 350).is_empty());
    let p = Project { name: None, listing: None };
    assert!(check(&p, 500, 350).is_empty());
    let mut gone = dir("src", "/p/src", vec![file("a.rs", content_with_lines(1))]);
    gone.exists = false;
    let p = Project { name: None, listing: Some(vec![gone]) };
    assert!(check(&p, 500, 350).is_empty());
}

#[test]
fn unreadable_file_is_a_warning_not_a_stop() {
    let mut bad = file("bad.rs", String::new());
    bad.content = Err("stream did not contain valid UTF-8".to_string());
    let src = dir("src", "/p/src", vec![bad, file("ok.rs", content_with_lines(1))]);
    let p = Project { name: None, listing: Some(vec![src]) };
    let results = check(&p, 500, 350);
    assert_eq!(results.len(), 2);
    assert_eq!(results[0].severity, Severity::Warning);
    assert_eq!(results[0].message, "Read error: stream did not contain valid UTF-8");
    assert_eq!(results[0].file, Some("/p/src/bad.rs".to_string()));
    assert!(results[1].passed);
}

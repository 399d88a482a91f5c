use guardian_cli::checks::{CheckConfig, CheckResult, Severity};

#[test]
fn pass_is_informational() {
    let r = CheckResult::pass("loc-limits", "fine");
    assert_eq!(r.check_name, "loc-limits");
    assert!(r.passed);
    assert_eq!(r.severity, Severity::Info);
    assert_eq!(r.message, "fine");
    assert_eq!(r.file, None);
    assert_eq!(r.line, None);
    assert_eq!(r.fix, None);
}

#[test]
fn fail_keeps_its_severity() {
    let r = CheckResult::fail("x", Severity::Error, "bad");
    assert!(!r.passed);
    assert_eq!(r.severity, Severity::Error);
    let w = CheckResult::fail("x", Severity::Warning, "hm");
    assert_eq!(w.severity, Severity::Warning);
}

#[test]
fn builders_set_one_field_each() {
    let r = CheckResult::fail("x", Severity::Warning, "m")
        .with_file("src/a.rs")
        .with_line(7)
        .with_fix("do it");
    assert_eq!(r.file, Some("src/a.rs".to_string()));
    assert_eq!(r.line, Some(7));
    assert_eq!(r.fix, Some("do it".to_string()));
    assert_eq!(r.message, "m");
    assert_eq!(r.check_name, "x");
    assert_eq!(r.severity, Severity::Warning);
}

#[test]
fn default_thresholds() {
    let c = CheckConfig::default();
    assert_eq!(c.max_file_loc, 500);
    assert_eq!(c.warn_file_loc, 350);
    assert_eq!(c.max_functions_per_module, 7);
    assert_eq!(c.max_modules_per_crate, 4);
    assert_eq!(c.required_edition, "2024");
}

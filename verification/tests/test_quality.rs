use guardian_cli::checks::test_quality::{analyze_file, check};
use guardian_cli::checks::Severity;
use guardian_cli::project::{Entry, Project};

fn project_with_file(name: &str, content: &str) -> Project {
    let file = Entry {
        name: name.to_string(),
        path: format!("/p/src/{}", name),
        exists: true,
        is_dir: false,
        is_file: true,
        identity: None,
        content: Ok(content.to_string()),
        listing: None,
    };
    let src = Entry {
        name: "src".to_string(),
        path: "/p/src".to_string(),
        exists: true,
        is_dir: true,
        is_file: false,
        identity: None,
        content: Err("Is a directory (os error 21)".to_string()),
        listing: Some(vec![file]),
    };
    Project { name: Some("p".to_string()), listing: Some(vec![src]) }
}

#[test]
fn test_detects_assert_true() {
    let p = project_with_file(
        "lib.rs",
        "\n#[cfg(test)]\nmod tests {\n    #[test]\n    fn placeholder_test() {\n        assert!(true);\n    }\n}\n",
    );
    let results = check(&p);
    let failures: Vec<_> = results.iter().filter(|r| !r.passed).collect();
    assert_eq!(failures.len(), 1);
    assert!(failures[0].message.contains("assert!(true)"));
}

#[test]
fn test_detects_trivial_eq() {
    let p = project_with_file("lib.rs", "\n#[test]\nfn bad_test() {\n    assert_eq!(1, 1);\n}\n");
    let results = check(&p);
    let failures: Vec<_> = results.iter().filter(|r| !r.passed).collect();
    assert_eq!(failures.len(), 1);
    assert!(failures[0].message.contains("assert_eq!(1, 1)"));
}

#[test]
fn test_passes_real_tests() {
    let p = project_with_file(
        "lib.rs",
        "\nfn add(a: i32, b: i32) -> i32 { a + b }\n\n#[test]\nfn test_add() {\n    assert_eq!(add(2, 3), 5);\n}\n",
    );
    let results = check(&p);
    assert!(results.iter().all(|r| r.passed));
}

#[test]
fn test_detects_todo() {
    let p = project_with_file("lib.rs", "\n#[test]\nfn unfinished_test() {\n    todo!();\n}\n");
    let results = check(&p);
    let failures: Vec<_> = results.iter().filter(|r| !r.passed).collect();
    assert_eq!(failures.len(), 1);
    assert!(failures[0].message.contains("todo!()"));
}

#[test]
fn finding_names_the_test_and_its_start() {
    let content = "fn helper() {}\n\n#[test]\nfn my_test() {\n    let x = 1;\n    assert!(true);\n}\n";
    let results = analyze_file(content, "/p/src/lib.rs");
    assert_eq!(results.len(), 1);
    let r = &results[0];
    assert_eq!(r.check_name, "test-quality");
    assert_eq!(r.severity, Severity::Warning);
    assert_eq!(r.message, "Trivial test pattern 'assert!(true)' in test 'my_test'");
    assert_eq!(r.file, Some("/p/src/lib.rs".to_string()));
    assert_eq!(r.line, Some(6));
    assert_eq!(
        r.fix,
        Some(
            "Replace trivial assertion with meaningful test logic in 'my_test' (started at line 3)"
                .to_string()
        )
    );
}

#[test]
fn every_trivial_pattern_is_flagged() {
    for pattern in [
        "assert!(true)",
        "assert_eq!(1, 1)",
        "assert_eq!(true, true)",
        "assert_ne!(1, 2)",
        "assert_ne!(true, false)",
        "todo!()",
        "unimplemented!()",
        "panic!(\"not implemented\")",
        "panic!(\"not yet implemented\")",
    ] {
        let content = format!("#[test]\nfn t() {{\n    {};\n}}\n", pattern);
        let results = analyze_file(&content, "a.rs");
        assert_eq!(results.len(), 1, "{}", pattern);
        assert_eq!(results[0].message, format!("Trivial test pattern '{}' in test 't'", pattern));
    }
}

#[test]
fn patterns_outside_tests_are_not_flagged() {
    let content = "fn f() {\n    todo!();\n}\n#[test]\nfn t() {\n    assert_eq!(f(), 2);\n}\nfn g() {\n    assert!(true);\n}\n";
    assert!(analyze_file(content, "a.rs").is_empty());
}

#[test]
fn raw_strings_inside_tests_are_left_out() {
    let content = "#[test]\nfn t() {\n    let s = r#\"\n    assert!(true);\n    \"#;\n    assert!(s.len() > 0);\n}\n";
    assert!(analyze_file(content, "a.rs").is_empty());
}

#[test]
fn a_test_on_one_line_is_flagged_and_then_over() {
    let content = "#[test]\nfn t() { assert!(true); }\nfn other() {\n    todo!();\n}\n";
    let results = analyze_file(content, "a.rs");
    assert_eq!(results.len(), 1);
    assert_eq!(results[0].line, Some(2));
    assert_eq!(results[0].message, "Trivial test pattern 'assert!(true)' in test 't'");
    assert_eq!(
        results[0].fix,
        Some(
            "Replace trivial assertion with meaningful test logic in 't' (started at line 1)"
                .to_string()
        )
    );
}

#[test]
fn a_pattern_on_the_closing_line_of_a_test_is_flagged() {
    let content = "#[test]\nfn t() {\n    let x = 1;\n    todo!() }\nfn g() { todo!() }\n";
    let results = analyze_file(content, "a.rs");
    assert_eq!(results.len(), 1);
    assert_eq!(results[0].line, Some(4));
}

#[test]
fn clean_file_passes_with_its_name() {
    let p = project_with_file("lib.rs", "fn a() {}\n");
    let results = check(&p);
    assert_eq!(results.len(), 1);
    assert!(results[0].passed);
    assert_eq!(results[0].message, "lib.rs: No trivial tests found");
    assert_eq!(results[0].file, Some("/p/src/lib.rs".to_string()));
}

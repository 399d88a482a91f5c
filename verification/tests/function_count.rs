use guardian_cli::checks::function_count::{check, count_functions};
use guardian_cli::checks::Severity;
use guardian_cli::project::{Entry, Project};

#[test]
fn test_count_simple_functions() {
    let content = "\nfn foo() {}\nfn bar() {}\npub fn baz() {}\n";
    assert_eq!(count_functions(content), 3);
}

#[test]
fn test_excludes_test_functions() {
    let content = "\nfn production_fn() {}\n\n#[cfg(test)]\nmod tests {\n    fn test_helper() {}\n\n    #[test]\n    fn test_something() {}\n}\n";
    assert_eq!(count_functions(content), 1);
}

#[test]
fn test_count_async_functions() {
    let content = "\nasync fn async_foo() {}\npub async fn async_bar() {}\n";
    assert_eq!(count_functions(content), 2);
}

#[test]
fn test_ignores_comments() {
    let content = "\n// fn not_a_function() {}\nfn real_function() {}\n";
    assert_eq!(count_functions(content), 1);
}

#[test]
fn nested_braces_inside_a_test_module_stay_excluded() {
    let content = "fn a() {}\n#[cfg(test)]\nmod tests {\n    fn b() {\n        if true {\n            let _ = || { 1 };\n        }\n    }\n    fn c() {}\n}\nfn d() {}\n";
    assert_eq!(count_functions(content), 2);
}

#[test]
fn raw_string_lines_are_left_out() {
    let content = "let s = r#\"\nfn not_counted() {}\n\"#;\nfn counted() {}\n";
    assert_eq!(count_functions(content), 1);
    let one_line = "let s = r#\"fn inside() {}\"#;\nfn counted() {}\n";
    assert_eq!(count_functions(one_line), 1);
}

#[test]
fn an_unterminated_raw_string_hides_the_rest() {
    let content = "fn a() {}\nlet s = r#\"\nfn b() {}\nfn c() {}\n";
    assert_eq!(count_functions(content), 1);
}

#[test]
fn qualifiers_and_comment_styles() {
    let content = "pub(crate) fn a() {}\npub(super) fn b() {}\nconst fn c() {}\npub const fn d() {}\nunsafe fn e() {}\npub unsafe fn f() {}\n/* fn g() {} */\n * fn h() {}\nfn no_paren\n";
    assert_eq!(count_functions(content), 6);
}

#[test]
fn a_marker_inside_a_test_module_does_not_end_it_early() {
    let content = "#[cfg(test)]\nmod tests {\n    #[cfg(test)]\n    mod inner {\n    }\n    fn helper() {}\n}\nfn after() {}\n";
    assert_eq!(count_functions(content), 1);
}

#[test]
fn a_test_module_on_one_line_hides_its_functions() {
    assert_eq!(count_functions("#[cfg(test)] mod tests { fn a() {} }\n"), 0);
    assert_eq!(count_functions("#[cfg(test)] mod tests { fn a() {} }\nfn b() {}\n"), 1);
}

#[test]
fn a_definition_on_the_closing_line_of_a_test_module_is_inside() {
    let content = "#[cfg(test)]\nmod tests {\n    fn a() {\n    } fn b() {} }\nfn c() {}\n";
    assert_eq!(count_functions(content), 1);
}

fn file(name: &str, content: &str) -> Entry {
    Entry {
        name: name.to_string(),
        path: format!("/p/src/{}", name),
        exists: true,
        is_dir: false,
        is_file: true,
        identity: Some(format!("/p/src/{}", name)),
        content: Ok(content.to_string()),
        listing: None,
    }
}

fn project_with(files: Vec<Entry>) -> Project {
    let src = Entry {
        name: "src".to_string(),
        path: "/p/src".to_string(),
        exists: true,
        is_dir: true,
        is_file: false,
        identity: Some("/p/src".to_string()),
        content: Err("Is a directory (os error 21)".to_string()),
        listing: Some(files),
    };
    Project { name: Some("p".to_string()), listing: Some(vec![src]) }
}

#[test]
fn one_result_per_file_with_exact_messages() {
    let many = "fn a() {}\nfn b() {}\nfn c() {}\n";
    let p = project_with(vec![file("few.rs", "fn a() {}\n"), file("many.rs", many)]);
    let results = check(&p, 2);
    assert_eq!(results.len(), 2);
    assert!(results[0].passed);
    assert_eq!(results[0].message, "few.rs: 1 functions (OK)");
    assert_eq!(results[0].file, Some("/p/src/few.rs".to_string()));
    assert!(!results[1].passed);
    assert_eq!(results[1].severity, Severity::Error);
    assert_eq!(results[1].message, "many.rs: 3 functions exceeds max 2");
    assert_eq!(
        results[1].fix,
        Some("Split many.rs into smaller modules with fewer functions".to_string())
    );
}

#[test]
fn unreadable_file_is_a_warning() {
    let mut f = file("bad.rs", "");
    f.content = Err("permission denied".to_string());
    let results = check(&project_with(vec![f]), 7);
    assert_eq!(results.len(), 1);
    assert!(!results[0].passed);
    assert_eq!(results[0].severity, Severity::Warning);
    assert_eq!(results[0].message, "Read error: permission denied");
    assert_eq!(results[0].check_name, "function-count");
}

#[test]
fn a_brace_in_a_string_literal_counts_as_a_brace() {
    let content = "#[cfg(test)]\nmod tests {\n    let s = \"}\";\n    fn inner() {}\n}\n";
    assert_eq!(count_functions(content), 1);
}

#[test]
fn a_test_module_adds_nothing_to_the_count() {
    let above = ["", "fn a() {}\n", "impl X {\n    fn a() {\n", "fn a() {}\nstruct S {\n"];
    let bodies = [
        "",
        "    fn t() {}\n",
        "    use super::X;\r\n    fn t() {\r\n        if true { let _ = || { 1 }; }\r\n    }\r\n",
        "    mod deeper {\n        fn u() {\n            {{}}\n        }\n    }\n    fn v() {}\n",
    ];
    let below = ["", "fn z() {}\n", "    }\n}\nfn z() {}\nfn y()", "}\npub fn z() {}\n"];
    for a in above {
        for body in bodies {
            for b in below {
                let with = format!("{a}#[cfg(test)]\nmod tests {{\n{body}}}\n{b}");
                let without = format!("{a}{b}");
                assert_eq!(count_functions(&with), count_functions(&without), "{:?}", with);
            }
        }
    }
}

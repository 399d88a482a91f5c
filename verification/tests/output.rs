use guardian_cli::checks::{CheckResult, Severity};
use guardian_cli::commands::config_cmd::show_config;
use guardian_cli::commands::output::{
    check_results, count_reachable, exit_status, has_errors, no_hosts_error, ping_results,
    summarize, Summary,
};
use guardian_cli::config::{GuardianConfig, OllamaHost, OllamaSection};
use guardian_cli::ollama::PingResult;

fn sample() -> Vec<CheckResult> {
    vec![
        CheckResult::pass("rust-edition", "ok"),
        CheckResult::fail("loc-limits", Severity::Error, "too long").with_fix("split"),
        CheckResult::fail("loc-limits", Severity::Warning, "long"),
        CheckResult::pass("cache-busting", "fine"),
    ]
}

#[test]
fn counts_of_a_run() {
    assert_eq!(
        summarize(&sample()),
        Summary { total: 4, passed: 2, failed: 2, errors: 1, warnings: 1 }
    );
    assert_eq!(
        summarize(&vec![]),
        Summary { total: 0, passed: 0, failed: 0, errors: 0, warnings: 0 }
    );
}

#[test]
fn only_errors_block() {
    assert!(has_errors(&sample()));
    assert_eq!(exit_status(&sample()), 1);
    let warnings = vec![CheckResult::fail("x", Severity::Warning, "w"), CheckResult::pass("x", "p")];
    assert!(!has_errors(&warnings));
    assert_eq!(exit_status(&warnings), 0);
    assert_eq!(exit_status(&vec![]), 0);
}

#[test]
fn text_report_of_a_run() {
    let expected = "Guardian Checklist Results\n\n\
[rust-edition]\n  [OK] ok\n\
\n[loc-limits]\n  [FAIL] [ERROR] too long\n       Fix: split\n  [FAIL] [WARN] long\n\
\n[cache-busting]\n  [OK] fine\n\
\n---\nTotal: 4 | Passed: 2 | Failed: 2 (1 errors, 1 warnings)\n";
    assert_eq!(check_results(&sample()), expected);
    assert_eq!(
        check_results(&vec![]),
        "Guardian Checklist Results\n\n\n---\nTotal: 0 | Passed: 0 | Failed: 0 (0 errors, 0 warnings)\n"
    );
}

fn ping(name: &str, fallback: bool, reachable: bool, latency: Option<u64>, error: Option<&str>) -> PingResult {
    PingResult {
        host: OllamaHost {
            name: name.to_string(),
            base_url: String::new(),
            enabled: true,
            fallback,
            description: None,
        },
        reachable,
        latency_ms: latency,
        error: error.map(|e| e.to_string()),
    }
}

#[test]
fn text_report_of_probes() {
    let results = vec![
        ping("a", false, true, Some(12), None),
        ping("b", true, true, None, None),
        ping("c", true, false, Some(3), Some("HTTP status: 500 Internal Server Error")),
        ping("d", false, false, None, None),
    ];
    assert_eq!(
        ping_results(&results),
        "  [UP] a (12ms)\n  [UP] b [fallback]\n  [DOWN] c [fallback] - HTTP status: 500 Internal Server Error\n  [DOWN] d - unknown error\n"
    );
    assert_eq!(count_reachable(&results), 2);
    assert_eq!(ping_results(&vec![]), "");
}

#[test]
fn message_for_an_empty_pool() {
    assert_eq!(
        no_hosts_error(false, "No hosts configured"),
        "No hosts configured. Add hosts to your guardian.toml file."
    );
    assert_eq!(no_hosts_error(true, "No hosts configured"), "{\"error\": \"No hosts configured\"}");
}

#[test]
fn configuration_as_text() {
    let empty = GuardianConfig::default();
    assert_eq!(
        show_config(&empty),
        "Guardian CLI Configuration\n\nTimeout: 2500ms\n\nConfigured hosts:\n  (none)\n"
    );
    let full = GuardianConfig {
        ollama: OllamaSection {
            default_timeout_ms: Some(3000),
            default_host: Some("big72".to_string()),
            default_model: Some("qwen".to_string()),
            hosts: vec![
                OllamaHost {
                    name: "big72".to_string(),
                    base_url: "http://big72:11434".to_string(),
                    enabled: true,
                    fallback: false,
                    description: Some("Main server".to_string()),
                },
                OllamaHost {
                    name: "local".to_string(),
                    base_url: "http://localhost:11434".to_string(),
                    enabled: false,
                    fallback: true,
                    description: None,
                },
            ],
        },
    };
    assert_eq!(
        show_config(&full),
        "Guardian CLI Configuration\n\nTimeout: 3000ms\nDefault host: big72\nDefault model: qwen\n\nConfigured hosts:\n  - big72 (http://big72:11434) [enabled]\n    Main server\n  - local (http://localhost:11434) [disabled, fallback]\n"
    );
}

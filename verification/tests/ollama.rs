use guardian_cli::config::OllamaHost;
use guardian_cli::ollama::{
    copy_host, endpoint, generate_url, has_model, http_failure, interpret_probe, is_success,
    tags_url, GenerateRequest, OllamaModel, PingResult, ProbeBoard, ProbeOutcome,
};

fn test_host(name: &str, port: u16) -> OllamaHost {
    OllamaHost {
        name: name.to_string(),
        base_url: format!("http://127.0.0.1:{port}"),
        enabled: true,
        fallback: false,
        description: None,
    }
}

fn model(name: &str) -> OllamaModel {
    OllamaModel { name: name.to_string(), modified_at: None, size: None, digest: None }
}

#[test]
fn test_ping_result_reachable() {
    let host = test_host("test", 11434);
    let result = PingResult {
        host: host.clone(),
        reachable: true,
        latency_ms: Some(50),
        error: None,
    };
    assert!(result.reachable);
    assert_eq!(result.latency_ms, Some(50));
}

#[test]
fn test_ping_result_unreachable() {
    let host = test_host("test", 11434);
    let result = PingResult {
        host: host.clone(),
        reachable: false,
        latency_ms: None,
        error: Some("Connection refused".to_string()),
    };
    assert!(!result.reachable);
    assert!(result.error.is_some());
}

#[test]
fn the_three_outcomes_of_a_probe() {
    let host = test_host("h", 1);
    let up = interpret_probe(
        &host,
        &ProbeOutcome::Answered { status: 200, status_line: "200 OK".to_string(), latency_ms: 12 },
    );
    assert!(up.reachable);
    assert_eq!(up.latency_ms, Some(12));
    assert_eq!(up.error, None);
    assert_eq!(up.host, host);

    let refused = interpret_probe(
        &host,
        &ProbeOutcome::Answered {
            status: 404,
            status_line: "404 Not Found".to_string(),
            latency_ms: 7,
        },
    );
    assert!(!refused.reachable);
    assert_eq!(refused.latency_ms, Some(7));
    assert_eq!(refused.error, Some("HTTP status: 404 Not Found".to_string()));

    let other_success = interpret_probe(
        &host,
        &ProbeOutcome::Answered {
            status: 204,
            status_line: "204 No Content".to_string(),
            latency_ms: 1,
        },
    );
    assert!(!other_success.reachable);

    let down = interpret_probe(
        &host,
        &ProbeOutcome::Failed { reason: "connection refused".to_string() },
    );
    assert!(!down.reachable);
    assert_eq!(down.latency_ms, None);
    assert_eq!(down.error, Some("connection refused".to_string()));
}

#[test]
fn routes_drop_trailing_slashes() {
    assert_eq!(endpoint("http://h:1", "/api/tags"), "http://h:1/api/tags");
    assert_eq!(endpoint("http://h:1/", "/api/tags"), "http://h:1/api/tags");
    assert_eq!(endpoint("http://h:1///", "/api/tags"), "http://h:1/api/tags");
    assert_eq!(endpoint("", "/x"), "/x");
    assert_eq!(endpoint("///", "/x"), "/x");
    let host = test_host("h", 11434);
    assert_eq!(tags_url(&host), "http://127.0.0.1:11434/api/tags");
    assert_eq!(generate_url(&host), "http://127.0.0.1:11434/api/generate");
}

#[test]
fn success_is_the_two_hundreds() {
    assert!(!is_success(199));
    assert!(is_success(200));
    assert!(is_success(299));
    assert!(!is_success(300));
    assert!(!is_success(404));
}

#[test]
fn failure_message_names_host_and_status() {
    assert_eq!(
        http_failure("big72", "500", "Internal Server Error"),
        "Host big72 returned HTTP 500: Internal Server Error"
    );
}

#[test]
fn models_are_found_by_exact_name() {
    let models = vec![model("model1"), model("qwen2.5-coder:7b")];
    assert!(has_model(&models, "model1"));
    assert!(has_model(&models, "qwen2.5-coder:7b"));
    assert!(!has_model(&models, "qwen2.5-coder"));
    assert!(!has_model(&vec![], "model1"));
}

#[test]
fn a_request_asks_for_one_response() {
    let r = GenerateRequest::new("m", "why?");
    assert_eq!(r.model, "m");
    assert_eq!(r.prompt, "why?");
    assert!(!r.stream);
}

#[test]
fn a_copy_is_equal() {
    let mut host = test_host("h", 1);
    host.description = Some("d".to_string());
    host.fallback = true;
    assert_eq!(copy_host(&host), host);
}

#[test]
fn results_come_in_input_order_whatever_the_order_of_arrival() {
    let hosts = vec![test_host("a", 1), test_host("b", 2), test_host("c", 3)];
    let mut board = ProbeBoard::new(&hosts);
    assert_eq!(board.len(), 3);
    assert!(!board.is_complete());
    assert!(board.results().is_none());
    assert!(board.record(2, ProbeOutcome::Failed { reason: "timed out".to_string() }));
    assert!(board.record(
        0,
        ProbeOutcome::Answered { status: 200, status_line: "200 OK".to_string(), latency_ms: 30 }
    ));
    assert!(board.results().is_none());
    assert!(board.record(
        1,
        ProbeOutcome::Answered {
            status: 503,
            status_line: "503 Service Unavailable".to_string(),
            latency_ms: 5
        }
    ));
    assert!(board.is_complete());
    let results = board.results().unwrap();
    assert_eq!(results.len(), 3);
    let names: Vec<&str> = results.iter().map(|r| r.host.name.as_str()).collect();
    assert_eq!(names, vec!["a", "b", "c"]);
    assert!(results[0].reachable);
    assert_eq!(results[0].latency_ms, Some(30));
    assert!(!results[1].reachable);
    assert_eq!(results[1].error, Some("HTTP status: 503 Service Unavailable".to_string()));
    assert!(!results[2].reachable);
    assert_eq!(results[2].error, Some("timed out".to_string()));
    assert_eq!(results[2].latency_ms, None);
}

#[test]
fn the_first_outcome_for_a_slot_is_kept() {
    let hosts = vec![test_host("a", 1)];
    let mut board = ProbeBoard::new(&hosts);
    assert_eq!(board.host(0).map(|h| h.name.as_str()), Some("a"));
    assert!(board.host(1).is_none());
    assert!(!board.record(1, ProbeOutcome::Failed { reason: "x".to_string() }));
    assert!(board.record(0, ProbeOutcome::Failed { reason: "first".to_string() }));
    assert!(!board.record(0, ProbeOutcome::Failed { reason: "second".to_string() }));
    let results = board.results().unwrap();
    assert_eq!(results[0].error, Some("first".to_string()));
}

#[test]
fn an_empty_board_is_complete() {
    let board = ProbeBoard::new(&vec![]);
    assert!(board.is_complete());
    assert_eq!(board.results().unwrap().len(), 0);
}

use qwen_imager::error::{map_http_error, AppError};
use qwen_imager::json::Json;
use qwen_imager::models::config::AsyncPollConfig;
use qwen_imager::services::qwen_client::{
    bearer, is_success, output_string, parse_u64, poll_step, poll_url_for, retries_exhausted,
    retry_after_secs, should_retry, submit_step, task_poll_url, unparsable_response, PollStep,
    SubmitStep, MAX_RETRIES, TASK_POLL_URL,
};

fn poll_config(interval: u64, timeout: u64) -> AsyncPollConfig {
    AsyncPollConfig {
        submit_headers: vec![],
        poll_url: "https://x/{task_id}".to_string(),
        poll_interval_secs: interval,
        timeout_secs: timeout,
    }
}

#[test]
fn bearer_header() {
    assert_eq!(bearer("sk-123"), "Bearer sk-123");
    assert_eq!(bearer(""), "Bearer ");
}

#[test]
fn task_urls() {
    assert_eq!(TASK_POLL_URL, "https://dashscope.aliyuncs.com/api/v1/tasks");
    assert_eq!(task_poll_url("abc"), "https://dashscope.aliyuncs.com/api/v1/tasks/abc");
    assert_eq!(
        poll_url_for("https://dashscope.aliyuncs.com/api/v1/tasks/{task_id}", "t-9"),
        "https://dashscope.aliyuncs.com/api/v1/tasks/t-9"
    );
    assert_eq!(poll_url_for("https://x/{task_id}?again={task_id}", "7"), "https://x/7?again=7");
    assert_eq!(poll_url_for("https://x/tasks", "7"), "https://x/tasks");
}

#[test]
fn success_and_retry_rules() {
    assert!(is_success(200));
    assert!(is_success(299));
    assert!(!is_success(300));
    assert!(!is_success(199));
    assert_eq!(MAX_RETRIES, 3);
    assert!(should_retry(429, 0));
    assert!(should_retry(429, 2));
    assert!(!should_retry(429, 3));
    assert!(!should_retry(500, 0));
}

#[test]
fn parse_u64_as_from_str() {
    assert_eq!(parse_u64("42"), Some(42));
    assert_eq!(parse_u64("+7"), Some(7));
    assert_eq!(parse_u64("007"), Some(7));
    assert_eq!(parse_u64("18446744073709551615"), Some(u64::MAX));
    assert_eq!(parse_u64("18446744073709551616"), None);
    assert_eq!(parse_u64(""), None);
    assert_eq!(parse_u64("+"), None);
    assert_eq!(parse_u64("-1"), None);
    assert_eq!(parse_u64("1.5"), None);
    assert_eq!(parse_u64(" 5"), None);
    for text in ["0", "99", "+12", "x", "123456789012345678901"] {
        assert_eq!(parse_u64(text), text.parse::<u64>().ok(), "{}", text);
    }
}

#[test]
fn retry_after_header() {
    assert_eq!(retry_after_secs(Some("10")), 10);
    assert_eq!(retry_after_secs(Some("soon")), 3);
    assert_eq!(retry_after_secs(None), 3);
}

#[test]
fn submit_steps() {
    assert!(matches!(submit_step(0, 429, Some("5")), SubmitStep::Retry(5)));
    assert!(matches!(submit_step(2, 429, None), SubmitStep::Retry(3)));
    assert!(matches!(submit_step(3, 429, Some("5")), SubmitStep::Fail));
    assert!(matches!(submit_step(0, 200, None), SubmitStep::Accept));
    assert!(matches!(submit_step(3, 201, None), SubmitStep::Accept));
    assert!(matches!(submit_step(0, 401, None), SubmitStep::Fail));
}

#[test]
fn retries_exhausted_error() {
    let e = retries_exhausted();
    assert_eq!(e.kind(), "rateLimited");
    assert_eq!(e.message(), "Rate limited: Rate limited after 3 retries. Please try again later.");
    let e = unparsable_response("async task", "expected value");
    assert_eq!(e.message(), "API error: Failed to parse async task response: expected value");
}

#[test]
fn poll_steps() {
    let cfg = poll_config(3, 180);
    assert!(matches!(poll_step("SUCCEEDED", None, 0, &cfg), PollStep::Finished));
    assert!(matches!(poll_step("PENDING", None, 0, &cfg), PollStep::Wait(3)));
    assert!(matches!(poll_step("RUNNING", None, 177, &cfg), PollStep::Wait(3)));
    match poll_step("RUNNING", None, 178, &cfg) {
        PollStep::TimedOut(e) => {
            assert_eq!(e.kind(), "timeout");
            assert_eq!(e.detail(), "Task did not finish within 180 seconds");
        }
        other => panic!("unexpected {:?}", other),
    }
    match poll_step("FAILED", Some("bad prompt"), 0, &cfg) {
        PollStep::Failed(e) => {
            assert_eq!(e.kind(), "api");
            assert_eq!(e.detail(), "Task FAILED: bad prompt");
        }
        other => panic!("unexpected {:?}", other),
    }
    match poll_step("CANCELED", None, 0, &cfg) {
        PollStep::Failed(e) => assert_eq!(e.detail(), "Task CANCELED: no message"),
        other => panic!("unexpected {:?}", other),
    }
    assert!(matches!(poll_step("UNKNOWN", None, 0, &cfg), PollStep::Failed(_)));
}

#[test]
fn polling_never_waits_past_timeout() {
    let cfg = poll_config(7, 30);
    let mut elapsed = 0u64;
    let mut waits = 0;
    loop {
        match poll_step("RUNNING", None, elapsed, &cfg) {
            PollStep::Wait(s) => {
                elapsed += s;
                waits += 1;
                assert!(elapsed <= 30);
            }
            PollStep::TimedOut(_) => break,
            other => panic!("unexpected {:?}", other),
        }
    }
    assert_eq!(waits, 4);
}

#[test]
fn output_strings() {
    let resp = Json::Object(vec![(
        "output".to_string(),
        Json::Object(vec![
            ("task_status".to_string(), Json::String("RUNNING".to_string())),
            ("code".to_string(), Json::Number("3".to_string())),
        ]),
    )]);
    assert_eq!(output_string(&resp, "task_status"), Some("RUNNING".to_string()));
    assert_eq!(output_string(&resp, "code"), None);
    assert_eq!(output_string(&resp, "message"), None);
    assert_eq!(output_string(&Json::Null, "task_status"), None);
}

#[test]
fn http_errors_by_status() {
    let e = map_http_error(400, "bad");
    assert_eq!((e.kind(), e.message().as_str()), ("validation", "Validation error: Bad request: bad"));
    let e = map_http_error(401, "ignored");
    assert_eq!(
        (e.kind(), e.detail().as_str()),
        ("unauthorized", "Invalid API key. Please check your apiKey in ~/.qwenimage/setting.json")
    );
    let e = map_http_error(429, "slow down");
    assert_eq!((e.kind(), e.detail().as_str()), ("rateLimited", "Rate limited by the API. Please try again later. slow down"));
    let e = map_http_error(503, "down");
    assert_eq!((e.kind(), e.detail().as_str()), ("api", "Server error (503): down"));
    let e = map_http_error(500, "");
    assert_eq!(e.detail(), "Server error (500): ");
    let e = map_http_error(404, "missing");
    assert_eq!((e.kind(), e.detail().as_str()), ("api", "HTTP error (404): missing"));
    let e = map_http_error(0, "x");
    assert_eq!(e.detail(), "HTTP error (0): x");
}

#[test]
fn error_kinds_and_messages() {
    let cases = vec![
        (AppError::Network("n".to_string()), "network", "Network error: n"),
        (AppError::Api("a".to_string()), "api", "API error: a"),
        (AppError::Timeout("t".to_string()), "timeout", "Request timed out: t"),
        (AppError::Config("c".to_string()), "config", "Configuration error: c"),
        (AppError::Unauthorized("u".to_string()), "unauthorized", "Unauthorized: u"),
        (AppError::RateLimited("r".to_string()), "rateLimited", "Rate limited: r"),
        (AppError::Io("i".to_string()), "io", "IO error: i"),
        (AppError::NotFound("f".to_string()), "notFound", "Not found: f"),
        (AppError::Validation("v".to_string()), "validation", "Validation error: v"),
    ];
    for (e, kind, message) in cases {
        assert_eq!(e.kind(), kind);
        assert_eq!(e.message(), message);
    }
}

#[test]
fn error_constructors() {
    assert_eq!(AppError::io("disk".to_string()).message(), "IO error: disk");
    assert_eq!(AppError::json_parse("eof").message(), "Configuration error: JSON parse error: eof");
    assert_eq!(AppError::database("locked").message(), "IO error: Database error: locked");
    assert_eq!(AppError::from(true, "slow".to_string()).kind(), "timeout");
    assert_eq!(AppError::from(false, "dns".to_string()).message(), "Network error: dns");
}

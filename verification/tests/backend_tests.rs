use mcp_client::json::JsonValue;
use mcp_client::session::{build_report, call_failed, Outcome};
use mcp_client::protocol::connect_frame_encode;
use mcp_client::windsurf::{
    client_timeout_ms, http_failure, read_reply, request_headers, span_id, stream_url,
    streaming_request, trace_id, WindsurfConfig,
};

fn cfg(timeout_ms: u64) -> WindsurfConfig {
    WindsurfConfig {
        api_base: "https://api.example".to_string(),
        auth_base: String::new(),
        app_version: "1.0".to_string(),
        ls_version: "1.9.4".to_string(),
        model: String::new(),
        timeout_ms,
    }
}

#[test]
fn the_stream_endpoint_is_below_the_api_base() {
    assert_eq!(stream_url(&cfg(1)), "https://api.example/GetDevstralStream");
}

#[test]
fn the_client_waits_five_seconds_longer_than_the_server() {
    assert_eq!(client_timeout_ms(&cfg(30000)), 35000);
    assert_eq!(client_timeout_ms(&cfg(0)), 5000);
    assert_eq!(client_timeout_ms(&cfg(u64::MAX - 5000)), u64::MAX);
    assert_eq!(client_timeout_ms(&cfg(u64::MAX - 4999)), u64::MAX);
    assert_eq!(client_timeout_ms(&cfg(u64::MAX)), u64::MAX);
}

#[test]
fn trace_and_span_come_from_random_identifiers() {
    let random = "123e4567-e89b-12d3-a456-426614174000";
    assert_eq!(trace_id(random), "123e4567e89b12d3a456426614174000");
    assert_eq!(span_id(random), "123e4567e89b12d3");
    assert_eq!(span_id("ab-cd"), "abcd");
    assert_eq!(span_id("0123456789abcdef"), "0123456789abcdef");
    assert_eq!(trace_id(""), "");
}

#[test]
fn the_headers_are_those_of_the_protocol() {
    let headers = request_headers(&cfg(30000), "TRACE", "SPAN");
    let want: Vec<(String, String)> = vec![
        ("Content-Type", "application/connect+proto"),
        ("Connect-Protocol-Version", "1"),
        ("Connect-Accept-Encoding", "gzip"),
        ("Connect-Content-Encoding", "gzip"),
        ("Connect-Timeout-Ms", "30000"),
        ("User-Agent", "connect-go/1.18.1 (go1.25.5)"),
        ("Accept-Encoding", "identity"),
        (
            "Baggage",
            "sentry-release=language-server-windsurf@1.9.4,sentry-environment=stable,sentry-sampled=false,sentry-trace_id=TRACE,sentry-public_key=b813f73488da69eedec534dba1029111",
        ),
        ("Sentry-Trace", "TRACE-SPAN-0"),
    ]
    .into_iter()
    .map(|(k, v)| (k.to_string(), v.to_string()))
    .collect();
    assert_eq!(headers, want);
}

#[test]
fn a_status_that_is_no_success_fails_the_call() {
    assert_eq!(http_failure(503), "HTTP 503");
    assert_eq!(http_failure(0), "HTTP 0");
    assert_eq!(
        call_failed(&http_failure(401)),
        Outcome::Errored("Windsurf API error: HTTP 401".to_string())
    );
}

#[test]
fn the_report_names_status_message_and_duration() {
    let report = build_report("q", &Outcome::Answered("text".to_string()), 1234);
    assert_eq!(
        report.to_text(),
        "{\"duration_ms\":1234,\"error_msg\":\"\",\"provider\":\"windsurf\",\"query\":\"q\",\"status\":\"success\"}"
    );
    let report = build_report("q", &Outcome::TimedOut("partial".to_string()), 0);
    assert_eq!(report.get_str("status"), Some("timeout"));
    assert_eq!(report.get_str("error_msg"), Some("max turns"));
    let report = build_report("the \"query\"", &Outcome::Errored("No jwt".to_string()), u64::MAX);
    assert_eq!(report.get_str("status"), Some("error"));
    assert_eq!(report.get_str("error_msg"), Some("No jwt"));
    assert_eq!(report.get("duration_ms"), Some(&JsonValue::Unsigned(u64::MAX)));
    assert_eq!(report.get_str("query"), Some("the \"query\""));
}

#[test]
fn a_call_is_prepared_with_frame_headers_and_timeout() {
    let call = streaming_request(
        &cfg(30000),
        b"request",
        "123e4567-e89b-12d3-a456-426614174000",
        "aaaaaaaa-bbbb-cccc-dddd-eeeeeeeeeeee",
    );
    assert_eq!(call.url, "https://api.example/GetDevstralStream");
    assert_eq!(call.body, connect_frame_encode(b"request"));
    assert_eq!(call.timeout_ms, 35000);
    assert_eq!(
        call.headers,
        request_headers(&cfg(30000), "123e4567e89b12d3a456426614174000", "aaaaaaaabbbbcccc")
    );
    assert_eq!(call.headers[8].1, "123e4567e89b12d3a456426614174000-aaaaaaaabbbbcccc-0");
}

#[test]
fn only_a_status_of_success_gives_the_body() {
    assert_eq!(read_reply(200, vec![1, 2]), Ok(vec![1, 2]));
    assert_eq!(read_reply(204, vec![]), Ok(vec![]));
    assert_eq!(read_reply(299, vec![9]), Ok(vec![9]));
    assert_eq!(read_reply(199, vec![1]), Err("HTTP 199".to_string()));
    assert_eq!(read_reply(300, vec![1]), Err("HTTP 300".to_string()));
    assert_eq!(read_reply(404, vec![1]), Err("HTTP 404".to_string()));
    assert_eq!(read_reply(500, vec![]), Err("HTTP 500".to_string()));
}

//! What the proxy decides around the conversions.

use ccr::config::{
    default_connect_timeout_secs, default_host, default_max_body_size, default_port,
    default_request_timeout_secs, Config, LogConfig, ServerConfig, StreamingConfig, StringMap,
    UpstreamConfig,
};
use ccr::converter::ReasoningStore;
use ccr::handler::{
    convert_reply, convert_reply_at, decide, health, is_client_disconnect_error,
    is_error_status, preflight_check, preflight_error_body, preflight_event, prepare_request,
    request_headers, timed_out, AppError, PreflightEvent, PumpAction, PumpEvent, Reply, StreamPump,
};
use ccr::json::Json;
use serde_json::Value;

const RANDOM: &str = "0123456789abcdef0123456789abcdef";

fn parse(s: &str) -> Json {
    match Json::parse(s.as_bytes()) {
        Ok(v) => v,
        Err(e) => panic!("{}", e),
    }
}

fn doc(s: &str) -> Value {
    serde_json::from_str(s).unwrap()
}

fn config() -> Config {
    let mut mapping = StringMap::new();
    mapping.insert("gpt-5".to_string(), "deepseek-chat".to_string());
    Config {
        server: ServerConfig {
            host: default_host(),
            port: default_port(),
            connect_timeout_secs: default_connect_timeout_secs(),
            request_timeout_secs: default_request_timeout_secs(),
            max_body_size: default_max_body_size(),
        },
        upstream: UpstreamConfig {
            url: "http://localhost".to_string(),
            api_key: "secret".to_string(),
            extra_headers: vec![("X-Team".to_string(), "blue".to_string())],
            model_mapping: mapping,
        },
        logging: LogConfig::default(),
        streaming: StreamingConfig::default(),
    }
}

#[test]
fn health_check() {
    assert_eq!(health(), "OK");
}

#[test]
fn requests_are_prepared() {
    let mut store = ReasoningStore::new();
    let body = br#"{"model": "gpt-5", "stream": true, "input": "hi"}"#;
    let p = match prepare_request(body, &config(), &mut store) {
        Ok(p) => p,
        Err(e) => panic!("{}", e.message),
    };
    assert!(p.is_stream);
    assert_eq!(p.mapped_model, "deepseek-chat");
    let chat: Value = serde_json::from_slice(&p.body).unwrap();
    assert_eq!(
        chat,
        doc(r#"{"model": "deepseek-chat", "stream": true,
            "stream_options": {"include_usage": true},
            "messages": [{"role": "user", "content": "hi"}]}"#)
    );
    assert_eq!(doc(&p.original.print())["model"], "gpt-5");
    let p = match prepare_request(b"{}", &config(), &mut store) {
        Ok(p) => p,
        Err(e) => panic!("{}", e.message),
    };
    assert!(!p.is_stream);
    assert_eq!(p.mapped_model, "");
}

#[test]
fn requests_without_a_document_are_refused() {
    let mut store = ReasoningStore::new();
    let refusal = |body: &[u8], store: &mut ReasoningStore| match prepare_request(
        body,
        &config(),
        store,
    ) {
        Ok(_) => panic!("accepted"),
        Err(e) => e,
    };
    let e = refusal(b"", &mut store);
    assert_eq!(e.status, 400);
    assert_eq!(e.message, "Request body cannot be empty");
    let e = refusal(b"{\"a\":", &mut store);
    assert_eq!(e.status, 400);
    let complaint = serde_json::from_str::<Value>("{\"a\":").unwrap_err().to_string();
    assert_eq!(e.message, format!("Invalid request JSON: {}", complaint));
    let body: Value = serde_json::from_slice(&e.body()).unwrap();
    assert_eq!(body["error"]["type"], "api_error");
    assert_eq!(body["error"]["message"], e.message.as_str());
}

#[test]
fn errors_have_a_status() {
    assert_eq!(AppError::bad_request("a".to_string()).status, 400);
    assert_eq!(AppError::upstream_error("a".to_string()).status, 502);
    assert_eq!(AppError::internal("a".to_string()).status, 500);
    assert!(!is_error_status(399));
    assert!(is_error_status(400));
    assert!(is_error_status(599));
    assert!(!is_error_status(600));
}

#[test]
fn headers_for_the_upstream_api() {
    let expected: Vec<(String, String)> = [
        ("Authorization", "Bearer secret"),
        ("Content-Type", "application/json"),
        ("X-Team", "blue"),
    ]
    .iter()
    .map(|(a, b)| (a.to_string(), b.to_string()))
    .collect();
    assert_eq!(request_headers(&config().upstream), expected);
}

#[test]
fn replies_are_converted_or_passed_through() {
    let request = parse("{}");
    let body = br#"{"choices": []}"#;
    match convert_reply_at(200, body, &request, "m", RANDOM, 9) {
        Reply::Document(d) => assert_eq!(
            serde_json::from_slice::<Value>(&d).unwrap(),
            doc(r#"{"id": "resp_resp_0123456789abcdef0123456789abcdef", "object": "response",
                "created_at": 9, "status": "completed", "model": "m"}"#)
        ),
        Reply::PassThrough => panic!("passed through"),
    }
    assert!(matches!(
        convert_reply_at(429, body, &request, "m", RANDOM, 9),
        Reply::PassThrough
    ));
    assert!(matches!(convert_reply(200, b"oops", &request, "m"), Reply::PassThrough));
    assert!(matches!(convert_reply(200, body, &request, "m"), Reply::Document(_)));
}

fn detected(event: PreflightEvent) -> Option<(String, String, u16)> {
    preflight_check(&event).map(|r| (r.detection_type, r.reason, r.status_code))
}

fn kind_of(s: &str) -> Option<(String, u16)> {
    detected(PreflightEvent::Chunk(s.to_string())).map(|r| (r.0, r.2))
}

#[test]
fn first_data_of_a_stream() {
    assert_eq!(kind_of("data: {\"choices\": []}\n\n"), None);
    for s in ["", " \n", " {} "] {
        assert_eq!(
            detected(PreflightEvent::Chunk(s.to_string())),
            Some((
                "empty_response".to_string(),
                format!(
                    "Upstream returned empty response or empty object, content length: {}",
                    s.len()
                ),
                502
            ))
        );
    }
    for s in [
        "INVALID_API_KEY",
        "Authentication_Error",
        "Unauthorized",
        "code 401",
        "Your API Key is INVALID",
    ] {
        assert_eq!(kind_of(s), Some(("auth_error".to_string(), 502)), "{}", s);
    }
    for s in ["Insufficient_Quota", "Billing ERROR", "quota_exceeded", "rate_limit"] {
        assert_eq!(kind_of(s), Some(("quota_error".to_string(), 429)), "{}", s);
    }
    for s in ["tool_calls MALFORMED", "parse_error in Tool_Calls"] {
        assert_eq!(kind_of(s), Some(("malformed_tool_call".to_string(), 500)), "{}", s);
    }
    assert_eq!(kind_of("billing is fine"), None);
    assert_eq!(kind_of("api key accepted"), None);
    assert_eq!(kind_of("malformed"), None);
}

#[test]
fn no_data_of_a_stream() {
    assert_eq!(
        detected(PreflightEvent::Ended).map(|r| (r.0, r.2)),
        Some(("immediate_stream_end".to_string(), 502))
    );
    assert_eq!(
        detected(PreflightEvent::Failed("reset".to_string())),
        Some((
            "stream_read_error".to_string(),
            "Failed to read upstream stream: reset".to_string(),
            502
        ))
    );
    assert_eq!(
        detected(PreflightEvent::TimedOut(120)),
        Some((
            "preflight_timeout".to_string(),
            "Preflight timeout (120s), upstream response too slow".to_string(),
            504
        ))
    );
}

#[test]
fn refusal_of_a_stream() {
    let r = preflight_check(&PreflightEvent::TimedOut(3)).unwrap();
    let body = doc(&preflight_error_body(&r));
    assert_eq!(body["type"], "error");
    assert_eq!(body["error"]["type"], "preflight_timeout");
    assert_eq!(body["error"]["code"], 504);
    let id = body["id"].as_str().unwrap();
    let groups: Vec<usize> = id.split('-').map(|g| g.len()).collect();
    assert_eq!(groups, vec![8, 4, 4, 4, 12]);
    assert!(id.chars().all(|c| c == '-' || c.is_ascii_hexdigit()));
    assert_ne!(doc(&preflight_error_body(&r))["id"], body["id"]);
}

#[test]
fn failures_that_say_the_client_has_left() {
    for s in ["Connection RESET by peer", "broken pipe", "Client disconnected", "ABORTED"] {
        assert!(is_client_disconnect_error(s), "{}", s);
    }
    assert!(!is_client_disconnect_error("timeout"));
}

#[test]
fn what_a_stream_meets() {
    assert_eq!(decide(&PumpEvent::Data), PumpAction::Forward);
    assert_eq!(decide(&PumpEvent::Silent), PumpAction::KeepAlive);
    assert_eq!(decide(&PumpEvent::Ended), PumpAction::Finish);
    assert_eq!(
        decide(&PumpEvent::Failed("Broken pipe".to_string())),
        PumpAction::Fail { client_left: true }
    );
    assert_eq!(
        decide(&PumpEvent::Failed("x".to_string())),
        PumpAction::Fail { client_left: false }
    );
    assert!(timed_out(3_000_000_000, 3));
    assert!(!timed_out(2_999_999_999, 3));
}

fn feed(p: &mut StreamPump, store: &mut ReasoningStore, bytes: &[u8]) -> String {
    p.feed_at(bytes, &parse("{}"), store, true, RANDOM, 9, 1).unwrap_or_default()
}

const STREAM: &str = "data: {\"id\": \"c\", \"created\": 1, \"choices\": [{\"delta\": {\"content\": \"Grüße\"}}]}\r\n\r\ndata: {\"id\": \"c\", \"created\": 1, \"choices\": [{\"delta\": {\"content\": \" an 😀\"}}]}\n\ndata: [DONE]\n\n";

#[test]
fn data_may_be_cut_anywhere() {
    let bytes = STREAM.as_bytes();
    let mut store = ReasoningStore::new();
    let mut whole = StreamPump::new();
    let expected = feed(&mut whole, &mut store, bytes);
    assert!(expected.contains("Grüße"));
    assert!(expected.contains("\"output_tokens\":3"));
    for i in 0..=bytes.len() {
        let mut p = StreamPump::new();
        let mut out = feed(&mut p, &mut store, &bytes[..i]);
        out.push_str(&feed(&mut p, &mut store, &bytes[i..]));
        assert_eq!(out, expected, "cut at {}", i);
    }
    assert_eq!(whole.finish(&parse("{}"), &mut store, true), None);
}

#[test]
fn stream_without_end_marker_is_completed_once() {
    let mut store = ReasoningStore::new();
    let mut p = StreamPump::new();
    let cut = STREAM.find("data: [DONE]").unwrap();
    feed(&mut p, &mut store, STREAM[..cut].as_bytes());
    let out = p.finish(&parse("{}"), &mut store, true).unwrap();
    assert!(out.contains("event: response.output_text.done\n"));
    let last = out.rfind("event: ").unwrap();
    assert!(out[last..].starts_with("event: response.completed\n"));
    assert!(out[last..].contains("\"usage\":{\"input_tokens\":10,\"output_tokens\":3,\"total_tokens\":13}"));
    assert_eq!(p.finish(&parse("{}"), &mut store, true), None);
}

#[test]
fn stream_without_a_line_ends_in_silence() {
    let mut store = ReasoningStore::new();
    let mut p = StreamPump::new();
    assert_eq!(p.feed(b"data: {\"choices\"", &parse("{}"), &mut store, true), None);
    assert_eq!(p.finish(&parse("{}"), &mut store, true), None);
}

#[test]
fn stream_without_identifier_gets_a_random_one() {
    let mut store = ReasoningStore::new();
    let mut p = StreamPump::new();
    let out = p
        .feed(b"data: {\"choices\": []}\n", &parse("{}"), &mut store, false)
        .unwrap();
    assert!(out.contains("\"id\":\"resp_"));
    let mut q = StreamPump::new();
    let other = q
        .feed(b"data: {\"choices\": []}\n", &parse("{}"), &mut store, false)
        .unwrap();
    assert_ne!(out, other);
}

#[test]
fn chance_and_time_do_not_matter_where_the_first_chunk_is_named() {
    let stream = "data: {\"id\": \"c\", \"created\": 1, \"choices\": [{\"delta\": {\"content\": \"Hello\"}}]}\n\ndata: {\"choices\": [{\"delta\": {\"tool_calls\": [{\"index\": 0, \"id\": \"a\", \"function\": {\"name\": \"f\", \"arguments\": \"{}\"}}]}, \"finish_reason\": \"tool_calls\"}]}\n\n";
    let bytes = stream.as_bytes();
    let request = parse("{}");
    let run = |size: usize, random: &str, time: i64| {
        let mut store = ReasoningStore::new();
        let mut p = StreamPump::new();
        let mut out = String::new();
        for (i, piece) in bytes.chunks(size).enumerate() {
            let now = i as u128;
            let more = p.feed_at(piece, &request, &mut store, true, random, time, now);
            out.push_str(&more.unwrap_or_default());
        }
        out.push_str(&p.finish_at(&request, &mut store, true, 99).unwrap_or_default());
        out
    };
    let expected = run(bytes.len(), RANDOM, 9);
    assert!(expected.contains("event: response.completed\n"));
    for size in 1..40 {
        assert_eq!(run(size, "other", 1000), expected, "pieces of {}", size);
    }
}

#[test]
fn cut_inside_a_character_behind_a_line_joins_the_lines() {
    let bytes = "data: [DONE]\nü\n".as_bytes();
    let cut = "data: [DONE]\n".len() + 1;
    let mut store = ReasoningStore::new();
    let mut p = StreamPump::new();
    assert!(feed(&mut p, &mut store, bytes).contains("response.completed"));
    let mut q = StreamPump::new();
    assert_eq!(feed(&mut q, &mut store, &bytes[..cut]), "");
    assert_eq!(feed(&mut q, &mut store, &bytes[cut..]), "");
}

#[test]
fn first_bytes_of_a_stream() {
    let text_of = |bytes: &[u8]| match preflight_event(bytes) {
        PreflightEvent::Chunk(s) => s,
        _ => panic!("no data"),
    };
    assert_eq!(text_of(b""), "");
    assert_eq!(text_of("Grüße".as_bytes()), "Grüße");
    assert_eq!(text_of(b"{}\xc3"), "{}");
    assert_eq!(text_of(b"a\xffb"), "a\u{fffd}b");
    assert_eq!(detected(preflight_event(b" {}\xe4\xbd")).unwrap().0, "empty_response");
}

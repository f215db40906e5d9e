use chatgpt_oauth::credentials::{CheckedCredentials, CodexCredentials};
use chatgpt_oauth::error::{ClientError, NetworkError};
use chatgpt_oauth::exchange::{
    models_from_body, models_in, probe_request, usage_url_from_base, Endpoint, Exchange, Verdict,
};
use chatgpt_oauth::headers::{
    build_headers, content_type_error, http_error, parse_retry_after, unexpected_content_type,
};
use chatgpt_oauth::json::Value;
use chatgpt_oauth::options::{build_request_body, normalize_input, SendOptions};
use chatgpt_oauth::response::{extract_text, ResponseAssembler};
use chatgpt_oauth::retry::{
    backoff_delay, backoff_delay_at, backoff_delay_by, Retry, RetryDecision, BACKOFF_MAX_MS, DEFAULT_MAX_RETRIES,
};
use chatgpt_oauth::sse::{take_event, Arrival, SseDecoder, SseStep, MAX_SSE_BUFFER, MAX_SSE_DATA_LINES};
use chatgpt_oauth::time::Duration;
use chatgpt_oauth::usage::{Percent, RateLimit, RateWindow, Usage};
use reqwest::header::{HeaderMap, HeaderValue, CONTENT_TYPE, RETRY_AFTER};

fn parse(text: &str) -> Value {
    Value::parse(text).unwrap()
}

fn at<'a>(v: &'a Value, index: usize) -> &'a Value {
    &v.as_array().unwrap()[index]
}

fn is_bool(v: Option<&Value>, expected: bool) -> bool {
    matches!(v, Some(Value::Bool(b)) if *b == expected)
}

fn defaults() -> SendOptions {
    SendOptions::with_configured_model(None)
}

// ---------------------------------------------------------------------------
// Requests
// ---------------------------------------------------------------------------

#[test]
fn normalize_input_shape() {
    let v = normalize_input("안녕");
    let first = at(&v, 0);
    assert_eq!(first.get_str("role"), Some("user"));
    let part = at(first.get("content").unwrap(), 0);
    assert_eq!(part.get_str("type"), Some("input_text"));
    assert_eq!(part.get_str("text"), Some("안녕"));
}

#[test]
fn retry_after_is_capped() {
    let mut huge = HeaderMap::new();
    huge.insert(RETRY_AFTER, HeaderValue::from_static("999999"));
    assert_eq!(parse_retry_after(&huge), Some(Duration::from_secs(60)));
    let mut small = HeaderMap::new();
    small.insert(RETRY_AFTER, HeaderValue::from_static("5"));
    assert_eq!(parse_retry_after(&small), Some(Duration::from_secs(5)));
    assert_eq!(parse_retry_after(&HeaderMap::new()), None);
    let mut date = HeaderMap::new();
    date.insert(RETRY_AFTER, HeaderValue::from_static("Wed, 21 Oct 2015 07:28:00 GMT"));
    assert_eq!(parse_retry_after(&date), None);
}

#[test]
fn retry_after_takes_the_first_number_that_stands_alone() {
    let cases: [(&'static str, Option<u64>); 9] = [
        (" 7\t", Some(7)),
        ("+7", Some(7)),
        ("0", Some(0)),
        ("60", Some(60)),
        ("61", Some(60)),
        ("", None),
        ("-7", None),
        ("7.5", None),
        ("18446744073709551616", None),
    ];
    for (text, secs) in cases {
        let mut headers = HeaderMap::new();
        headers.insert(RETRY_AFTER, HeaderValue::from_static(text));
        headers.append(RETRY_AFTER, HeaderValue::from_static("30"));
        assert_eq!(parse_retry_after(&headers), secs.map(Duration::from_secs), "{text:?}");
    }
    let mut opaque = HeaderMap::new();
    opaque.insert(RETRY_AFTER, HeaderValue::from_bytes(&[b'7', 0xff]).unwrap());
    assert_eq!(parse_retry_after(&opaque), None);
}

#[test]
fn build_request_body_required_fields() {
    let opts = SendOptions {
        model: "gpt-5.3-codex".into(),
        instructions: "sys".into(),
        ..defaults()
    };
    let body = build_request_body(normalize_input("hi"), &opts);
    assert_eq!(body.get_str("model"), Some("gpt-5.3-codex"));
    assert_eq!(body.get_str("instructions"), Some("sys"));
    assert!(is_bool(body.get("stream"), true));
    assert!(is_bool(body.get("store"), false));
    assert!(body.get("input").is_some());
    for k in [
        "reasoning",
        "include",
        "prompt_cache_key",
        "tools",
        "tool_choice",
        "parallel_tool_calls",
        "text",
    ] {
        assert!(body.get(k).is_none(), "{k} 키가 없어야 함");
    }
}

#[test]
fn build_request_body_optional_control_fields() {
    let opts = SendOptions {
        tool_choice: Some(Value::string("required")),
        parallel_tool_calls: Some(false),
        text: Some(parse(r#"{"verbosity":"low"}"#)),
        ..defaults()
    };
    let body = build_request_body(normalize_input("hi"), &opts);
    assert_eq!(body.get_str("tool_choice"), Some("required"));
    assert!(is_bool(body.get("parallel_tool_calls"), false));
    assert_eq!(body.get("text").unwrap().get_str("verbosity"), Some("low"));
}

#[test]
fn build_request_body_adds_fields_when_set() {
    let opts = SendOptions {
        reasoning_effort: Some("high".into()),
        prompt_cache_key: Some("k1".into()),
        tools: vec![parse(r#"{"type":"web_search"}"#)],
        ..defaults()
    };
    let body = build_request_body(normalize_input("hi"), &opts);
    assert_eq!(body.get("reasoning").unwrap().get_str("effort"), Some("high"));
    assert_eq!(
        at(body.get("include").unwrap(), 0).as_str(),
        Some("reasoning.encrypted_content")
    );
    assert_eq!(body.get_str("prompt_cache_key"), Some("k1"));
    assert_eq!(at(body.get("tools").unwrap(), 0).get_str("type"), Some("web_search"));
}

#[test]
fn request_body_text_is_exact() {
    let opts = SendOptions {
        reasoning_effort: Some("low".into()),
        tools: vec![parse(r#"{"type":"web_search"}"#)],
        ..defaults()
    };
    assert_eq!(
        build_request_body(normalize_input("hi"), &opts).render(),
        concat_lines(&[
            r#"{"include":["reasoning.encrypted_content"],"#,
            r#""input":[{"content":[{"text":"hi","type":"input_text"}],"role":"user"}],"#,
            r#""instructions":"You are a helpful assistant.","model":"gpt-5.3-codex","#,
            r#""reasoning":{"effort":"low"},"store":false,"stream":true,"#,
            r#""tools":[{"type":"web_search"}]}"#,
        ])
    );
}

fn concat_lines(parts: &[&str]) -> String {
    parts.concat()
}

#[test]
fn local_options_do_not_reach_the_server() {
    let patient = SendOptions {
        max_retries: 9,
        idle_timeout: Duration::from_secs(1),
        ..defaults()
    };
    assert_eq!(
        build_request_body(normalize_input("hi"), &patient).render(),
        build_request_body(normalize_input("hi"), &defaults()).render()
    );
}

#[test]
fn default_options() {
    let opts = defaults();
    assert_eq!(opts.model, "gpt-5.3-codex");
    assert_eq!(opts.instructions, "You are a helpful assistant.");
    assert_eq!(opts.max_retries, 2);
    assert_eq!(opts.idle_timeout, Duration::from_secs(120));
    assert!(opts.tools.is_empty());
    assert_eq!(SendOptions::with_configured_model(Some("m1")).model, "m1");
    assert_eq!(SendOptions::with_configured_model(Some(" \t")).model, "gpt-5.3-codex");
    assert_eq!(SendOptions::with_configured_model(Some(" m1 ")).model, " m1 ");
}

// ---------------------------------------------------------------------------
// Headers
// ---------------------------------------------------------------------------

fn creds(token: &str, account: Option<&str>) -> CodexCredentials {
    CodexCredentials {
        access_token: token.into(),
        base_url: "https://chatgpt.com/backend-api/codex".into(),
        account_id: account.map(String::from),
    }
}

#[test]
fn headers_of_a_request() {
    let headers = build_headers(&creds("test-access", Some("acc")), true).unwrap();
    assert_eq!(headers.len(), 6);
    assert_eq!(headers.get("authorization").unwrap(), "Bearer test-access");
    assert_eq!(headers.get("content-type").unwrap(), "application/json");
    assert_eq!(headers.get("accept").unwrap(), "text/event-stream");
    assert_eq!(headers.get("user-agent").unwrap(), "codex_cli_rs/0.0.0 (chatgpt-oauth)");
    assert_eq!(headers.get("originator").unwrap(), "codex_cli_rs");
    assert_eq!(headers.get("ChatGPT-Account-ID").unwrap(), "acc");
    let headers = build_headers(&creds("test-access", None), false).unwrap();
    assert_eq!(headers.len(), 5);
    assert_eq!(headers.get("accept").unwrap(), "application/json");
}

#[test]
fn token_that_no_header_can_hold() {
    let e = build_headers(&creds("a\nb", None), true).unwrap_err();
    assert_eq!(e.message(), "failed to parse header value");
    assert!(!e.is_retryable());
    assert_eq!(build_headers(&creds("a\u{7f}", None), true).is_err(), true);
    assert_eq!(build_headers(&creds("a\tb", None), true).is_ok(), true);
    // Bytes beyond ASCII pass.
    let headers = build_headers(&creds("한", None), true).unwrap();
    assert_eq!(headers.get("authorization").unwrap().as_bytes(), "Bearer 한".as_bytes());
}

#[test]
fn account_that_no_header_can_hold_is_left_out() {
    let headers = build_headers(&creds("t", Some("a\r\nb")), true).unwrap();
    assert_eq!(headers.len(), 5);
    assert!(headers.get("chatgpt-account-id").is_none());
}

#[test]
fn failures_by_status() {
    let mut headers = HeaderMap::new();
    headers.insert(RETRY_AFTER, HeaderValue::from_static("3"));
    let limited = http_error(429, &headers, "slow down".into());
    assert_eq!(limited.retry_after(), Some(Duration::from_secs(3)));
    assert_eq!(limited.status(), Some(429));
    assert_eq!(limited.message(), "rate limited (HTTP 429)");
    assert!(limited.is_retryable() && limited.is_retryable_non_idempotent());
    let server = http_error(503, &headers, "down".into());
    assert_eq!(server.message(), "server error: HTTP 503: down");
    assert_eq!(server.retry_after(), None);
    assert!(server.is_retryable() && !server.is_retryable_non_idempotent());
    for status in [400, 401, 404, 499, 600, 302] {
        let http = http_error(status, &headers, "x".into());
        assert!(matches!(http, ClientError::Http { .. }), "{status}");
        assert_eq!(http.status(), Some(status));
        assert!(!http.is_retryable());
    }
    assert_eq!(http_error(404, &headers, "gone".into()).message(), "HTTP 404: gone");
    assert!(matches!(http_error(500, &headers, "".into()), ClientError::Server { .. }));
    assert!(matches!(http_error(599, &headers, "".into()), ClientError::Server { .. }));
}

#[test]
fn failures_of_the_transport() {
    let error = |timeout: bool, connect: bool, request: bool| {
        ClientError::Network(NetworkError { timeout, connect, request, message: "lost".into() })
    };
    assert_eq!(error(true, false, false).message(), "network error: lost");
    assert_eq!(error(true, false, false).status(), None);
    assert!(error(true, false, false).is_retryable());
    assert!(!error(true, false, false).is_retryable_non_idempotent());
    assert!(error(false, true, false).is_retryable());
    assert!(error(false, true, false).is_retryable_non_idempotent());
    assert!(error(false, false, true).is_retryable());
    assert!(!error(false, false, true).is_retryable_non_idempotent());
    assert!(!error(false, false, false).is_retryable());
    let other = ClientError::Other("no credentials".into());
    assert_eq!(other.message(), "no credentials");
    assert!(!other.is_retryable() && !other.is_retryable_non_idempotent());
    let protocol = ClientError::protocol("odd");
    assert_eq!(protocol.message(), "protocol error: odd");
    assert!(!protocol.is_retryable());
}

// ---------------------------------------------------------------------------
// Responses
// ---------------------------------------------------------------------------

#[test]
fn extract_text_joins_message_output_text() {
    let resp = parse(
        r#"{
            "output": [
                { "type": "reasoning", "content": [{"type": "output_text", "text": "무시됨"}] },
                { "type": "message", "role": "assistant",
                  "content": [
                      {"type": "output_text", "text": "안녕"},
                      {"type": "output_text", "text": "하세요"}
                  ]
                }
            ]
        }"#,
    );
    assert_eq!(extract_text(&resp), "안녕하세요");
}

#[test]
fn extract_text_empty_when_no_output() {
    assert_eq!(extract_text(&parse("{}")), "");
}

#[test]
fn extract_text_skips_what_is_no_text() {
    let resp = parse(
        r#"{"output":[
            {"type":"message"},
            {"type":"message","content":[
                {"type":"refusal","text":"no"},{"type":"output_text"},{"type":"output_text","text":7},
                {"type":"output_text","text":"a"}]},
            {"type":"message","content":[{"type":"output_text","text":"b"}]},
            17]}"#,
    );
    assert_eq!(extract_text(&resp), "ab");
    assert_eq!(extract_text(&parse(r#"{"output":"x"}"#)), "");
    assert_eq!(extract_text(&parse("[]")), "");
}

fn assemble(events: &[&str]) -> Result<Value, ClientError> {
    let mut assembler = ResponseAssembler::new();
    for event in events {
        assembler.push(&parse(event))?;
    }
    assembler.finish()
}

#[test]
fn text_is_put_together_from_deltas() {
    let r = assemble(&[
        r#"{"type":"response.created"}"#,
        r#"{"type":"response.output_text.delta","delta":"안"}"#,
        r#"{"type":"response.output_text.delta"}"#,
        r#"{"type":"response.output_text.delta","delta":"녕"}"#,
    ])
    .unwrap();
    assert_eq!(extract_text(&r), "안녕");
    assert_eq!(
        r.render(),
        r#"{"output":[{"content":[{"text":"안녕","type":"output_text"}],"role":"assistant","type":"message"}]}"#
    );
}

#[test]
fn empty_output_is_filled_and_the_rest_is_kept() {
    let r = assemble(&[
        r#"{"type":"response.output_text.delta","delta":"hi"}"#,
        r#"{"type":"response.completed","response":{"id":"r1","output":[],"usage":{"total_tokens":3}}}"#,
    ])
    .unwrap();
    assert_eq!(extract_text(&r), "hi");
    assert_eq!(r.get_str("id"), Some("r1"));
    assert_eq!(r.get("usage").unwrap().get("total_tokens").unwrap().as_u64(), Some(3));
}

#[test]
fn items_come_before_deltas() {
    let r = assemble(&[
        r#"{"type":"response.output_text.delta","delta":"x"}"#,
        r#"{"type":"response.output_item.done","item":{"type":"message","content":[{"type":"output_text","text":"y"}]}}"#,
        r#"{"type":"response.output_item.done"}"#,
    ])
    .unwrap();
    assert_eq!(r.get_array("output").unwrap().len(), 1);
    assert_eq!(extract_text(&r), "y");
}

#[test]
fn complete_output_is_kept_and_the_last_response_counts() {
    let r = assemble(&[
        r#"{"type":"response.output_text.delta","delta":"x"}"#,
        r#"{"type":"response.completed","response":{"output":[{"n":1}]}}"#,
        r#"{"type":"response.completed","response":{"output":[{"n":2}]}}"#,
        r#"{"type":"response.completed"}"#,
    ])
    .unwrap();
    assert_eq!(r.render(), r#"{"output":[{"n":2}]}"#);
    // A response without anything to fill in stays as it is.
    let r = assemble(&[r#"{"type":"response.completed","response":{"id":"r"}}"#]).unwrap();
    assert_eq!(r.render(), r#"{"id":"r"}"#);
}

#[test]
fn failures_of_a_response() {
    let cases: [(&[&str], &str); 11] = [
        (&[], "protocol error: Codex stream ended without response.completed or any deltas"),
        (
            &[r#"{"type":"response.failed","response":{"error":{"m":1}},"error":2}"#],
            r#"protocol error: Codex response failed: {"m":1}"#,
        ),
        (
            &[r#"{"type":"response.failed","error":"e"}"#],
            r#"protocol error: Codex response failed: "e""#,
        ),
        (&[r#"{"type":"response.failed"}"#], "protocol error: Codex response failed: null"),
        (
            &[r#"{"type":"response.incomplete","incomplete_details":{"reason":"r"}}"#],
            r#"protocol error: Codex response incomplete: {"reason":"r"}"#,
        ),
        (
            &[r#"{"type":"response.completed","response":[1]}"#],
            "protocol error: Codex response is not an object: [1]",
        ),
        (
            &[r#"{"type":"response.completed","response":{"status":"failed","error":{"c":1}}}"#],
            r#"protocol error: Codex response terminal status `failed`: {"c":1}"#,
        ),
        (
            &[r#"{"type":"response.completed","response":{"status":"cancelled","error":null}}"#],
            "protocol error: Codex response terminal status `cancelled`: null",
        ),
        (
            &[r#"{"type":"response.completed","response":{"status":"incomplete","incomplete_details":{"reason":"r"}}}"#],
            r#"protocol error: Codex response terminal status `incomplete`: {"reason":"r"}"#,
        ),
        (
            &[r#"{"type":"response.completed","response":{"status":"expired"}}"#],
            "protocol error: Codex response terminal status `expired`: null",
        ),
        (
            &[r#"{"type":"response.completed","response":{"status":"completed","error":"x"}}"#],
            r#"protocol error: Codex response carried an error: "x""#,
        ),
    ];
    for (events, message) in cases {
        assert_eq!(assemble(events).unwrap_err().message(), message);
    }
}

#[test]
fn error_of_the_stream_is_handed_on() {
    let mut assembler = ResponseAssembler::new();
    let delta = r#"{"type":"response.output_text.delta","delta":"hi"}"#;
    assert!(assembler.take(Ok(parse(delta))).is_ok());
    let e = assembler.take(Err(ClientError::Server { status: 502, body: "lost".into() }));
    assert_eq!(e.unwrap_err().message(), "server error: HTTP 502: lost");
    // What was gathered is still there.
    assert_eq!(extract_text(&assembler.finish().unwrap()), "hi");
    let failed = ResponseAssembler::new().take(Ok(parse(r#"{"type":"response.failed"}"#)));
    assert_eq!(
        failed.unwrap_err().message(),
        "protocol error: Codex response failed: null"
    );
}

#[test]
fn too_much_text_ends_the_stream() {
    let mut assembler = ResponseAssembler::new();
    let event = Value::object(
        chatgpt_oauth::json::Object::new()
            .with("type", Value::string("response.output_text.delta"))
            .with("delta", Value::string(&"x".repeat(32 * 1024 * 1024))),
    );
    assert!(assembler.push(&event).is_ok());
    assert!(assembler.push(&event).is_ok());
    let one_more = parse(r#"{"type":"response.output_text.delta","delta":"x"}"#);
    assert_eq!(
        assembler.push(&one_more).unwrap_err().message(),
        "protocol error: Codex response exceeded max accumulated text (64MB) — aborting"
    );
}

#[test]
fn too_many_items_end_the_stream() {
    let mut assembler = ResponseAssembler::new();
    let event = parse(r#"{"type":"response.output_item.done","item":1}"#);
    for _ in 0..100_000 {
        assert!(assembler.push(&event).is_ok());
    }
    assert_eq!(
        assembler.push(&event).unwrap_err().message(),
        "protocol error: Codex response exceeded max output items (100000) — aborting"
    );
    assert_eq!(assembler.finish().unwrap().get_array("output").unwrap().len(), 100_000);
}

// ---------------------------------------------------------------------------
// Streams
// ---------------------------------------------------------------------------

fn drive(decoder: &mut SseDecoder, arrivals: Vec<Arrival>) -> Vec<Result<Value, ClientError>> {
    let mut out = Vec::new();
    let mut arrivals = arrivals.into_iter();
    loop {
        match decoder.poll() {
            SseStep::Item(item) => out.push(item),
            SseStep::End => return out,
            SseStep::NeedInput => {
                let next = arrivals.next().unwrap_or(Arrival::End);
                if let Some(e) = decoder.arrive(next) {
                    out.push(Err(e));
                }
            }
        }
    }
}

fn run_sse(chunks: Vec<&[u8]>) -> Vec<Result<Value, ClientError>> {
    let mut decoder = SseDecoder::new(Duration::from_secs(5));
    drive(&mut decoder, chunks.into_iter().map(|c| Arrival::Chunk(c.to_vec())).collect())
}

#[test]
fn sse_single_event() {
    let events = run_sse(vec![b"data: {\"type\":\"x\",\"n\":1}\n\n"]);
    assert_eq!(events.len(), 1);
    let v = events[0].as_ref().unwrap();
    assert_eq!(v.get_str("type"), Some("x"));
    assert_eq!(v.get("n").unwrap().as_u64(), Some(1));
}

#[test]
fn sse_done_ends_stream() {
    let events = run_sse(vec![
        b"data: {\"type\":\"a\"}\n\ndata: [DONE]\n\ndata: {\"type\":\"b\"}\n\n",
    ]);
    assert_eq!(events.len(), 1);
    assert_eq!(events[0].as_ref().unwrap().get_str("type"), Some("a"));
}

#[test]
fn sse_multiline_data_joined() {
    let events = run_sse(vec![b"data: {\"type\":\ndata: \"x\"}\n\n"]);
    assert_eq!(events.len(), 1);
    assert_eq!(events[0].as_ref().unwrap().get_str("type"), Some("x"));
}

#[test]
fn sse_chunk_split_multibyte_safe() {
    let full = "data: {\"k\":\"한\"}\n\n".as_bytes().to_vec();
    let mid = 13;
    let events = run_sse(vec![&full[..mid], &full[mid..]]);
    assert_eq!(events.len(), 1);
    assert_eq!(events[0].as_ref().unwrap().get_str("k"), Some("한"));
}

#[test]
fn sse_malformed_json_surfaces_error() {
    let events = run_sse(vec![b"data: {not json}\n\n"]);
    assert_eq!(events.len(), 1);
    assert!(events[0].is_err());
}

#[test]
fn sse_empty_data_line_flood_is_capped() {
    let flood = "data:\n".repeat(MAX_SSE_DATA_LINES + 10);
    let events = run_sse(vec![flood.as_bytes()]);
    let last = events.last().expect("should yield at least the cap error");
    assert!(last.is_err(), "empty-data-line flood must surface an error");
    let msg = last.as_ref().unwrap_err().message();
    assert!(
        msg.contains("lines") || msg.contains("data cap"),
        "expected data-cap error, got: {msg}"
    );
    assert_eq!(
        msg,
        "protocol error: SSE event exceeded data cap (16MB / 65536 lines) without an event boundary — protocol fault"
    );
}

#[test]
fn last_line_without_newline_is_capped_too() {
    let refused =
        "protocol error: SSE event exceeded data cap (16MB / 65536 lines) without an event boundary — protocol fault";
    let flood = "data:\n".repeat(65_536) + "data: 1";
    let events = run_sse(vec![flood.as_bytes()]);
    assert_eq!(events.len(), 1);
    assert_eq!(events[0].as_ref().unwrap_err().message(), refused);
    // One line fewer is an event.
    let full = "data:\n".repeat(65_535) + "data: 1";
    let events = run_sse(vec![full.as_bytes()]);
    assert_eq!(events.len(), 1);
    assert_eq!(events[0].as_ref().unwrap().render(), "1");
    // The bytes are counted as well.
    let half = "data: ".to_string() + &" ".repeat(9 * 1024 * 1024);
    let events = run_sse(vec![half.as_bytes(), b"\n", half.as_bytes()]);
    assert_eq!(events.len(), 1);
    assert_eq!(events[0].as_ref().unwrap_err().message(), refused);
    // An aside at the end is no data.
    let aside = "data:\n".repeat(65_535) + "data: 1\n: bye";
    let events = run_sse(vec![aside.as_bytes()]);
    assert_eq!(events.len(), 1);
    assert_eq!(events[0].as_ref().unwrap().render(), "1");
}

#[test]
fn asides_and_carriage_returns_change_nothing() {
    let noisy = ": hi\r\nevent: x\ndata: {\"a\":\r\nid: 7\r\n:\ndata: 1}\r\nretry: 3\n\r\ndataset\ndata: [2]\n\n";
    let plain = "data: {\"a\":\ndata: 1}\n\ndata: [2]\n\n";
    let render = |text: &str| -> Vec<String> {
        run_sse(vec![text.as_bytes()]).iter().map(|e| e.as_ref().unwrap().render()).collect()
    };
    assert_eq!(render(noisy), ["{\"a\":1}", "[2]"]);
    assert_eq!(render(plain), render(noisy));
}

#[test]
fn sse_flush_on_eof_without_newline() {
    let events = run_sse(vec![b"data: {\"type\":\"last\"}"]);
    assert_eq!(events.len(), 1);
    assert_eq!(events[0].as_ref().unwrap().get_str("type"), Some("last"));
}

#[test]
fn every_chunking_gives_the_same_events() {
    let text = ": hello\r\nevent: x\r\ndata: {\"k\":\"한\"}\r\n\r\n\ndata:{\"n\":\ndata: 2}\n\nid: 3\n\ndata: [1]";
    let bytes = text.as_bytes();
    let whole: Vec<String> =
        run_sse(vec![bytes]).iter().map(|e| e.as_ref().unwrap().render()).collect();
    assert_eq!(whole, ["{\"k\":\"한\"}", "{\"n\":2}", "[1]"]);
    for size in 1..bytes.len() {
        let parts: Vec<&[u8]> = bytes.chunks(size).collect();
        let events: Vec<String> =
            run_sse(parts).iter().map(|e| e.as_ref().unwrap().render()).collect();
        assert_eq!(events, whole);
    }
}

#[test]
fn malformed_payload_is_withheld() {
    let e = run_sse(vec![b"data: {secret\n\n"]).pop().unwrap().unwrap_err();
    assert_eq!(
        e.message(),
        "protocol error: failed to parse SSE data payload as JSON: key must be a string at line 1 column 2 (7 bytes withheld)"
    );
}

#[test]
fn bytes_that_are_no_text() {
    let e = run_sse(vec![b"data: \xff\n\ndata: 1\n\n"]);
    assert_eq!(e.len(), 1);
    assert_eq!(
        e[0].as_ref().unwrap_err().message(),
        "protocol error: SSE line is not valid UTF-8: invalid utf-8 sequence of 1 bytes from index 6"
    );
    let e = run_sse(vec![b"data: \xff"]);
    assert_eq!(
        e[0].as_ref().unwrap_err().message(),
        "protocol error: trailing SSE line is not valid UTF-8: invalid utf-8 sequence of 1 bytes from index 6"
    );
}

#[test]
fn silence_and_failure_end_the_stream() {
    let mut decoder = SseDecoder::new(Duration::from_secs(5));
    let items = drive(&mut decoder, vec![Arrival::Chunk(b"data: 1\n\n".to_vec()), Arrival::Idle]);
    assert_eq!(items.len(), 2);
    assert_eq!(
        items[1].as_ref().unwrap_err().message(),
        "protocol error: Codex SSE idle timeout (5s) — backend stopped sending data"
    );
    assert!(matches!(decoder.poll(), SseStep::End));
    let mut decoder = SseDecoder::new(Duration::from_secs(5));
    let lost =
        NetworkError { timeout: false, connect: false, request: false, message: "reset".into() };
    let items = drive(&mut decoder, vec![Arrival::Failed(lost)]);
    assert_eq!(items[0].as_ref().unwrap_err().message(), "network error: reset");
    assert!(matches!(decoder.poll(), SseStep::End));
}

#[test]
fn too_long_a_line_ends_the_stream() {
    let mut decoder = SseDecoder::new(Duration::from_secs(5));
    let items = drive(
        &mut decoder,
        vec![Arrival::Chunk(vec![b'x'; MAX_SSE_BUFFER]), Arrival::Chunk(vec![b'x'; 1])],
    );
    assert_eq!(items.len(), 1);
    assert_eq!(
        items[0].as_ref().unwrap_err().message(),
        "protocol error: SSE buffer cap (16MB) exceeded — protocol fault"
    );
}

#[test]
fn events_of_data_lines() {
    let mut none: Vec<String> = Vec::new();
    assert!(take_event(&mut none).is_none());
    let mut blank = vec![" ".to_string(), "\u{3000}".to_string()];
    assert!(take_event(&mut blank).is_none());
    assert!(blank.is_empty());
    let mut done = vec![" [DONE] ".to_string()];
    assert!(matches!(take_event(&mut done), Some(Ok(None))));
    let mut event = vec!["[1,".to_string(), "2]".to_string()];
    assert_eq!(take_event(&mut event).unwrap().unwrap().unwrap().render(), "[1,2]");
    assert!(event.is_empty());
}

// ---------------------------------------------------------------------------
// Retries
// ---------------------------------------------------------------------------

#[test]
fn backoff_exponential_capped() {
    let in_range = |d: Duration, base_ms: u64| {
        let ms = d.as_millis() as u64;
        ms >= (base_ms as f64 * 0.9) as u64 && ms <= (base_ms as f64 * 1.1) as u64
    };
    assert!(in_range(backoff_delay(1), 200));
    assert!(in_range(backoff_delay(2), 400));
    assert!(in_range(backoff_delay(3), 800));
    assert!(backoff_delay(30).as_millis() as u64 <= (BACKOFF_MAX_MS as f64 * 1.1) as u64);
}

#[test]
fn backoff_is_exact_for_a_given_moment() {
    assert_eq!(backoff_delay_at(1, 0), Duration::from_millis(180));
    assert_eq!(backoff_delay_at(1, 500), Duration::from_millis(200));
    assert_eq!(backoff_delay_at(2, 123_000_500), Duration::from_millis(400));
    assert_eq!(backoff_delay_at(7, 500), Duration::from_millis(12_800));
    assert_eq!(backoff_delay_at(8, 500), Duration::from_millis(16_000));
    assert_eq!(backoff_delay_at(u32::MAX, 999), Duration::from_millis(17_596));
    assert_eq!(backoff_delay_at(0, 500), Duration::from_millis(200));
    // 200 * (0.9 + 0.2 * 0.625) falls short of 205 in doubles.
    assert_eq!(backoff_delay_at(1, 625), Duration::from_millis(204));
}

#[test]
fn backoff_is_what_doubles_give() {
    for attempt in 0..12u32 {
        let base = (200u64 << attempt.saturating_sub(1)).min(16_000);
        for nanos in 0..1000u32 {
            let mult = 0.9 + 0.2 * ((nanos % 1000) as f64 / 1000.0);
            let expected = Duration::from_millis((base as f64 * mult) as u64);
            assert_eq!(backoff_delay_at(attempt, nanos), expected, "{attempt} {nanos}");
        }
    }
}

#[test]
fn backoff_by_the_clock() {
    let clock = Duration::from_parts(1_780_034_186, 123_456_625);
    assert_eq!(backoff_delay_by(1, Some(clock)), Duration::from_millis(204));
    assert_eq!(backoff_delay_by(1, None), Duration::from_millis(180));
    assert_eq!(backoff_delay_by(3, None), Duration::from_millis(720));
    let mut retry = Retry::new(1, true);
    let e = ClientError::Server { status: 500, body: "".into() };
    match retry.on_error_at(&e, None) {
        RetryDecision::Wait(d) => assert_eq!(d, Duration::from_millis(180)),
        RetryDecision::GiveUp => panic!("the first failure is retried"),
    }
}

fn with_retry<T>(
    max_retries: u32,
    idempotent: bool,
    mut op: impl FnMut() -> Result<T, ClientError>,
) -> Result<T, ClientError> {
    let mut retry = Retry::new(max_retries, idempotent);
    loop {
        match op() {
            Ok(v) => return Ok(v),
            Err(e) => match retry.on_error(&e) {
                RetryDecision::GiveUp => return Err(e),
                RetryDecision::Wait(delay) => {
                    assert!(delay.as_millis() <= 17_600);
                    if let Some(asked) = e.retry_after() {
                        assert_eq!(delay, asked);
                    }
                }
            },
        }
    }
}

#[test]
fn with_retry_retries_then_succeeds() {
    let mut calls = 0u32;
    let r: Result<u8, ClientError> = with_retry(5, true, || {
        calls += 1;
        if calls < 3 {
            Err(ClientError::RateLimited { retry_after: Some(Duration::from_millis(1)) })
        } else {
            Ok(42u8)
        }
    });
    assert_eq!(r.unwrap(), 42);
    assert_eq!(calls, 3);
}

#[test]
fn with_retry_non_retryable_immediate() {
    let mut calls = 0u32;
    let r: Result<u8, ClientError> = with_retry(5, true, || {
        calls += 1;
        Err(ClientError::Http { status: 400, body: "bad".into() })
    });
    assert!(r.is_err());
    assert_eq!(calls, 1);
}

#[test]
fn with_retry_non_idempotent_skips_ambiguous_errors() {
    let mut calls = 0u32;
    let r: Result<u8, ClientError> = with_retry(5, false, || {
        calls += 1;
        Err(ClientError::Server { status: 503, body: "x".into() })
    });
    assert!(r.is_err());
    assert_eq!(calls, 1, "5xx must NOT be retried for non-idempotent ops");

    let mut calls2 = 0u32;
    let r2: Result<u8, ClientError> = with_retry(3, false, || {
        calls2 += 1;
        if calls2 < 2 {
            Err(ClientError::RateLimited { retry_after: Some(Duration::from_millis(1)) })
        } else {
            Ok(7u8)
        }
    });
    assert_eq!(r2.unwrap(), 7);
    assert_eq!(calls2, 2, "429 should still be retried for non-idempotent ops");
}

#[test]
fn with_retry_returns_last_error_when_exhausted() {
    let mut calls = 0u32;
    let r: Result<u8, ClientError> = with_retry(2, true, || {
        calls += 1;
        Err(ClientError::Server { status: 503, body: "x".into() })
    });
    assert!(matches!(r, Err(ClientError::Server { status: 503, .. })));
    assert_eq!(calls, 3);
}

#[test]
fn waits_of_a_given_moment() {
    let mut retry = Retry::new(2, true);
    let e = ClientError::Server { status: 500, body: "".into() };
    match retry.on_error_at(&e, Some(Duration::from_parts(7, 500))) {
        RetryDecision::Wait(d) => assert_eq!(d, Duration::from_millis(200)),
        RetryDecision::GiveUp => panic!("the first failure is retried"),
    }
    match retry.on_error_at(&e, Some(Duration::from_parts(7, 500))) {
        RetryDecision::Wait(d) => assert_eq!(d, Duration::from_millis(400)),
        RetryDecision::GiveUp => panic!("the second failure is retried"),
    }
    assert!(matches!(retry.on_error_at(&e, Some(Duration::from_parts(7, 500))), RetryDecision::GiveUp));
}

// ---------------------------------------------------------------------------
// Usage
// ---------------------------------------------------------------------------

fn percent(p: f64) -> Percent {
    Percent { bits: p.to_bits() }
}

fn window_of(v: &serde_json::Value) -> RateWindow {
    RateWindow {
        used_percent: percent(v["used_percent"].as_f64().unwrap()),
        limit_window_seconds: v["limit_window_seconds"].as_u64().unwrap(),
        reset_after_seconds: v["reset_after_seconds"].as_u64().unwrap(),
        reset_at: v["reset_at"].as_i64().unwrap(),
    }
}

fn usage_of(text: &str) -> Usage {
    let v: serde_json::Value = serde_json::from_str(text).unwrap();
    Usage {
        plan_type: v["plan_type"].as_str().map(String::from),
        rate_limit: v.get("rate_limit").map(|limit| RateLimit {
            allowed: limit["allowed"].as_bool().unwrap(),
            limit_reached: limit["limit_reached"].as_bool().unwrap(),
            primary_window: limit.get("primary_window").map(window_of),
            secondary_window: limit.get("secondary_window").map(window_of),
        }),
    }
}

#[test]
fn usage_json_parsing() {
    let u = usage_of(
        r#"{
            "plan_type": "pro",
            "rate_limit": {
                "allowed": true,
                "limit_reached": false,
                "primary_window": {
                    "used_percent": 12.5,
                    "limit_window_seconds": 18000,
                    "reset_after_seconds": 1700,
                    "reset_at": 1780034186
                },
                "secondary_window": {
                    "used_percent": 40.0,
                    "limit_window_seconds": 604800,
                    "reset_after_seconds": 357129,
                    "reset_at": 1780389606
                }
            },
            "credits": { "balance": "0" }
        }"#,
    );
    assert_eq!(u.plan_type.as_deref(), Some("pro"));
    let rl = u.rate_limit.as_ref().unwrap();
    assert!(rl.allowed && !rl.limit_reached);
    assert_eq!(rl.primary_window.as_ref().unwrap().used_percent, percent(12.5));
    assert_eq!(rl.secondary_window.as_ref().unwrap().reset_at, 1780389606);
    assert_eq!(u.max_used_percent(), Some(percent(40.0)));
}

#[test]
fn usage_parses_without_rate_limit() {
    let u = usage_of(r#"{"plan_type":"plus"}"#);
    assert_eq!(u.plan_type.as_deref(), Some("plus"));
    assert!(u.rate_limit.is_none());
    assert_eq!(u.max_used_percent(), None);
}

#[test]
fn fetch_usage_parsing() {
    let usage = usage_of(
        r#"{
            "plan_type": "pro",
            "rate_limit": {
                "allowed": true,
                "limit_reached": false,
                "primary_window": {"used_percent": 25.0, "limit_window_seconds": 18000, "reset_after_seconds": 1000, "reset_at": 123},
                "secondary_window": {"used_percent": 5.0, "limit_window_seconds": 604800, "reset_after_seconds": 2000, "reset_at": 456}
            }
        }"#,
    );
    assert_eq!(usage.plan_type.as_deref(), Some("pro"));
    assert_eq!(usage.max_used_percent(), Some(percent(25.0)));
}

#[test]
fn larger_percentage() {
    let values: [f64; 12] = [
        f64::NEG_INFINITY,
        -40.0,
        -1e-300,
        5e-324,
        1e-310,
        2.2250738585072014e-308,
        0.5,
        12.5,
        40.0,
        99.99,
        1e300,
        f64::INFINITY,
    ];
    for a in values {
        for b in values {
            assert_eq!(percent(a).max(percent(b)), percent(a.max(b)), "{a} {b}");
        }
        assert_eq!(percent(a).max(percent(f64::NAN)), percent(a));
        assert_eq!(percent(-f64::NAN).max(percent(a)), percent(a));
    }
}

#[test]
fn one_window_is_enough() {
    let window = |p: f64| RateWindow {
        used_percent: percent(p),
        limit_window_seconds: 1,
        reset_after_seconds: 2,
        reset_at: -3,
    };
    let usage = |primary: Option<RateWindow>, secondary: Option<RateWindow>| Usage {
        plan_type: None,
        rate_limit: Some(RateLimit {
            allowed: true,
            limit_reached: false,
            primary_window: primary,
            secondary_window: secondary,
        }),
    };
    assert_eq!(usage(Some(window(3.0)), None).max_used_percent(), Some(percent(3.0)));
    assert_eq!(usage(None, Some(window(4.0))).max_used_percent(), Some(percent(4.0)));
    assert_eq!(usage(None, None).max_used_percent(), None);
}

#[test]
fn usage_url_derivation() {
    assert_eq!(
        usage_url_from_base("https://chatgpt.com/backend-api/codex"),
        "https://chatgpt.com/backend-api/wham/usage"
    );
}

#[test]
fn usage_url_of_other_bases() {
    assert_eq!(usage_url_from_base("http://h/codex"), "http://h/wham/usage");
    assert_eq!(
        usage_url_from_base("http://h/backend-api/codex/v2"),
        "http://h/backend-api/wham/usage/v2"
    );
    assert_eq!(usage_url_from_base("http://h/api"), "http://h/api");
}

// ---------------------------------------------------------------------------
// Exchanges
// ---------------------------------------------------------------------------

fn fake_creds(server_uri: &str) -> CheckedCredentials {
    let creds = CodexCredentials {
        access_token: "test-access".into(),
        base_url: format!("{server_uri}/backend-api/codex"),
        account_id: None,
    };
    creds.checked(Ok(())).unwrap()
}

struct Reply {
    status: u16,
    content_type: Option<&'static str>,
    body: &'static str,
}

fn headers_of(reply: &Reply) -> HeaderMap {
    let mut headers = HeaderMap::new();
    if let Some(content_type) = reply.content_type {
        headers.insert(CONTENT_TYPE, HeaderValue::from_static(content_type));
    }
    headers
}

fn list_models(replies: Vec<Reply>) -> (Result<Vec<Value>, ClientError>, usize) {
    let creds = fake_creds("http://127.0.0.1:1");
    let mut replies = replies.into_iter();
    let mut sent = 0;
    let r = with_retry(DEFAULT_MAX_RETRIES, true, || {
        let mut exchange = Exchange::new(Endpoint::Models, false);
        let request = exchange.request(&creds)?;
        assert_eq!(
            request.url,
            "http://127.0.0.1:1/backend-api/codex/models?client_version=1.0.0"
        );
        assert_eq!(request.timeout, Some(Duration::from_secs(15)));
        sent += 1;
        let reply = replies.next().unwrap();
        match exchange.on_status(reply.status) {
            Verdict::Accept => models_from_body(reply.body.as_bytes()),
            Verdict::Reject => {
                Err(http_error(reply.status, &headers_of(&reply), reply.body.into()))
            }
            Verdict::Refresh => panic!("credentials are not renewed here"),
        }
    });
    (r, sent)
}

fn json_reply(status: u16, body: &'static str) -> Reply {
    Reply { status, content_type: Some("application/json"), body }
}

#[test]
fn list_models_success_parsing() {
    let (models, _) =
        list_models(vec![json_reply(200, r#"{"models":[{"slug":"gpt-5.3-codex"}]}"#)]);
    let models = models.unwrap();
    assert_eq!(models.len(), 1);
    assert_eq!(models[0].get_str("slug"), Some("gpt-5.3-codex"));
}

#[test]
fn list_models_429_retry_then_success() {
    let (models, sent) =
        list_models(vec![json_reply(429, ""), json_reply(200, r#"{"models":[{"slug":"x"}]}"#)]);
    assert_eq!(models.unwrap().len(), 1);
    assert_eq!(sent, 2);
}

#[test]
fn list_models_500_retry_then_success() {
    let (models, sent) =
        list_models(vec![json_reply(500, ""), json_reply(200, r#"{"models":[]}"#)]);
    assert!(models.is_ok());
    assert_eq!(sent, 2);
}

#[test]
fn list_models_400_no_retry() {
    let (models, sent) = list_models(vec![json_reply(400, "bad request")]);
    let err = models.unwrap_err();
    assert_eq!(sent, 1);
    assert_eq!(err.status(), Some(400));
    assert!(!err.is_retryable());
}

#[test]
fn models_of_odd_bodies() {
    assert_eq!(models_from_body(b"{}").unwrap().len(), 0);
    assert_eq!(models_from_body(b"{\"models\":3}").unwrap().len(), 0);
    assert_eq!(models_from_body(b"[]").unwrap().len(), 0);
    for body in [&b"nope"[..], &b"\"\xff\""[..], &b""[..]] {
        assert_eq!(
            models_from_body(body).unwrap_err().message(),
            "failed to parse /models response JSON"
        );
    }
    assert_eq!(models_in(Ok(parse(r#"{"models":[1,2]}"#))).unwrap().len(), 2);
    assert!(models_in(Err("odd".into())).is_err());
}

#[test]
fn credentials_are_renewed_once() {
    let mut exchange = Exchange::new(Endpoint::Responses, true);
    assert_eq!(exchange.on_status(401), Verdict::Refresh);
    assert_eq!(exchange.on_status(401), Verdict::Reject);
    let mut exchange = Exchange::new(Endpoint::Usage, true);
    assert_eq!(exchange.on_status(401), Verdict::Refresh);
    assert_eq!(exchange.on_status(200), Verdict::Accept);
    let mut exchange = Exchange::new(Endpoint::Usage, false);
    assert_eq!(exchange.on_status(401), Verdict::Reject);
    for (status, verdict) in [
        (199, Verdict::Reject),
        (200, Verdict::Accept),
        (299, Verdict::Accept),
        (300, Verdict::Reject),
        (403, Verdict::Reject),
    ] {
        assert_eq!(Exchange::new(Endpoint::Models, true).on_status(status), verdict);
    }
}

#[test]
fn requests_go_where_their_token_belongs() {
    let exchange = Exchange::new(Endpoint::Responses, true);
    let request = exchange.request(&fake_creds("http://a")).unwrap();
    assert_eq!(request.url, "http://a/backend-api/codex/responses");
    assert_eq!(request.timeout, None);
    assert_eq!(request.headers.get("accept").unwrap(), "text/event-stream");
    assert_eq!(request.headers.get("authorization").unwrap(), "Bearer test-access");
    let request =
        Exchange::new(Endpoint::Usage, true).request(&fake_creds("http://a")).unwrap();
    assert_eq!(request.url, "http://a/backend-api/wham/usage");
    assert_eq!(request.headers.get("accept").unwrap(), "application/json");
    let odd = creds("\n", None).checked(Ok(())).unwrap();
    assert!(exchange.request(&odd).is_err());
    assert!(probe_request(&odd).is_err());
    let probe = probe_request(&fake_creds("http://a")).unwrap();
    assert_eq!(probe.url, "http://a/backend-api/codex/responses");
    assert_eq!(probe.timeout, Some(Duration::from_secs(30)));
    assert_eq!(probe.headers.get("accept").unwrap(), "text/event-stream");
}

#[test]
fn credentials_that_fail_the_check_are_not_sent() {
    let refused = creds("t", Some("a")).checked(Err(ClientError::Other("untrusted".into())));
    assert_eq!(refused.unwrap_err().message(), "untrusted");
    let passed = creds("t", Some("a")).checked(Ok(())).unwrap();
    assert_eq!(passed.credentials().access_token, "t");
    assert_eq!(passed.credentials().base_url, "https://chatgpt.com/backend-api/codex");
    assert_eq!(passed.credentials().account_id.as_deref(), Some("a"));
}

fn send_message(reply: Reply) -> Result<Value, ClientError> {
    let opts = defaults();
    let mut exchange = Exchange::new(Endpoint::Responses, false);
    let request = exchange.request(&fake_creds("http://127.0.0.1:1"))?;
    assert_eq!(request.url, "http://127.0.0.1:1/backend-api/codex/responses");
    let headers = headers_of(&reply);
    assert_eq!(exchange.on_status(reply.status), Verdict::Accept);
    if let Some(content_type) = unexpected_content_type(&headers) {
        return Err(content_type_error(&content_type, reply.body));
    }
    let mut decoder = SseDecoder::new(opts.idle_timeout);
    let items = drive(&mut decoder, vec![Arrival::Chunk(reply.body.as_bytes().to_vec())]);
    let mut assembler = ResponseAssembler::new();
    for item in items {
        assembler.take(item)?;
    }
    assembler.finish()
}

const HELLO: &str = "data: {\"type\":\"response.output_text.delta\",\"delta\":\"Hello\"}\n\n\
data: {\"type\":\"response.completed\",\"response\":{\"output\":[{\"type\":\"message\",\"role\":\"assistant\",\"content\":[{\"type\":\"output_text\",\"text\":\"Hello\"}]}]}}\n\n\
data: [DONE]\n\n";

#[test]
fn send_message_sse_parsing() {
    let resp = send_message(Reply {
        status: 200,
        content_type: Some("text/event-stream"),
        body: HELLO,
    })
    .unwrap();
    assert_eq!(extract_text(&resp), "Hello");
}

#[test]
fn send_message_wrong_content_type_errors() {
    let err = send_message(json_reply(200, r#"{"error":"gateway exploded"}"#)).unwrap_err();
    let msg = err.message();
    assert!(msg.contains("text/event-stream"), "expected content-type error, got: {msg}");
    assert_eq!(
        msg,
        "protocol error: expected text/event-stream from /responses but got content-type `application/json`: {\"error\":\"gateway exploded\"}"
    );
}

#[test]
fn send_message_accepts_missing_content_type() {
    let resp = send_message(Reply { status: 200, content_type: None, body: HELLO })
        .expect("missing content-type with valid SSE body must be accepted");
    assert_eq!(extract_text(&resp), "Hello");
}

#[test]
fn content_types_that_pass() {
    for content_type in ["text/event-stream; charset=utf-8", "Text/Event-Stream"] {
        let reply = Reply { status: 200, content_type: Some(content_type), body: HELLO };
        assert!(unexpected_content_type(&headers_of(&reply)).is_none());
    }
    let reply = Reply { status: 200, content_type: Some("TEXT/HTML"), body: "" };
    assert_eq!(unexpected_content_type(&headers_of(&reply)).as_deref(), Some("text/html"));
    let mut opaque = HeaderMap::new();
    opaque.insert(CONTENT_TYPE, HeaderValue::from_bytes(b"text/\xff").unwrap());
    assert!(unexpected_content_type(&opaque).is_none());
}

#[test]
fn send_message_completed_but_failed_status_errors() {
    let err = send_message(Reply {
        status: 200,
        content_type: Some("text/event-stream"),
        body: "data: {\"type\":\"response.completed\",\"response\":{\"status\":\"failed\",\"error\":{\"message\":\"model exploded\"},\"output\":[]}}\n\n\
data: [DONE]\n\n",
    })
    .unwrap_err();
    let msg = err.message();
    assert!(
        msg.contains("terminal status") && msg.contains("failed"),
        "expected terminal-status error, got: {msg}"
    );
}

#[test]
fn send_message_response_incomplete_errors() {
    let err = send_message(Reply {
        status: 200,
        content_type: Some("text/event-stream"),
        body: "data: {\"type\":\"response.incomplete\",\"response\":{\"incomplete_details\":{\"reason\":\"max_output_tokens\"}}}\n\n\
data: [DONE]\n\n",
    })
    .unwrap_err();
    assert!(err.message().contains("incomplete"));
}

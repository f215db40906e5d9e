use chatgpt_oauth::event::{
    GeneratedImage, Response, StreamEvent, TokenUsage, ToolCall, WebSearch,
};
use chatgpt_oauth::input::InputItem;
use chatgpt_oauth::json::Value;
use chatgpt_oauth::response::ResponseAssembler;

fn parse(text: &str) -> Value {
    Value::parse(text).unwrap()
}

#[test]
fn classifies_text_delta() {
    let ev = parse(r#"{"type":"response.output_text.delta","delta":"안"}"#);
    match StreamEvent::from_event(&ev) {
        StreamEvent::TextDelta(t) => assert_eq!(t, "안"),
        other => panic!("expected TextDelta, got {other:?}"),
    }
}

#[test]
fn classifies_function_call_tool_call() {
    let ev = parse(
        r#"{
            "type":"response.output_item.done",
            "item":{"type":"function_call","name":"get_weather",
                    "call_id":"call_123","arguments":"{\"city\":\"서울\"}","status":"completed"}
        }"#,
    );
    match StreamEvent::from_event(&ev) {
        StreamEvent::ToolCall(tc) => {
            assert_eq!(tc.name, "get_weather");
            assert_eq!(tc.call_id, "call_123");
            assert_eq!(tc.arguments_json().unwrap().get_str("city"), Some("서울"));
        }
        other => panic!("expected ToolCall, got {other:?}"),
    }
}

#[test]
fn completed_with_failed_status_maps_to_failed() {
    let ev = parse(r#"{"type":"response.completed","response":{"status":"failed","error":{"message":"boom"}}}"#);
    assert!(matches!(StreamEvent::from_event(&ev), StreamEvent::Failed(_)));
    let inc = parse(r#"{"type":"response.completed","response":{"status":"incomplete","incomplete_details":{"reason":"max_output_tokens"}}}"#);
    assert!(matches!(StreamEvent::from_event(&inc), StreamEvent::Incomplete(_)));
}

#[test]
fn malformed_function_call_is_not_toolcall() {
    let ev = parse(r#"{"type":"response.output_item.done","item":{"type":"function_call","arguments":"{}"}}"#);
    assert!(matches!(StreamEvent::from_event(&ev), StreamEvent::Other { .. }));
    assert!(ToolCall::from_item(&parse(r#"{"type":"function_call","name":"x"}"#)).is_none());
}

#[test]
fn message_item_done_is_other_not_toolcall() {
    let ev = parse(r#"{"type":"response.output_item.done","item":{"type":"message","content":[]}}"#);
    assert!(matches!(StreamEvent::from_event(&ev), StreamEvent::Other { .. }));
}

#[test]
fn classifies_web_search_call() {
    let ev = parse(
        r#"{"type":"response.output_item.done","item":{
            "type":"web_search_call","id":"ws_1","status":"completed",
            "action":{"type":"search","query":"latest news","queries":["a","b"]}}}"#,
    );
    match StreamEvent::from_event(&ev) {
        StreamEvent::WebSearchCall(w) => {
            assert_eq!(w.id, "ws_1");
            assert_eq!(w.query.as_deref(), Some("latest news"));
            assert_eq!(w.queries, vec!["a".to_string(), "b".to_string()]);
        }
        other => panic!("expected WebSearchCall, got {other:?}"),
    }
}

#[test]
fn classifies_image_generated() {
    let ev = parse(
        r#"{"type":"response.output_item.done","item":{
            "type":"image_generation_call","id":"ig_1","status":"completed",
            "result":"aGk=","output_format":"png","size":"1254x1254","quality":"low",
            "revised_prompt":"a cat icon"}}"#,
    );
    match StreamEvent::from_event(&ev) {
        StreamEvent::ImageGenerated(img) => {
            assert_eq!(img.id, "ig_1");
            assert_eq!(img.output_format.as_deref(), Some("png"));
            assert_eq!(img.revised_prompt.as_deref(), Some("a cat icon"));
            assert_eq!(img.result_b64.as_deref(), Some("aGk="));
        }
        other => panic!("expected ImageGenerated, got {other:?}"),
    }
}

#[test]
fn classifies_completed_and_terminals() {
    let c = parse(r#"{"type":"response.completed","response":{"status":"completed","usage":{"total_tokens":33}}}"#);
    match StreamEvent::from_event(&c) {
        StreamEvent::Completed(r) => {
            assert_eq!(r.get("usage").unwrap().get("total_tokens").unwrap().as_u64(), Some(33));
            assert_eq!(TokenUsage::from_response(&r).unwrap().total, 33);
        }
        other => panic!("expected Completed, got {other:?}"),
    }
    let f = parse(r#"{"type":"response.failed","response":{"error":{"message":"boom"}}}"#);
    assert!(matches!(StreamEvent::from_event(&f), StreamEvent::Failed(_)));
    let i = parse(r#"{"type":"response.incomplete","response":{"incomplete_details":{"reason":"max_output_tokens"}}}"#);
    assert!(matches!(StreamEvent::from_event(&i), StreamEvent::Incomplete(_)));
}

#[test]
fn response_typed_accessors() {
    let resp = Response::new(parse(
        r#"{
            "status":"completed",
            "output":[
                {"type":"message","role":"assistant","content":[{"type":"output_text","text":"안녕"}]},
                {"type":"function_call","name":"get_weather","call_id":"c1","arguments":"{\"city\":\"서울\"}"}
            ],
            "usage":{"input_tokens":10,"output_tokens":5,"total_tokens":15,
                     "input_tokens_details":{"cached_tokens":2},
                     "output_tokens_details":{"reasoning_tokens":3}}
        }"#,
    ));
    assert_eq!(resp.text(), "안녕");
    let calls = resp.tool_calls();
    assert_eq!(calls.len(), 1);
    assert_eq!(calls[0].name, "get_weather");
    assert_eq!(calls[0].call_id, "c1");
    let u = resp.usage().unwrap();
    assert_eq!((u.input, u.output, u.total, u.cached, u.reasoning), (10, 5, 15, 2, 3));
    let echo = calls[0].to_input_item();
    assert_eq!(echo.get_str("type"), Some("function_call"));
    assert_eq!(echo.get_str("call_id"), Some("c1"));
}

#[test]
fn unknown_and_builtin_events_are_other_forward_compat() {
    for kind in [
        "response.web_search_call.searching",
        "response.image_generation_call.partial_image",
        "response.function_call_arguments.delta",
        "response.some_future_event_42",
    ] {
        let ev = parse(&format!("{{\"type\":\"{kind}\",\"x\":1}}"));
        match StreamEvent::from_event(&ev) {
            StreamEvent::Other { kind: k, raw } => {
                assert_eq!(k, kind);
                assert_eq!(raw.get("x").unwrap().as_u64(), Some(1));
            }
            other => panic!("expected Other for {kind}, got {other:?}"),
        }
    }
}

#[test]
fn event_without_a_type() {
    match StreamEvent::from_event(&parse(r#"{"x":1}"#)) {
        StreamEvent::Other { kind, raw } => {
            assert_eq!(kind, "");
            assert_eq!(raw.render(), r#"{"x":1}"#);
        }
        other => panic!("expected Other, got {other:?}"),
    }
}

#[test]
fn payloads_of_failures() {
    let cases = [
        (r#"{"type":"response.failed","response":{"error":1},"error":2}"#, "1"),
        (r#"{"type":"response.failed","response":{},"error":2}"#, "2"),
        (r#"{"type":"response.failed","response":{"error":null},"error":2}"#, "null"),
        (r#"{"type":"response.failed"}"#, "null"),
        (r#"{"type":"response.completed","response":{"status":"cancelled","error":3}}"#, "3"),
        (r#"{"type":"response.completed","response":{"status":"expired"}}"#, "null"),
    ];
    for (event, payload) in cases {
        match StreamEvent::from_event(&parse(event)) {
            StreamEvent::Failed(error) => assert_eq!(error.render(), payload),
            other => panic!("expected Failed, got {other:?}"),
        }
    }
    match StreamEvent::from_event(&parse(r#"{"type":"response.incomplete","incomplete_details":4}"#)) {
        StreamEvent::Incomplete(details) => assert_eq!(details.render(), "4"),
        other => panic!("expected Incomplete, got {other:?}"),
    }
    match StreamEvent::from_event(&parse(r#"{"type":"response.completed"}"#)) {
        StreamEvent::Completed(response) => assert!(response.is_null()),
        other => panic!("expected Completed, got {other:?}"),
    }
}

#[test]
fn echo_reads_back_as_the_same_call() {
    let call = ToolCall {
        call_id: "c1".into(),
        name: "f".into(),
        arguments: "{\"a\":[1.5,-2]}".into(),
    };
    let echo = call.to_input_item();
    assert_eq!(
        echo.render(),
        r#"{"arguments":"{\"a\":[1.5,-2]}","call_id":"c1","name":"f","type":"function_call"}"#
    );
    let back = ToolCall::from_item(&echo).unwrap();
    assert_eq!(back.call_id, "c1");
    assert_eq!(back.name, "f");
    assert_eq!(back.arguments, call.arguments);
    assert_eq!(back.arguments_json().unwrap().render(), r#"{"a":[1.5,-2]}"#);
    let odd = ToolCall { call_id: "c".into(), name: "f".into(), arguments: "{".into() };
    assert!(odd.arguments_json().is_none());
}

#[test]
fn items_of_other_kinds() {
    let message = parse(r#"{"type":"message","id":"m"}"#);
    assert!(ToolCall::from_item(&message).is_none());
    assert!(WebSearch::from_item(&message).is_none());
    assert!(GeneratedImage::from_item(&message).is_none());
    let search = WebSearch::from_item(&parse(
        r#"{"type":"web_search_call","action":{"queries":["a",1,"b"]}}"#,
    ))
    .unwrap();
    assert_eq!(search.id, "");
    assert_eq!(search.query, None);
    assert_eq!(search.queries, ["a", "b"]);
    let bare = WebSearch::from_item(&parse(r#"{"type":"web_search_call","status":"done"}"#)).unwrap();
    assert_eq!(bare.status, "done");
    assert!(bare.queries.is_empty());
    let image = GeneratedImage::from_item(&parse(r#"{"type":"image_generation_call"}"#)).unwrap();
    assert_eq!(image.result_b64, None);
    assert_eq!(image.size, None);
}

#[test]
fn items_of_a_response() {
    let raw = r#"{"output":[{"type":"web_search_call","id":"w"},{"type":"image_generation_call","id":"i"},{"type":"function_call","call_id":"c","name":"n"}]}"#;
    let resp = Response::new(parse(raw));
    assert_eq!(resp.web_searches().len(), 1);
    assert_eq!(resp.web_searches()[0].id, "w");
    assert_eq!(resp.images().len(), 1);
    assert_eq!(resp.images()[0].id, "i");
    assert_eq!(resp.tool_calls()[0].arguments, "");
    assert!(resp.usage().is_none());
    assert_eq!(resp.text(), "");
    assert!(resp.raw().get("output").is_some());
    assert!(resp.into_raw().is_object());
    assert!(Response::new(Value::null()).tool_calls().is_empty());
}

#[test]
fn counts_that_are_missing_are_zero() {
    let u = TokenUsage::from_response(&parse(
        r#"{"usage":{"input_tokens":-1,"output_tokens":1.5,"total_tokens":18446744073709551615,"input_tokens_details":7}}"#,
    ))
    .unwrap();
    assert_eq!((u.input, u.output, u.total, u.cached, u.reasoning), (0, 0, u64::MAX, 0, 0));
    assert_eq!(TokenUsage::default(), TokenUsage::from_response(&parse(r#"{"usage":null}"#)).unwrap());
    assert!(TokenUsage::from_response(&parse("{}")).is_none());
}

#[test]
fn stream_and_response_show_the_same_items() {
    let events = [
        r#"{"type":"response.output_text.delta","delta":"a"}"#,
        r#"{"type":"response.output_item.done","item":{"type":"web_search_call","id":"w1"}}"#,
        r#"{"type":"response.output_item.done","item":{"type":"function_call","call_id":"c1","name":"f"}}"#,
        r#"{"type":"response.output_item.done","item":{"type":"function_call","call_id":"","name":"g"}}"#,
        r#"{"type":"response.output_item.done","item":{"type":"image_generation_call","id":"i1"}}"#,
        r#"{"type":"response.output_item.done","item":{"type":"function_call","call_id":"c2","name":"h"}}"#,
        r#"{"type":"response.completed","response":{"output":[],"usage":{"total_tokens":9}}}"#,
    ];
    let mut assembler = ResponseAssembler::new();
    let mut calls = Vec::new();
    let mut searches = Vec::new();
    let mut images = Vec::new();
    for event in events {
        let event = parse(event);
        assembler.push(&event).unwrap();
        match StreamEvent::from_event(&event) {
            StreamEvent::ToolCall(call) => calls.push(call.call_id),
            StreamEvent::WebSearchCall(search) => searches.push(search.id),
            StreamEvent::ImageGenerated(image) => images.push(image.id),
            _ => {}
        }
    }
    let response = Response::new(assembler.finish().unwrap());
    assert_eq!(calls, ["c1", "c2"]);
    assert_eq!(response.tool_calls().iter().map(|c| c.call_id.clone()).collect::<Vec<_>>(), calls);
    assert_eq!(response.web_searches().iter().map(|s| s.id.clone()).collect::<Vec<_>>(), searches);
    assert_eq!(response.images().iter().map(|i| i.id.clone()).collect::<Vec<_>>(), images);
    assert_eq!(response.usage().unwrap().total, 9);
    assert_eq!(response.raw().get_array("output").unwrap().len(), 5);
}

#[test]
fn result_goes_by_the_id_of_its_call() {
    let call = ToolCall { call_id: "c7".into(), name: "f".into(), arguments: "{}".into() };
    let output = InputItem::function_output(&call.call_id, "done");
    assert_eq!(output.get_str("call_id"), call.to_input_item().get_str("call_id"));
    assert_eq!(output.get_str("output"), Some("done"));
}

//! What holds of every stream, on concrete streams.

use ccr::converter::request::convert_responses_to_chat_request;
use ccr::converter::stream::completion::{generate_completed_events_at, inject_usage_if_needed};
use ccr::converter::stream::conversion::{convert_chat_stream_line_at, convert_chunk_at};
use ccr::converter::stream::{StreamState, THINK_CLOSE_TAG, THINK_OPEN_TAG};
use ccr::converter::ReasoningStore;
use ccr::json::Json;
use ccr::types::{ChatStreamChunk, Delta, StreamChoice, ToolCallDelta};
use serde_json::Value;

const RANDOM: &str = "0123456789abcdef0123456789abcdef";

fn parse(s: &str) -> Json {
    match Json::parse(s.as_bytes()) {
        Ok(v) => v,
        Err(e) => panic!("{}", e),
    }
}

fn doc(s: &str) -> Value {
    serde_json::from_str(s).unwrap()
}

struct Client {
    state: StreamState,
    store: ReasoningStore,
    request: Json,
    events: Vec<(String, Value)>,
}

impl Client {
    fn new(request: &str) -> Client {
        Client {
            state: StreamState::new(),
            store: ReasoningStore::new(),
            request: parse(request),
            events: vec![],
        }
    }

    fn take(&mut self, texts: Vec<String>) -> Vec<String> {
        let mut names = vec![];
        for t in texts {
            let rest = t.strip_prefix("event: ").unwrap();
            let (name, data) = rest.split_once("\ndata: ").unwrap();
            let payload = data.strip_suffix("\n\n").unwrap();
            names.push(name.to_string());
            self.events.push((name.to_string(), doc(payload)));
        }
        names
    }

    fn line(&mut self, line: &str) -> Vec<String> {
        let out = convert_chat_stream_line_at(
            line,
            &mut self.state,
            &self.request,
            &mut self.store,
            false,
            RANDOM,
            1700,
            5,
        );
        self.take(out)
    }

    fn chunk(&mut self, delta: &str, finish: &str) -> Vec<String> {
        self.line(&format!(
            r#"data: {{"id": "c", "created": 7, "choices": [{{"delta": {}, "finish_reason": {}}}]}}"#,
            delta, finish
        ))
    }

    fn content(&mut self, s: &str) -> Vec<String> {
        let quoted = serde_json::to_string(s).unwrap();
        self.chunk(&format!(r#"{{"content": {}}}"#, quoted), "null")
    }

    fn numbers(&self) -> Vec<i64> {
        self.events.iter().map(|e| e.1["sequence_number"].as_i64().unwrap()).collect()
    }

    fn gathered(&self, name: &str, member: &str) -> String {
        self.events
            .iter()
            .filter(|e| e.0 == name)
            .map(|e| e.1[member].as_str().unwrap())
            .collect()
    }

    fn last(&self, name: &str) -> &Value {
        &self.events.iter().rev().find(|e| e.0 == name).unwrap().1
    }
}

#[test]
fn numbers_and_types_run_on() {
    let mut c = Client::new("{}");
    c.chunk(r#"{"reasoning_content": "hm"}"#, "null");
    c.content("Hello");
    c.content(" you");
    c.chunk(
        r#"{"tool_calls": [{"index": 0, "id": "a", "function": {"name": "f", "arguments": "{}"}}]}"#,
        "\"tool_calls\"",
    );
    c.line("data: [DONE]");
    let expected: Vec<i64> = (1..=c.events.len() as i64).collect();
    assert_eq!(c.numbers(), expected);
    for (name, payload) in &c.events {
        assert_eq!(payload["type"], name.as_str());
    }
    let indices: Vec<i64> = c
        .events
        .iter()
        .filter(|e| e.0 == "response.output_item.added")
        .map(|e| e.1["output_index"].as_i64().unwrap())
        .collect();
    assert_eq!(indices, vec![0, 1, 2]);
    assert_eq!(c.events.last().unwrap().0, "response.completed");
    assert_eq!(
        c.events.iter().filter(|e| e.0 == "response.completed").count(),
        1
    );
}

#[test]
fn pieces_make_up_the_whole() {
    let mut c = Client::new("{}");
    for s in ["Hel", "lo, ", "world"] {
        c.content(s);
    }
    c.chunk("{}", "\"stop\"");
    let text = c.gathered("response.output_text.delta", "delta");
    assert_eq!(text, "Hello, world");
    assert_eq!(c.last("response.output_text.done")["text"], text.as_str());
    let mut c = Client::new("{}");
    c.chunk(r#"{"reasoning_content": "one "}"#, "null");
    c.chunk(r#"{"reasoning_content": "two"}"#, "null");
    c.chunk("{}", "\"stop\"");
    assert_eq!(
        c.last("response.reasoning_summary_text.done")["text"],
        "one two"
    );
}

#[test]
fn thinking_section_comes_out_the_same_for_every_cut() {
    let s = format!(" \n{}why</thin not{}because", THINK_OPEN_TAG, THINK_CLOSE_TAG);
    for i in 0..=s.len() {
        let mut c = Client::new("{}");
        c.content(&s[..i]);
        c.content(&s[i..]);
        c.chunk("{}", "\"stop\"");
        assert_eq!(
            c.gathered("response.reasoning_summary_text.delta", "text"),
            "why</thin not"
        );
        assert_eq!(c.gathered("response.output_text.delta", "delta"), "because");
    }
    let mut c = Client::new("{}");
    for x in s.chars() {
        c.content(&x.to_string());
    }
    c.chunk("{}", "\"stop\"");
    assert_eq!(c.gathered("response.output_text.delta", "delta"), "because");
    assert_eq!(
        c.gathered("response.reasoning_summary_text.delta", "text"),
        "why</thin not"
    );
}

#[test]
fn text_without_a_section_comes_out_whole() {
    for s in ["  <think", "a <thinking>b</thinking>", "long enough to wait", "<thinking", "é"] {
        for i in 0..=s.len() {
            if !s.is_char_boundary(i) {
                continue;
            }
            let mut c = Client::new("{}");
            c.content(&s[..i]);
            c.content(&s[i..]);
            c.chunk("{}", "\"stop\"");
            assert_eq!(c.gathered("response.output_text.delta", "delta"), s);
            assert_eq!(c.gathered("response.reasoning_summary_text.delta", "text"), "");
        }
    }
}

#[test]
fn unclosed_section_is_reasoning() {
    let mut c = Client::new("{}");
    c.content("<thinking>all of it</thi");
    c.chunk("{}", "\"stop\"");
    assert_eq!(
        c.gathered("response.reasoning_summary_text.delta", "text"),
        "all of it</thi"
    );
}

#[test]
fn first_chunk_announces_the_response() {
    let mut c = Client::new("{}");
    assert_eq!(
        c.line(r#"data: {"choices": []}"#),
        vec!["response.created", "response.in_progress"]
    );
    assert_eq!(
        c.events[0].1,
        doc(r#"{"type": "response.created", "sequence_number": 1, "response": {
            "id": "resp_0123456789abcdef0123456789abcdef", "object": "response",
            "created_at": 1700, "status": "in_progress", "background": false, "error": null,
            "instructions": ""}}"#)
    );
    assert!(c.line(r#"data: {"choices": []}"#).is_empty());
    assert!(c.line(r#"data: {"choices": 3}"#).is_empty());
    assert!(c.line(r#"{"choices": []}"#).is_empty());
}

#[test]
fn end_marker_before_the_first_chunk() {
    let mut c = Client::new("{}");
    assert_eq!(c.line("data:[DONE]  "), vec!["response.completed"]);
    assert_eq!(
        c.events[0].1,
        doc(r#"{"type": "response.completed", "sequence_number": 1, "response": {
            "id": "", "object": "response", "created_at": 0, "status": "completed",
            "background": false, "error": null,
            "usage": {"input_tokens": 0, "output_tokens": 0, "total_tokens": 0}}}"#)
    );
}

#[test]
fn completed_response_repeats_the_request() {
    let mut c = Client::new(
        r#"{"instructions": "i", "model": "m", "max_output_tokens": 9,
            "parallel_tool_calls": false, "previous_response_id": "p", "temperature": 0.1,
            "tool_choice": "none", "tools": [], "top_p": 1, "reasoning": {"effort": "low"},
            "metadata": {}, "stream": true}"#,
    );
    c.line(
        r#"data: {"id": "c", "created": 7, "choices": [{"delta": {"content": "Hi"}}],
            "usage": {"prompt_tokens": 10, "completion_tokens": 2, "total_tokens": 99,
            "prompt_tokens_details": {"cached_tokens": 4},
            "completion_tokens_details": {"reasoning_tokens": 1}}}"#
            .replace('\n', " ")
            .as_str(),
    );
    c.line("data: [DONE]");
    assert_eq!(
        c.last("response.completed")["response"],
        doc(r#"{
            "id": "c", "object": "response", "created_at": 7, "status": "completed",
            "background": false, "error": null, "instructions": "i", "model": "m",
            "max_output_tokens": 9, "parallel_tool_calls": false, "previous_response_id": "p",
            "temperature": 0.1, "tool_choice": "none", "tools": [], "top_p": 1,
            "reasoning": {"effort": "low"}, "metadata": {},
            "output": [{"id": "msg_c_0", "type": "message", "status": "completed",
                "role": "assistant", "content": [{"type": "output_text", "annotations": [],
                "logprobs": [], "text": "Hi"}]}],
            "usage": {"input_tokens": 6, "output_tokens": 2, "total_tokens": 12,
                "input_tokens_details": {"cached_tokens": 4},
                "output_tokens_details": {"reasoning_tokens": 1},
                "cache_read_input_tokens": 4}
        }"#)
    );
}

#[test]
fn images_of_a_message() {
    let mut c = Client::new("{}");
    c.content(
        "See ![a](https://x/a.png) and data:image/png;base64,AA== and ![b](data:image/png;base64,AA==) \
         ![c](ftp://no) ![d] ![e](https://x/a.png) ![f](http://y)",
    );
    c.chunk("{}", "\"stop\"");
    let item = c
        .events
        .iter()
        .rev()
        .find(|e| e.0 == "response.output_item.done")
        .unwrap();
    let urls: Vec<&str> = item.1["item"]["content"]
        .as_array()
        .unwrap()
        .iter()
        .skip(1)
        .map(|p| p["image_url"]["url"].as_str().unwrap())
        .collect();
    assert_eq!(
        urls,
        vec!["data:image/png;base64,AA==", "https://x/a.png", "http://y"]
    );
    assert_eq!(item.1["item"]["content"][1]["type"], "image_url");
}

#[test]
fn calls_come_out_in_the_order_of_their_indices() {
    let mut c = Client::new("{}");
    let names = c.chunk(
        r#"{"tool_calls": [
            {"index": 2, "id": "c2", "function": {"name": "two"}},
            {"index": 0, "id": "c0", "function": {"name": "zero", "arguments": "{\"a\":"}},
            {"index": 1, "function": {"arguments": "x"}},
            {"index": 0, "function": {"arguments": "1}"}}
        ]}"#
            .replace('\n', " ")
            .as_str(),
        "null",
    );
    assert_eq!(
        names[2..],
        [
            "response.output_item.added",
            "response.output_item.added",
            "response.function_call_arguments.delta",
            "response.output_item.added",
            "response.function_call_arguments.delta",
            "response.function_call_arguments.delta",
        ]
    );
    c.chunk("{}", "\"tool_calls\"");
    let done: Vec<(String, String)> = c
        .events
        .iter()
        .filter(|e| e.0 == "response.function_call_arguments.done")
        .map(|e| {
            (
                e.1["item_id"].as_str().unwrap().to_string(),
                e.1["arguments"].as_str().unwrap().to_string(),
            )
        })
        .collect();
    assert_eq!(
        done,
        vec![
            ("fc_c0".to_string(), "{\"a\":1}".to_string()),
            ("fc_".to_string(), "x".to_string()),
            ("fc_c2".to_string(), "".to_string()),
        ]
    );
}

#[test]
fn reasoning_comes_back_with_the_next_request() {
    let mut c = Client::new("{}");
    c.chunk(r#"{"reasoning_content": "look it up"}"#, "null");
    c.chunk(
        r#"{"tool_calls": [{"index": 0, "id": "call_9", "function": {"name": "f", "arguments": "{}"}}]}"#,
        "\"tool_calls\"",
    );
    let body = r#"{"input": [
        {"type": "function_call", "call_id": "call_9", "name": "f", "arguments": "{}"},
        {"type": "function_call_output", "call_id": "call_9", "output": "42"}]}"#;
    let chat = |store: &mut ReasoningStore| {
        match convert_responses_to_chat_request(body.as_bytes(), "m", false, store) {
            Ok(r) => serde_json::from_slice::<Value>(&r.body).unwrap(),
            Err(e) => panic!("{}", e.message),
        }
    };
    let first = chat(&mut c.store);
    assert_eq!(first["messages"][0]["reasoning_content"], "look it up");
    assert_eq!(first["messages"][1]["role"], "tool");
    let second = chat(&mut c.store);
    assert!(second["messages"][0].get("reasoning_content").is_none());
}

#[test]
fn estimates_take_the_place_of_missing_counts() {
    let mut c = Client::new("{}");
    c.content("Hello");
    c.content(" wonderful world!");
    let out = generate_completed_events_at(&mut c.state, &c.request, &mut c.store, true, 5);
    c.take(out);
    assert_eq!(
        c.last("response.completed")["response"]["usage"],
        doc(r#"{"input_tokens": 10, "output_tokens": 5, "total_tokens": 15}"#)
    );
    let mut c = Client::new("{}");
    c.line(
        r#"data: {"id": "c", "created": 7, "usage": {"prompt_tokens": 30, "completion_tokens": 2}}"#,
    );
    let out = generate_completed_events_at(&mut c.state, &c.request, &mut c.store, true, 5);
    c.take(out);
    assert_eq!(
        c.last("response.completed")["response"]["usage"],
        doc(r#"{"input_tokens": 30, "output_tokens": 2, "total_tokens": 32}"#)
    );
    let mut c = Client::new("{}");
    c.line(r#"data: {"id": "c", "created": 7, "usage": {"prompt_tokens": 30}}"#);
    let out = generate_completed_events_at(&mut c.state, &c.request, &mut c.store, true, 5);
    c.take(out);
    assert_eq!(
        c.last("response.completed")["response"]["usage"],
        doc(r#"{"input_tokens": 30, "output_tokens": 1, "total_tokens": 31}"#)
    );
}

#[test]
fn state_machine_helpers() {
    assert!(StreamState::is_strict_prefix(THINK_OPEN_TAG, "<thin"));
    assert!(StreamState::is_strict_prefix(THINK_OPEN_TAG, ""));
    assert!(StreamState::is_strict_prefix(THINK_OPEN_TAG, "something longer"));
    assert!(!StreamState::is_strict_prefix(THINK_OPEN_TAG, "<thix"));
    assert_eq!(StreamState::suffix_that_could_be_prefix("ab</th", THINK_CLOSE_TAG), 4);
    assert_eq!(StreamState::suffix_that_could_be_prefix("ab", THINK_CLOSE_TAG), 0);
    assert_eq!(StreamState::suffix_that_could_be_prefix("é<", THINK_CLOSE_TAG), 1);
    let mut st = StreamState::new();
    assert_eq!(st.feed_think_tag(" <thi"), (vec![], vec![]));
    assert_eq!(st.flush_think_buf(), (" <thi".to_string(), false));
    assert!(!st.should_synthesize_message_from_reasoning());
}

#[test]
fn events_stand_alone_on_the_wire() {
    let mut c = Client::new(r#"{"instructions": "one\ntwo\r\nthree"}"#);
    let mut texts = convert_chat_stream_line_at(
        r#"data: {"id": "c", "created": 7, "choices": [{"delta": {"content": "a\nb\r\nc\rd"}}]}"#,
        &mut c.state,
        &c.request,
        &mut c.store,
        false,
        RANDOM,
        1700,
        5,
    );
    texts.extend(generate_completed_events_at(
        &mut c.state,
        &c.request,
        &mut c.store,
        false,
        5,
    ));
    assert_eq!(texts.len(), 9);
    for t in &texts {
        let lines: Vec<&str> = t.lines().collect();
        assert_eq!(lines.len(), 3);
        assert!(lines[0].starts_with("event: response."));
        assert!(lines[1].starts_with("data: {") && lines[1].ends_with('}'));
        assert!(!lines[1].contains('\r'));
        assert_eq!(lines[2], "");
    }
    c.take(texts);
    assert_eq!(c.gathered("response.output_text.delta", "delta"), "a\nb\r\nc\rd");
}

#[test]
fn pieces_of_arguments_make_up_the_arguments() {
    let mut c = Client::new("{}");
    let calls = [
        r#"{"tool_calls": [{"index": 1, "id": "b", "function": {"name": "g", "arguments": "[1"}}]}"#,
        r#"{"tool_calls": [{"index": 0, "function": {"arguments": "{\"x\""}}]}"#,
        r#"{"tool_calls": [{"index": 1, "function": {"arguments": ",2]"}},
            {"index": 0, "id": "a", "function": {"name": "f", "arguments": ":3}"}}]}"#,
    ];
    for call in calls {
        c.chunk(call, "null");
    }
    c.chunk("{}", "\"tool_calls\"");
    c.chunk(r#"{"tool_calls": [{"index": 1, "function": {"arguments": " "}}]}"#, "\"stop\"");
    c.chunk(
        r#"{"tool_calls": [{"index": 2, "id": "c", "function": {"name": "h", "arguments": "0"}}]}"#,
        "\"stop\"",
    );
    c.line("data: [DONE]");
    let mut wholes = vec![];
    for (i, (name, payload)) in c.events.iter().enumerate() {
        if name == "response.function_call_arguments.done" {
            let pieces: String = c.events[..i]
                .iter()
                .filter(|e| {
                    e.0 == "response.function_call_arguments.delta"
                        && e.1["output_index"] == payload["output_index"]
                })
                .map(|e| e.1["delta"].as_str().unwrap())
                .collect();
            assert_eq!(payload["arguments"], pieces);
            wholes.push(pieces);
        }
    }
    assert_eq!(wholes[..2], ["{\"x\":3}", "[1,2]"]);
    assert_eq!(wholes.last().unwrap(), "0");
}

#[test]
fn chunks_are_converted_as_lines_are() {
    let chunk = ChatStreamChunk {
        id: Some("c".to_string()),
        created: None,
        choices: Some(vec![StreamChoice {
            delta: Some(Delta {
                reasoning_content: Some("why".to_string()),
                content: None,
                tool_calls: Some(vec![ToolCallDelta {
                    index: 0,
                    id: Some("a".to_string()),
                    name: Some("f".to_string()),
                    arguments: Some("{}".to_string()),
                }]),
            }),
            finish_reason: Some("tool_calls".to_string()),
        }]),
        usage: None,
    };
    let mut c = Client::new("{}");
    let out = convert_chunk_at(&chunk, &mut c.state, &mut c.store, RANDOM, 1700, 5);
    let mut d = Client::new("{}");
    let line = r#"data: {"id": "c", "choices": [{"delta": {"reasoning_content": "why",
        "tool_calls": [{"index": 0, "id": "a", "function": {"name": "f", "arguments": "{}"}}]},
        "finish_reason": "tool_calls"}]}"#;
    let expected = convert_chat_stream_line_at(
        line,
        &mut d.state,
        &d.request,
        &mut d.store,
        false,
        RANDOM,
        1700,
        5,
    );
    assert_eq!(out, expected);
    c.take(out);
    assert_eq!(c.events[0].1["response"]["created_at"], 1700);
    assert_eq!(c.store.take_at("a", 6).unwrap(), "why");
}

#[test]
fn estimates_leave_reported_counts_alone() {
    let st = StreamState::new();
    let inject = |s: &str| doc(&inject_usage_if_needed(parse(s), &st).print());
    assert_eq!(
        inject(r#"{"id": "r"}"#),
        doc(r#"{"id": "r", "usage": {"input_tokens": 10, "output_tokens": 1, "total_tokens": 11}}"#)
    );
    let reported = r#"{"id": "r", "usage": {"output_tokens": 5}}"#;
    assert_eq!(inject(reported), doc(reported));
    for s in [
        r#"{"usage": {"output_tokens": 0}}"#,
        r#"{"usage": {"output_tokens": -3}}"#,
        r#"{"usage": {"output_tokens": "5"}}"#,
        r#"{"usage": null}"#,
    ] {
        assert_eq!(inject(s)["usage"]["output_tokens"], 1);
    }
}

//! Conversion of whole replies.

use ccr::converter::response::{
    convert_chat_response_to_responses, parse_chat_response, ChatError,
};
use ccr::json::Json;
use serde_json::Value;

fn parse(s: &str) -> Json {
    match Json::parse(s.as_bytes()) {
        Ok(v) => v,
        Err(e) => panic!("{}", e),
    }
}

fn convert(body: &str, request: &str, model: Option<&str>) -> Value {
    match convert_chat_response_to_responses(body.as_bytes(), &parse(request), model) {
        Ok(r) => serde_json::from_str(&r.to_json().print()).unwrap(),
        Err(e) => panic!("{:?}", e),
    }
}

fn doc(s: &str) -> Value {
    serde_json::from_str(s).unwrap()
}

#[test]
fn a_whole_reply() {
    let body = r#"{
        "id": "c1", "created": 17, "model": "deepseek-chat",
        "choices": [{"message": {
            "role": "assistant", "content": "Hello",
            "tool_calls": [
                {"id": "call_1", "function": {"name": "f", "arguments": "{\"a\":1}"}},
                {"function": {"name": "g"}},
                {"id": "call_2", "function": {}}
            ]
        }}],
        "usage": {
            "prompt_tokens": 10, "completion_tokens": 4, "total_tokens": 14,
            "prompt_tokens_details": {"cached_tokens": 3},
            "completion_tokens_details": {"reasoning_tokens": 2}
        }
    }"#;
    let request = r#"{
        "instructions": "be brief", "temperature": 1, "top_p": 0.5, "max_output_tokens": 100,
        "parallel_tool_calls": true, "tool_choice": "auto", "tools": [{"type": "function"}],
        "reasoning": {"effort": "high"}, "metadata": {"k": "v"}, "previous_response_id": "p"
    }"#;
    assert_eq!(
        convert(body, request, Some("m")),
        doc(r#"{
            "id": "resp_c1", "object": "response", "created_at": 17, "status": "completed",
            "model": "m", "instructions": "be brief", "previous_response_id": "p",
            "temperature": 1.0, "top_p": 0.5, "max_output_tokens": 100,
            "parallel_tool_calls": true, "tool_choice": "auto", "tools": [{"type": "function"}],
            "reasoning": {"effort": "high"}, "metadata": {"k": "v"},
            "output": [
                {"id": "msg_c1_0", "type": "message", "status": "completed", "role": "assistant",
                 "content": [{"type": "output_text", "text": "Hello",
                              "annotations": [], "logprobs": []}]},
                {"id": "fc_call_1", "type": "function_call", "status": "completed",
                 "arguments": "{\"a\":1}", "call_id": "call_1", "name": "f"},
                {"id": "fc_call_2", "type": "function_call", "status": "completed",
                 "arguments": "{}", "call_id": "call_2", "name": ""}
            ],
            "usage": {
                "input_tokens": 7, "output_tokens": 4, "total_tokens": 14,
                "cache_read_input_tokens": 3,
                "input_tokens_details": {"cached_tokens": 3},
                "output_tokens_details": {"reasoning_tokens": 2}
            }
        }"#)
    );
}

#[test]
fn temperature_becomes_a_floating_point_number() {
    let r = convert(r#"{"id": "x", "created": 1}"#, r#"{"temperature": 1}"#, None);
    assert_eq!(r["temperature"].to_string(), "1.0");
    let r = convert(r#"{"id": "x", "created": 1}"#, r#"{"temperature": "1"}"#, None);
    assert!(r.get("temperature").is_none());
}

#[test]
fn reply_without_choices_has_no_output() {
    let r = convert(r#"{"id": "x", "created": 1, "model": "up"}"#, "{}", None);
    assert_eq!(
        r,
        doc(r#"{"id": "resp_x", "object": "response", "created_at": 1, "status": "completed",
                "model": "up"}"#)
    );
}

#[test]
fn missing_id_and_time_are_made_up() {
    let r = convert("{}", "{}", None);
    let id = r["id"].as_str().unwrap();
    assert!(id.starts_with("resp_resp_"));
    let random = &id["resp_resp_".len()..];
    assert_eq!(random.len(), 32);
    assert!(random.chars().all(|c| c.is_ascii_digit() || ('a'..='f').contains(&c)));
    assert!(r["created_at"].as_i64().unwrap() > 1_600_000_000);
    let other = convert("{}", "{}", None);
    assert_ne!(r["id"], other["id"]);
}

#[test]
fn fenced_reasoning_is_taken_out() {
    for (content, expected) in [
        ("```reasoning\\nstep\\n```", "step"),
        ("```thinking\\nstep one\\n```", "step one"),
        ("  ```reasoningstep```  ", "step"),
        ("```thinkingx", "x"),
    ] {
        let body = format!(
            r#"{{"id": "x", "created": 1, "choices": [{{"message": {{"content": "{}"}}}}]}}"#,
            content
        );
        let r = convert(&body, "{}", None);
        assert_eq!(r["output"][0]["type"], "reasoning");
        assert_eq!(r["output"][0]["id"], "rs_x_0");
        assert_eq!(r["output"][0]["summary"][0]["text"], expected);
        assert_eq!(r["output"][1]["type"], "message");
    }
    let body = r#"{"id": "x", "created": 1, "choices": [{"message": {"content": "```reasoning\n```"}}]}"#;
    assert_eq!(convert(body, "{}", None)["output"][0]["type"], "message");
}

#[test]
fn text_parts_are_joined_and_choices_concatenated() {
    let body = r#"{"id": "x", "created": 1, "choices": [
        {"message": {"content": [{"type": "text", "text": "a"}, {"type": "image_url"},
                                 {"type": "text", "text": "b"}]}},
        {"message": {"content": ""}},
        {"message": null},
        {"message": {"content": "c"}}
    ]}"#;
    let r = convert(body, "{}", None);
    assert_eq!(r["output"][0]["content"][0]["text"], "a\nbc");
}

#[test]
fn tools_and_reasoning_of_another_shape() {
    let r = convert(
        r#"{"id": "x", "created": 1}"#,
        r#"{"tools": "none", "reasoning": "high"}"#,
        None,
    );
    assert_eq!(r["tools"], doc("[]"));
    assert_eq!(r["reasoning"], doc("{}"));
    let r = convert(
        r#"{"id": "x", "created": 1}"#,
        r#"{"reasoning": {"effort": 3, "summary": "auto"}}"#,
        None,
    );
    assert_eq!(r["reasoning"], doc("{}"));
}

#[test]
fn cached_tokens_without_prompt_tokens() {
    let body = r#"{"id": "x", "created": 1, "usage": {
        "completion_tokens": 5, "prompt_tokens_details": {"cached_tokens": 3}}}"#;
    let u = &convert(body, "{}", None)["usage"];
    assert_eq!(u["input_tokens"], 0);
    assert_eq!(u["total_tokens"], 8);
    assert_eq!(u["cache_read_input_tokens"], 3);
    let body = r#"{"id": "x", "created": 1, "usage": {
        "prompt_tokens": 5, "prompt_tokens_details": {"cached_tokens": 0},
        "completion_tokens_details": {"reasoning_tokens": 0}}}"#;
    let u = &convert(body, "{}", None)["usage"];
    assert_eq!(u["input_tokens"], 5);
    assert_eq!(u["cache_read_input_tokens"], 0);
    assert!(u.get("input_tokens_details").is_none());
    assert!(u.get("output_tokens_details").is_none());
}

#[test]
fn bodies_that_hold_no_chat_completion() {
    let complaint = |s: &str| match parse_chat_response(s.as_bytes()) {
        Ok(_) => panic!("accepted"),
        Err(e) => e,
    };
    assert_eq!(complaint("[]"), ChatError::OtherShape);
    assert_eq!(complaint(r#"{"id": 3}"#), ChatError::OtherShape);
    assert_eq!(complaint(r#"{"choices": [{"message": {"content": 1}}]}"#), ChatError::OtherShape);
    assert_eq!(
        complaint(r#"{"choices": [{"message": {"tool_calls": [{"id": "a"}]}}]}"#),
        ChatError::OtherShape
    );
    assert_eq!(complaint("{"), ChatError::NotJson);
    assert_eq!(complaint(""), ChatError::NotJson);
}

//! What holds of every request, on concrete requests.

use ccr::converter::request::{
    convert_responses_to_chat_request, normalize_role, ConvertError,
};
use ccr::converter::ReasoningStore;
use serde_json::Value;

fn convert(body: &str) -> Value {
    let mut store = ReasoningStore::new();
    match convert_responses_to_chat_request(body.as_bytes(), "m", false, &mut store) {
        Ok(r) => serde_json::from_slice(&r.body).unwrap(),
        Err(ConvertError { message }) => panic!("{}", message),
    }
}

#[test]
fn body_that_holds_no_document() {
    let mut store = ReasoningStore::new();
    let expected = serde_json::from_str::<Value>("nope").unwrap_err().to_string();
    match convert_responses_to_chat_request(b"nope", "m", false, &mut store) {
        Ok(_) => panic!("accepted"),
        Err(e) => assert_eq!(e.message, expected),
    }
}

#[test]
fn roles_are_one_of_four() {
    for r in ["user", "assistant", "system", "tool", "developer", "", "robot"] {
        let role = normalize_role(r);
        assert!(["user", "assistant", "system", "tool"].contains(&role.as_str()));
        assert_eq!(normalize_role(&role), role);
    }
}

#[test]
fn numbers_pass_through_as_they_are() {
    let chat = convert(
        r#"{"max_output_tokens": 18446744073709551615, "temperature": 0.30000000000000004,
            "top_p": -3, "user": null, "parallel_tool_calls": "yes"}"#,
    );
    assert_eq!(chat["max_tokens"].to_string(), "18446744073709551615");
    assert_eq!(chat["temperature"].to_string(), "0.30000000000000004");
    assert_eq!(chat["top_p"].to_string(), "-3");
    assert_eq!(chat["user"], Value::Null);
    assert_eq!(chat["parallel_tool_calls"], "yes");
}

#[test]
fn outputs_stand_behind_an_assistant_message() {
    let chat = convert(
        r#"{"instructions": "i", "input": [
            {"type": "function_call_output", "call_id": "z", "output": "lost"},
            {"type": "function_call", "call_id": "a", "name": "f"},
            {"type": "function_call", "call_id": "b", "name": "g"},
            {"type": "function_call_output", "call_id": "a", "output": "1"},
            {"type": "function_call_output", "call_id": "b", "output": "2"},
            {"role": "user", "content": "next"},
            {"type": "function_call_output", "call_id": "a", "output": "late"},
            {"type": "function_call", "call_id": "c", "name": "h"}
        ]}"#,
    );
    let roles: Vec<&str> = chat["messages"]
        .as_array()
        .unwrap()
        .iter()
        .map(|m| m["role"].as_str().unwrap())
        .collect();
    assert_eq!(roles, vec!["system", "assistant", "tool", "tool", "user"]);
    let calls = chat["messages"][1]["tool_calls"].as_array().unwrap();
    assert_eq!(calls.len(), 2);
    assert_eq!(calls[0]["id"], "a");
    assert_eq!(calls[1]["id"], "b");
}

#[test]
fn repeated_member_counts_once() {
    let chat = convert(r#"{"instructions": "first", "instructions": "second"}"#);
    assert_eq!(chat["messages"][0]["content"], "second");
}

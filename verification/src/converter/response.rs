//! Whole responses: from a chat completion to a response.

use vstd::prelude::*;
use vstd::string::*;

use super::stream::conversion;
use super::stream::conversion::{random_id, unix_time};
use super::stream::handlers;
use crate::json;
use crate::json::{Json, JsonV};
use crate::text;
use crate::text::{concat_all, join, starts_with, strip_prefix, trim, trim_end_matches};
use crate::types;
use crate::types::chat;
use crate::types::chat::{ChatChoice, ChatMessage, ChatResponse, MessageContent};
use crate::types::chat::{ChatChoiceV, ChatMessageV, ChatResponseV, MessageContentV, ToolCallV};
use crate::types::output;
use crate::types::output::{
    OutputContent, OutputItem, OutputSummary, ReasoningConfig, ResponsesResponse, ResponsesUsage,
};
use crate::types::output::{
    OutputContentV, OutputItemV, OutputSummaryV, ReasoningConfigV, ResponseV,
};
use crate::types::Usage;

verus! {

// ---------------------------------------------------------------------------------------------
// What a response holds
// ---------------------------------------------------------------------------------------------

/// The inside of a fenced block of reasoning, without the fence that opens it.
pub open spec fn fence_opened(t: Seq<char>) -> Seq<char> {
    match text::behind(t, "```reasoning\n"@) {
        Some(s) => s,
        None => match text::behind(t, "```thinking\n"@) {
            Some(s) => s,
            None => match text::behind(t, "```reasoning"@) {
                Some(s) => s,
                None => text::or_text(text::behind(t, "```thinking"@), Seq::empty()),
            },
        },
    }
}

/// The reasoning in a text that begins with a fenced block of it.
pub open spec fn fenced_reasoning(s: Seq<char>) -> Option<Seq<char>> {
    let t = text::trimmed(s);
    if text::begins(t, "```reasoning"@) || text::begins(t, "```thinking"@) {
        let inner = text::without_end(text::without_end(fence_opened(t), "\n```"@), "```"@);
        if inner.len() > 0 {
            Some(inner)
        } else {
            None
        }
    } else {
        None
    }
}

/// The reasoning of a message.
pub open spec fn message_reasoning(m: ChatMessageV) -> Option<Seq<char>> {
    match m.content {
        Some(MessageContentV::Text(s)) => fenced_reasoning(s),
        _ => None,
    }
}

/// The text of a message.
pub open spec fn content_text(m: ChatMessageV) -> Option<Seq<char>> {
    match m.content {
        Some(MessageContentV::Text(s)) => if s.len() > 0 {
            Some(s)
        } else {
            None
        },
        Some(MessageContentV::Parts(parts)) => {
            let s = text::joined(parts, "\n"@);
            if s.len() > 0 {
                Some(s)
            } else {
                None
            }
        },
        None => None,
    }
}

/// The texts with one more, where there is one.
pub open spec fn with_text(texts: Seq<Seq<char>>, s: Option<Seq<char>>) -> Seq<Seq<char>> {
    match s {
        Some(x) => texts.push(x),
        None => texts,
    }
}

/// The output item for a function call.
pub open spec fn call_output(id: Seq<char>, name: Seq<char>, arguments: Seq<char>) -> OutputItemV {
    OutputItemV {
        id: Some(handlers::call_item_id(id)),
        item_type: "function_call"@,
        status: Some("completed"@),
        role: None,
        content: None,
        summary: None,
        arguments: Some(arguments),
        call_id: Some(id),
        name: Some(name),
    }
}

/// The output items for the function calls that have an identifier.
pub open spec fn call_outputs(calls: Seq<ToolCallV>) -> Seq<OutputItemV>
    decreases calls.len(),
{
    if calls.len() == 0 {
        Seq::empty()
    } else {
        let c = calls.last();
        match c.id {
            Some(id) => call_outputs(calls.drop_last()).push(
                call_output(
                    id,
                    text::or_text(c.name, Seq::empty()),
                    text::or_text(c.arguments, "{}"@),
                ),
            ),
            None => call_outputs(calls.drop_last()),
        }
    }
}

/// What the choices hold: pieces of reasoning, pieces of text, and function calls.
#[verifier::ext_equal]
pub struct GatheredV {
    pub reasoning: Seq<Seq<char>>,
    pub content: Seq<Seq<char>>,
    pub calls: Seq<OutputItemV>,
}

/// What the choices hold.
pub open spec fn gathered(choices: Seq<ChatChoiceV>) -> GatheredV
    decreases choices.len(),
{
    if choices.len() == 0 {
        GatheredV { reasoning: Seq::empty(), content: Seq::empty(), calls: Seq::empty() }
    } else {
        let g = gathered(choices.drop_last());
        match choices.last().message {
            Some(m) => GatheredV {
                reasoning: with_text(g.reasoning, message_reasoning(m)),
                content: with_text(g.content, content_text(m)),
                calls: match m.tool_calls {
                    Some(calls) => g.calls + call_outputs(calls),
                    None => g.calls,
                },
            },
            None => g,
        }
    }
}

/// The reasoning as output items.
pub open spec fn reasoning_output(chat_id: Seq<char>, texts: Seq<Seq<char>>) -> Seq<OutputItemV> {
    if texts.len() == 0 {
        Seq::empty()
    } else {
        seq![
            OutputItemV {
                id: Some("rs_"@ + chat_id + "_0"@),
                item_type: "reasoning"@,
                status: Some("completed"@),
                role: None,
                content: None,
                summary: Some(
                    seq![
                        OutputSummaryV {
                            summary_type: "summary_text"@,
                            text: Some(text::concatenated(texts)),
                        },
                    ],
                ),
                arguments: None,
                call_id: None,
                name: None,
            },
        ]
    }
}

/// The message as output items.
pub open spec fn message_output(chat_id: Seq<char>, texts: Seq<Seq<char>>) -> Seq<OutputItemV> {
    if texts.len() == 0 {
        Seq::empty()
    } else {
        seq![
            OutputItemV {
                id: Some("msg_"@ + chat_id + "_0"@),
                item_type: "message"@,
                status: Some("completed"@),
                role: Some("assistant"@),
                content: Some(
                    seq![
                        OutputContentV {
                            content_type: "output_text"@,
                            text: Some(text::concatenated(texts)),
                            annotations: Some(Seq::empty()),
                            logprobs: Some(Seq::empty()),
                        },
                    ],
                ),
                summary: None,
                arguments: None,
                call_id: None,
                name: None,
            },
        ]
    }
}

/// The output items: reasoning, message, function calls.
pub open spec fn outputs(chat_id: Seq<char>, g: GatheredV) -> Seq<OutputItemV> {
    reasoning_output(chat_id, g.reasoning) + message_output(chat_id, g.content) + g.calls
}

/// The number, where there is one that is positive.
pub open spec fn positive(n: Option<i64>) -> Option<i64> {
    match n {
        Some(x) => if x > 0 {
            Some(x)
        } else {
            None
        },
        None => None,
    }
}

/// The input tokens that did not come from a cache.
pub open spec fn uncached(input: i64, cached: Option<i64>) -> i64 {
    match cached {
        Some(c) => {
            let d = input.wrapping_sub(c);
            if d > 0 {
                d
            } else {
                0
            }
        },
        None => input,
    }
}

/// The token counts of a response.
pub open spec fn converted_usage(u: Usage) -> ResponsesUsage {
    let output = conversion::updated(0, u.completion_tokens);
    let input = uncached(conversion::updated(0, u.prompt_tokens), u.cached_tokens);
    ResponsesUsage {
        input_tokens: input,
        output_tokens: output,
        total_tokens: input.wrapping_add(output).wrapping_add(
            conversion::updated(0, u.cached_tokens),
        ),
        cache_read_input_tokens: u.cached_tokens,
        cache_creation_input_tokens: None,
        cache_creation_5m_input_tokens: None,
        cache_creation_1h_input_tokens: None,
        cached_tokens: positive(u.cached_tokens),
        reasoning_tokens: positive(u.reasoning_tokens),
    }
}

/// The number of that name as a floating point number.
pub open spec fn float_at(v: JsonV, key: Seq<char>) -> Option<JsonV> {
    match v.get(key) {
        Some(x) => if x is Int || x is Real {
            Some(json::float_json(x))
        } else {
            None
        },
        None => None,
    }
}

/// The tools that were asked for; none where they are no array.
pub open spec fn asked_tools(request: JsonV) -> Option<Seq<JsonV>> {
    match request.get("tools"@) {
        Some(JsonV::Array(s)) => Some(s),
        Some(_) => Some(Seq::empty()),
        None => None,
    }
}

/// The reasoning settings that a value describes; none of them where it has another shape.
pub open spec fn reasoning_config(v: JsonV) -> ReasoningConfigV {
    match (types::text_member(v, "effort"@), types::text_member(v, "summary"@)) {
        (Some(effort), Some(summary)) => if v is Object {
            ReasoningConfigV { effort, summary }
        } else {
            ReasoningConfigV { effort: None, summary: None }
        },
        _ => ReasoningConfigV { effort: None, summary: None },
    }
}

/// The response for a chat completion. Where the completion has no identifier or time, they are
/// made from `random` and `time`.
pub open spec fn response_of(
    c: ChatResponseV,
    request: JsonV,
    model_name: Option<Seq<char>>,
    random: Seq<char>,
    time: i64,
) -> ResponseV {
    let chat_id = text::or_text(c.id, "resp_"@ + random);
    let items = match c.choices {
        Some(choices) => outputs(chat_id, gathered(choices)),
        None => Seq::empty(),
    };
    ResponseV {
        id: "resp_"@ + chat_id,
        object: "response"@,
        created_at: conversion::updated(time, c.created),
        status: "completed"@,
        model: match model_name {
            Some(m) => Some(m),
            None => c.model,
        },
        instructions: request.text_at("instructions"@),
        previous_response_id: request.text_at("previous_response_id"@),
        temperature: float_at(request, "temperature"@),
        top_p: float_at(request, "top_p"@),
        max_output_tokens: match request.get("max_output_tokens"@) {
            Some(v) => v.as_i64(),
            None => None,
        },
        parallel_tool_calls: match request.get("parallel_tool_calls"@) {
            Some(v) => v.as_bool(),
            None => None,
        },
        tool_choice: request.get("tool_choice"@),
        tools: asked_tools(request),
        reasoning: match request.get("reasoning"@) {
            Some(v) => Some(reasoning_config(v)),
            None => None,
        },
        metadata: request.get("metadata"@),
        output: if items.len() > 0 {
            Some(items)
        } else {
            None
        },
        usage: match c.usage {
            Some(u) => Some(converted_usage(u)),
            None => None,
        },
        error: None,
    }
}

/// The chat completion that a body holds.
pub open spec fn parsed_chat(body: Seq<u8>) -> Option<ChatResponseV> {
    match json::parsed_json(body) {
        Some(v) => chat::chat_of(v),
        None => None,
    }
}

// ---------------------------------------------------------------------------------------------
// The conversion
// ---------------------------------------------------------------------------------------------

fn open_fence(t: &str) -> (r: String)
    ensures
        r@ == fence_opened(t@),
{
    if let Some(s) = strip_prefix(t, "```reasoning\n") {
        return s;
    }
    if let Some(s) = strip_prefix(t, "```thinking\n") {
        return s;
    }
    if let Some(s) = strip_prefix(t, "```reasoning") {
        return s;
    }
    match strip_prefix(t, "```thinking") {
        Some(s) => s,
        None => {
            let r = String::new();
            assert(r@ =~= Seq::empty());
            r
        },
    }
}

fn extract_reasoning_content(msg: &ChatMessage) -> (r: Option<String>)
    ensures
        text::maybe(r) == message_reasoning(msg@),
{
    match &msg.content {
        Some(MessageContent::Text(s)) => {
            let trimmed = trim(s.as_str());
            if starts_with(trimmed.as_str(), "```reasoning") || starts_with(
                trimmed.as_str(),
                "```thinking",
            ) {
                let inner = trim_end_matches(
                    trim_end_matches(open_fence(trimmed.as_str()).as_str(), "\n```").as_str(),
                    "```",
                );
                if !inner.as_str().is_empty() {
                    return Some(inner);
                }
            }
            None
        },
        _ => None,
    }
}

fn get_content_text(msg: &ChatMessage) -> (r: Option<String>)
    ensures
        text::maybe(r) == content_text(msg@),
{
    let s = match &msg.content {
        Some(MessageContent::Text(s)) => s.clone(),
        Some(MessageContent::Parts(parts)) => join(parts, "\n"),
        None => {
            return None;
        },
    };
    if s.as_str().is_empty() {
        None
    } else {
        Some(s)
    }
}

fn make_call_output(id: &str, name: &str, arguments: &str) -> (r: OutputItem)
    ensures
        r@ == call_output(id@, name@, arguments@),
{
    OutputItem {
        id: Some(handlers::make_call_item_id(id)),
        item_type: "function_call".to_owned(),
        status: Some("completed".to_owned()),
        role: None,
        content: None,
        summary: None,
        arguments: Some(arguments.to_owned()),
        call_id: Some(id.to_owned()),
        name: Some(name.to_owned()),
    }
}

fn or_default(s: &Option<String>, other: &str) -> (r: String)
    ensures
        r@ == text::or_text(text::maybe(*s), other@),
{
    match s {
        Some(x) => x.clone(),
        None => other.to_owned(),
    }
}

/// Adds the output items for the function calls of a message.
fn add_calls(out: &mut Vec<OutputItem>, msg: &ChatMessage)
    ensures
        output::item_views(final(out)@) == output::item_views(old(out)@) + (match msg@.tool_calls {
            Some(calls) => call_outputs(calls),
            None => Seq::empty(),
        }),
{
    let ghost before = output::item_views(out@);
    if let Some(calls) = &msg.tool_calls {
        let ghost all = chat::tool_call_views(calls@);
        let mut i: usize = 0;
        assert(all.take(0) =~= Seq::empty());
        assert(before + call_outputs(all.take(0)) =~= before);
        while i < calls.len()
            invariant
                i <= calls@.len(),
                all == chat::tool_call_views(calls@),
                output::item_views(out@) =~= before + call_outputs(all.take(i as int)),
            decreases calls@.len() - i,
        {
            let ghost seen = out@;
            assert(all.take(i + 1).drop_last() =~= all.take(i as int));
            assert(all.take(i + 1).last() == calls@[i as int]@);
            if let Some(id) = &calls[i].id {
                proof {
                    reveal_strlit("");
                    assert(""@ =~= Seq::empty());
                }
                let name = or_default(&calls[i].name, "");
                let arguments = or_default(&calls[i].arguments, "{}");
                let item = make_call_output(id.as_str(), name.as_str(), arguments.as_str());
                out.push(item);
                assert(output::item_views(out@) =~= output::item_views(seen).push(item@));
            }
            i += 1;
        }
        assert(all.take(i as int) =~= all);
    } else {
        assert(output::item_views(out@) =~= before + Seq::empty());
    }
}

fn add_text(texts: &mut Vec<String>, s: Option<String>)
    ensures
        text::strings(final(texts)@) == with_text(text::strings(old(texts)@), text::maybe(s)),
{
    if let Some(x) = s {
        texts.push(x);
        assert(text::strings(texts@) =~= text::strings(old(texts)@).push(x@));
    }
}

/// What the choices hold.
struct Gathered {
    reasoning: Vec<String>,
    content: Vec<String>,
    calls: Vec<OutputItem>,
}

impl Gathered {
    spec fn model(self) -> GatheredV {
        GatheredV {
            reasoning: text::strings(self.reasoning@),
            content: text::strings(self.content@),
            calls: output::item_views(self.calls@),
        }
    }
}

fn gather(choices: &Vec<ChatChoice>) -> (r: Gathered)
    ensures
        r.model() == gathered(chat::chat_choice_views(choices@)),
{
    let ghost all = chat::chat_choice_views(choices@);
    let mut g = Gathered { reasoning: Vec::new(), content: Vec::new(), calls: Vec::new() };
    let mut i: usize = 0;
    assert(all.take(0) =~= Seq::empty());
    assert(g.model() =~= gathered(all.take(0)));
    while i < choices.len()
        invariant
            i <= choices@.len(),
            all == chat::chat_choice_views(choices@),
            g.model() == gathered(all.take(i as int)),
        decreases choices@.len() - i,
    {
        assert(all.take(i + 1).drop_last() =~= all.take(i as int));
        assert(all.take(i + 1).last() == choices@[i as int]@);
        if let Some(msg) = &choices[i].message {
            add_text(&mut g.reasoning, extract_reasoning_content(msg));
            add_text(&mut g.content, get_content_text(msg));
            add_calls(&mut g.calls, msg);
            assert(g.model() =~= gathered(all.take(i + 1)));
        }
        i += 1;
    }
    assert(all.take(i as int) =~= all);
    g
}

fn first_id(prefix: &str, chat_id: &str) -> (r: String)
    ensures
        r@ == prefix@ + chat_id@ + "_0"@,
{
    let mut r = String::new();
    r.append(prefix);
    r.append(chat_id);
    r.append("_0");
    assert(r@ =~= prefix@ + chat_id@ + "_0"@);
    r
}

fn make_outputs(chat_id: &str, g: Gathered) -> (r: Vec<OutputItem>)
    ensures
        output::item_views(r@) == outputs(chat_id@, g.model()),
{
    let ghost model = g.model();
    let mut r: Vec<OutputItem> = Vec::new();
    if g.reasoning.len() > 0 {
        let mut summary: Vec<OutputSummary> = Vec::new();
        summary.push(
            OutputSummary {
                summary_type: "summary_text".to_owned(),
                text: Some(concat_all(&g.reasoning)),
            },
        );
        assert(output::summary_views(summary@) =~= seq![summary@[0]@]);
        r.push(
            OutputItem {
                id: Some(first_id("rs_", chat_id)),
                item_type: "reasoning".to_owned(),
                status: Some("completed".to_owned()),
                role: None,
                content: None,
                summary: Some(summary),
                arguments: None,
                call_id: None,
                name: None,
            },
        );
    }
    assert(output::item_views(r@) =~= reasoning_output(chat_id@, model.reasoning));
    if g.content.len() > 0 {
        let mut content: Vec<OutputContent> = Vec::new();
        let annotations: Vec<Json> = Vec::new();
        let logprobs: Vec<Json> = Vec::new();
        assert(json::items_view(annotations@) =~= Seq::empty());
        assert(json::items_view(logprobs@) =~= Seq::empty());
        content.push(
            OutputContent {
                content_type: "output_text".to_owned(),
                text: Some(concat_all(&g.content)),
                annotations: Some(annotations),
                logprobs: Some(logprobs),
            },
        );
        assert(output::content_views(content@) =~= seq![content@[0]@]);
        r.push(
            OutputItem {
                id: Some(first_id("msg_", chat_id)),
                item_type: "message".to_owned(),
                status: Some("completed".to_owned()),
                role: Some("assistant".to_owned()),
                content: Some(content),
                summary: None,
                arguments: None,
                call_id: None,
                name: None,
            },
        );
    }
    assert(output::item_views(r@) =~= reasoning_output(chat_id@, model.reasoning) + message_output(
        chat_id@,
        model.content,
    ));
    let ghost head = r@;
    let mut calls = g.calls;
    let ghost rest = calls@;
    r.append(&mut calls);
    assert(output::item_views(r@) =~= output::item_views(head) + output::item_views(rest));
    r
}

fn or_zero(n: Option<i64>) -> (r: i64)
    ensures
        r == conversion::updated(0, n),
{
    match n {
        Some(x) => x,
        None => 0,
    }
}

fn if_positive(n: Option<i64>) -> (r: Option<i64>)
    ensures
        r == positive(n),
{
    match n {
        Some(x) => if x > 0 {
            Some(x)
        } else {
            None
        },
        None => None,
    }
}

fn convert_usage(u: &Usage) -> (r: ResponsesUsage)
    ensures
        r == converted_usage(*u),
{
    let input: i64 = match u.cached_tokens {
        Some(c) => {
            let d = or_zero(u.prompt_tokens).wrapping_sub(c);
            if d > 0 {
                d
            } else {
                0
            }
        },
        None => or_zero(u.prompt_tokens),
    };
    let output: i64 = or_zero(u.completion_tokens);
    ResponsesUsage {
        input_tokens: input,
        output_tokens: output,
        total_tokens: input.wrapping_add(output).wrapping_add(or_zero(u.cached_tokens)),
        cache_read_input_tokens: u.cached_tokens,
        cache_creation_input_tokens: None,
        cache_creation_5m_input_tokens: None,
        cache_creation_1h_input_tokens: None,
        cached_tokens: if_positive(u.cached_tokens),
        reasoning_tokens: if_positive(u.reasoning_tokens),
    }
}

fn get_owned_text(v: &Json, key: &str) -> (r: Option<String>)
    ensures
        text::maybe(r) == v@.text_at(key@),
{
    match v.text_at(key) {
        Some(s) => Some(s.to_owned()),
        None => None,
    }
}

fn get_float(v: &Json, key: &str) -> (r: Option<Json>)
    ensures
        json::maybe(r) == float_at(v@, key@),
{
    match v.get(key) {
        Some(x) => x.as_float(),
        None => None,
    }
}

fn get_value(v: &Json, key: &str) -> (r: Option<Json>)
    ensures
        json::maybe(r) == v@.get(key@),
{
    match v.get(key) {
        Some(x) => Some(x.clone()),
        None => None,
    }
}

fn get_tools(request: &Json) -> (r: Option<Vec<Json>>)
    ensures
        output::maybe_values(r) == asked_tools(request@),
{
    match request.get("tools") {
        Some(v) => match v.as_array() {
            Some(items) => Some(output::copy_values(items)),
            None => {
                let none: Vec<Json> = Vec::new();
                assert(json::items_view(none@) =~= Seq::empty());
                Some(none)
            },
        },
        None => None,
    }
}

fn get_reasoning_config(v: &Json) -> (r: ReasoningConfig)
    ensures
        r@ == reasoning_config(v@),
{
    if types::is_object(v) {
        if let Some(effort) = types::get_text(v, "effort") {
            if let Some(summary) = types::get_text(v, "summary") {
                return ReasoningConfig { effort, summary };
            }
        }
    }
    ReasoningConfig { effort: None, summary: None }
}

/// Makes the response for a chat completion. Where the completion has no identifier or time, they
/// are made from `random` and `time`.
pub fn convert_chat_response(
    chat_response: &ChatResponse,
    original_request: &Json,
    model_name: Option<&str>,
    random: &str,
    time: i64,
) -> (r: ResponsesResponse)
    ensures
        r@ == response_of(
            chat_response@,
            original_request@,
            text::maybe_str(model_name),
            random@,
            time,
        ),
{
    let chat_id = match &chat_response.id {
        Some(id) => id.clone(),
        None => {
            let mut id = String::new();
            id.append("resp_");
            id.append(random);
            assert(id@ =~= "resp_"@ + random@);
            id
        },
    };
    let mut id = String::new();
    id.append("resp_");
    id.append(chat_id.as_str());
    assert(id@ =~= "resp_"@ + chat_id@);
    let items: Vec<OutputItem> = match &chat_response.choices {
        Some(choices) => make_outputs(chat_id.as_str(), gather(choices)),
        None => Vec::new(),
    };
    let ghost item_models = match chat_response@.choices {
        Some(choices) => outputs(chat_id@, gathered(choices)),
        None => Seq::empty(),
    };
    assert(output::item_views(items@) =~= item_models);
    ResponsesResponse {
        id,
        object: "response".to_owned(),
        created_at: match chat_response.created {
            Some(t) => t,
            None => time,
        },
        status: "completed".to_owned(),
        model: match model_name {
            Some(m) => Some(m.to_owned()),
            None => chat_response.model.clone(),
        },
        instructions: get_owned_text(original_request, "instructions"),
        previous_response_id: get_owned_text(original_request, "previous_response_id"),
        temperature: get_float(original_request, "temperature"),
        top_p: get_float(original_request, "top_p"),
        max_output_tokens: match original_request.get("max_output_tokens") {
            Some(v) => v.as_i64(),
            None => None,
        },
        parallel_tool_calls: match original_request.get("parallel_tool_calls") {
            Some(v) => v.as_bool(),
            None => None,
        },
        tool_choice: get_value(original_request, "tool_choice"),
        tools: get_tools(original_request),
        reasoning: match original_request.get("reasoning") {
            Some(v) => Some(get_reasoning_config(v)),
            None => None,
        },
        metadata: get_value(original_request, "metadata"),
        output: if items.len() > 0 {
            Some(items)
        } else {
            None
        },
        usage: match &chat_response.usage {
            Some(u) => Some(convert_usage(u)),
            None => None,
        },
        error: None,
    }
}

/// Why a body holds no chat completion. The text that `serde_json` has for such a body is not
/// given: it speaks of the first place at which the body goes wrong, in form or in shape.
#[derive(Debug, Clone, Copy, PartialEq, Eq, Structural)]
pub enum ChatError {
    /// The bytes hold no document.
    NotJson,
    /// The document has another shape.
    OtherShape,
}

/// Why a body holds no chat completion.
pub open spec fn chat_error(body: Seq<u8>) -> ChatError {
    match json::parsed_json(body) {
        Some(_) => ChatError::OtherShape,
        None => ChatError::NotJson,
    }
}

/// Reads a chat completion.
pub fn parse_chat_response(body: &[u8]) -> (r: Result<ChatResponse, ChatError>)
    ensures
        match r {
            Ok(c) => parsed_chat(body@) == Some(c@),
            Err(e) => parsed_chat(body@) is None && e == chat_error(body@),
        },
{
    match Json::parse(body) {
        Ok(v) => match ChatResponse::from_json(&v) {
            Some(c) => Ok(c),
            None => Err(ChatError::OtherShape),
        },
        Err(_) => Err(ChatError::NotJson),
    }
}

/// Converts the body of a chat completion to a response. Where the completion has no identifier or
/// time, a random identifier and the time of the call take their place.
pub fn convert_chat_response_to_responses(
    chat_body: &[u8],
    original_request: &Json,
    model_name: Option<&str>,
) -> (r: Result<ResponsesResponse, ChatError>)
    ensures
        match parsed_chat(chat_body@) {
            Some(c) => exists|random: Seq<char>, time: i64|
                {
                    &&& conversion::is_random_id(random)
                    &&& r matches Ok(x)
                    &&& x@ == #[trigger] response_of(
                        c,
                        original_request@,
                        text::maybe_str(model_name),
                        random,
                        time,
                    )
                },
            None => {
                &&& r matches Err(e)
                &&& e == chat_error(chat_body@)
            },
        },
{
    let c = match parse_chat_response(chat_body) {
        Ok(c) => c,
        Err(e) => {
            return Err(e);
        },
    };
    let random = random_id();
    let time: i64 = unix_time();
    let x = convert_chat_response(&c, original_request, model_name, random.as_str(), time);
    Ok(x)
}

} // verus!

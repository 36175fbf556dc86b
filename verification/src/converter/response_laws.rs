//! What a whole response holds, in terms of the chat completion and the request.

use vstd::prelude::*;
use vstd::string::*;

use super::response;
use crate::json::JsonV;
use crate::names;
use crate::text;
use crate::types::chat::{ChatChoiceV, ChatResponseV, MessageContentV, ToolCallV};
use crate::types::output::{OutputItemV, ResponseV, ResponsesUsage};
use crate::types::Usage;

verus! {

/// The output item for a function call with that identifier: it has the identifier, the name and
/// the arguments of the call.
pub open spec fn is_call_output(item: OutputItemV, c: ToolCallV, id: Seq<char>) -> bool {
    &&& item.item_type == "function_call"@
    &&& item.status == Some("completed"@)
    &&& item.call_id == Some(id)
    &&& item.id == Some(seq!['f', 'c', '_'] + id)
    &&& c.name is Some ==> item.name == c.name
    &&& c.name is None ==> item.name == Some(Seq::<char>::empty())
    &&& c.arguments is Some ==> item.arguments == c.arguments
    &&& c.arguments is None ==> item.arguments == Some(seq!['{', '}'])
    &&& item.role is None
    &&& item.content is None
    &&& item.summary is None
}

/// One more call of a message adds its item where it has an identifier, and nothing where it has
/// none.
pub proof fn law_calls_come_out_one_by_one(calls: Seq<ToolCallV>, c: ToolCallV)
    ensures
        ({
            let a = response::call_outputs(calls);
            let b = response::call_outputs(calls.push(c));
            &&& c.id is None ==> b == a
            &&& c.id matches Some(id) ==> {
                &&& b.len() == a.len() + 1
                &&& b.drop_last() == a
                &&& is_call_output(b.last(), c, id)
            }
        }),
        response::call_outputs(Seq::empty()).len() == 0,
{
    reveal_strlit("fc_");
    reveal_strlit("{}");
    assert("fc_"@ =~= seq!['f', 'c', '_']);
    assert("{}"@ =~= seq!['{', '}']);
    assert(calls.push(c).drop_last() =~= calls);
    assert(calls.push(c).last() == c);
    let a = response::call_outputs(calls);
    let b = response::call_outputs(calls.push(c));
    if c.id is Some {
        assert(b.drop_last() =~= a);
    }
}

/// Where all calls of a message have identifiers, each comes out at its place, whole.
pub proof fn law_every_call_comes_out_whole(calls: Seq<ToolCallV>)
    requires
        forall|i: int| 0 <= i < calls.len() ==> (#[trigger] calls[i]).id is Some,
    ensures
        response::call_outputs(calls).len() == calls.len(),
        forall|i: int|
            0 <= i < calls.len() ==> is_call_output(
                #[trigger] response::call_outputs(calls)[i],
                calls[i],
                calls[i].id->0,
            ),
    decreases calls.len(),
{
    if calls.len() > 0 {
        let rest = calls.drop_last();
        let c = calls.last();
        assert forall|i: int| 0 <= i < rest.len() implies (#[trigger] rest[i]).id is Some by {
            assert(rest[i] == calls[i]);
        }
        law_every_call_comes_out_whole(rest);
        assert(calls[calls.len() - 1] == c);
        law_calls_come_out_one_by_one(rest, c);
        assert(rest.push(c) =~= calls);
        let items = response::call_outputs(calls);
        assert forall|i: int| 0 <= i < calls.len() implies is_call_output(
            #[trigger] items[i],
            calls[i],
            calls[i].id->0,
        ) by {
            if i < rest.len() {
                assert(items.drop_last()[i] == items[i]);
                assert(rest[i] == calls[i]);
            }
        }
    }
}

/// The choices of a completion count one by one: each adds its calls, its text and its reasoning.
pub proof fn law_choices_count_one_by_one(choices: Seq<ChatChoiceV>, c: ChatChoiceV)
    ensures
        ({
            let a = response::gathered(choices);
            let b = response::gathered(choices.push(c));
            &&& c.message is None ==> b == a
            &&& c.message matches Some(m) ==> {
                &&& m.tool_calls is None ==> b.calls == a.calls
                &&& m.tool_calls matches Some(calls) ==> b.calls == a.calls
                    + response::call_outputs(calls)
                &&& m.content is None ==> b.content == a.content && b.reasoning == a.reasoning
                &&& m.content matches Some(MessageContentV::Text(s)) ==> {
                    &&& s.len() > 0 ==> b.content == a.content.push(s)
                    &&& s.len() == 0 ==> b.content == a.content
                    &&& response::fenced_reasoning(s) is None ==> b.reasoning == a.reasoning
                    &&& response::fenced_reasoning(s) matches Some(r) ==> b.reasoning
                        == a.reasoning.push(r)
                }
                &&& m.content matches Some(MessageContentV::Parts(parts)) ==> {
                    let s = text::joined(parts, seq!['\n']);
                    &&& s.len() > 0 ==> b.content == a.content.push(s)
                    &&& s.len() == 0 ==> b.content == a.content
                    &&& b.reasoning == a.reasoning
                }
            }
        }),
        ({
            let none = response::gathered(Seq::empty());
            none.calls.len() == 0 && none.content.len() == 0 && none.reasoning.len() == 0
        }),
{
    reveal_strlit("\n");
    assert("\n"@ =~= seq!['\n']);
    assert(choices.push(c).drop_last() =~= choices);
    assert(choices.push(c).last() == c);
}

/// What a fenced block holds without the fence that closes it.
pub open spec fn inside(x: Seq<char>) -> Seq<char> {
    text::without_end(text::without_end(x, "\n```"@), "```"@)
}

/// Reasoning in a text stands in a fenced block with which the text begins.
pub proof fn law_fences_hold_reasoning(s: Seq<char>, x: Seq<char>)
    ensures
        ({
            let t = text::trimmed(s);
            let r = response::fenced_reasoning(s);
            let opened = t == "```reasoning\n"@ + x || t == "```thinking\n"@ + x || ((t
                == "```reasoning"@ + x || t == "```thinking"@ + x) && !(x.len() > 0 && x[0]
                == '\n'));
            &&& opened && inside(x).len() > 0 ==> r == Some(inside(x))
            &&& opened && inside(x).len() == 0 ==> r is None
            &&& !text::begins(t, "```reasoning"@) && !text::begins(t, "```thinking"@) ==> r is None
        }),
{
    let t = text::trimmed(s);
    reveal_strlit("```reasoning\n");
    reveal_strlit("```thinking\n");
    reveal_strlit("```reasoning");
    reveal_strlit("```thinking");
    let a = "```reasoning\n"@;
    let b = "```thinking\n"@;
    let c = "```reasoning"@;
    let d = "```thinking"@;
    if t == a + x {
        assert(t.subrange(0, a.len() as int) =~= a);
        assert(t.subrange(0, c.len() as int) =~= c);
        assert(t.skip(a.len() as int) =~= x);
    } else if t == b + x {
        assert(t.subrange(0, b.len() as int) =~= b);
        assert(t.subrange(0, d.len() as int) =~= d);
        assert(t.skip(b.len() as int) =~= x);
        assert(t[3] == 't');
        assert(a[3] == 'r');
        assert(!text::begins(t, a)) by {
            if text::begins(t, a) {
                assert(t.subrange(0, a.len() as int)[3] == t[3]);
            }
        }
    } else if t == c + x && !(x.len() > 0 && x[0] == '\n') {
        assert(t.subrange(0, c.len() as int) =~= c);
        assert(t.skip(c.len() as int) =~= x);
        assert(!text::begins(t, a)) by {
            if text::begins(t, a) {
                assert(t.subrange(0, a.len() as int)[12] == t[12]);
                assert(t[12] == x[0]);
            }
        }
        assert(!text::begins(t, b)) by {
            if text::begins(t, b) {
                assert(t.subrange(0, b.len() as int)[3] == t[3]);
                assert(t[3] == c[3]);
            }
        }
    } else if t == d + x && !(x.len() > 0 && x[0] == '\n') {
        assert(t.subrange(0, d.len() as int) =~= d);
        assert(t.skip(d.len() as int) =~= x);
        assert(t[3] == d[3]);
        assert(!text::begins(t, a)) by {
            if text::begins(t, a) {
                assert(t.subrange(0, a.len() as int)[3] == t[3]);
            }
        }
        assert(!text::begins(t, c)) by {
            if text::begins(t, c) {
                assert(t.subrange(0, c.len() as int)[3] == t[3]);
            }
        }
        assert(!text::begins(t, b)) by {
            if text::begins(t, b) {
                assert(t.subrange(0, b.len() as int)[11] == t[11]);
                assert(t[11] == x[0]);
            }
        }
    }
}

/// The output items of a completion: one for the reasoning where there is any, one for the message
/// where there is any, and all function calls, in that order.
pub proof fn law_outputs_hold_all(chat_id: Seq<char>, g: response::GatheredV)
    ensures
        ({
            let out = response::outputs(chat_id, g);
            let n: int = if g.reasoning.len() > 0 {
                1
            } else {
                0
            };
            let m: int = if g.content.len() > 0 {
                1
            } else {
                0
            };
            &&& out.len() == n + m + g.calls.len()
            &&& g.reasoning.len() > 0 ==> {
                let item = out[0];
                &&& item.item_type == "reasoning"@
                &&& item.id == Some(seq!['r', 's', '_'] + chat_id + seq!['_', '0'])
                &&& item.status == Some("completed"@)
                &&& item.summary matches Some(parts)
                &&& parts.len() == 1
                &&& parts[0].summary_type == "summary_text"@
                &&& parts[0].text == Some(text::concatenated(g.reasoning))
                &&& item.content is None
                &&& item.role is None
                &&& item.call_id is None
                &&& item.name is None
                &&& item.arguments is None
            }
            &&& g.content.len() > 0 ==> {
                let item = out[n];
                &&& item.item_type == "message"@
                &&& item.id == Some(seq!['m', 's', 'g', '_'] + chat_id + seq!['_', '0'])
                &&& item.status == Some("completed"@)
                &&& item.role == Some("assistant"@)
                &&& item.content matches Some(parts)
                &&& parts.len() == 1
                &&& parts[0].content_type == "output_text"@
                &&& parts[0].text == Some(text::concatenated(g.content))
                &&& parts[0].annotations matches Some(none)
                &&& none.len() == 0
                &&& parts[0].logprobs matches Some(nothing)
                &&& nothing.len() == 0
                &&& item.summary is None
                &&& item.call_id is None
                &&& item.name is None
                &&& item.arguments is None
            }
            &&& forall|i: int|
                0 <= i < g.calls.len() ==> #[trigger] g.calls[i] == out[n + m + i]
        }),
{
    reveal_strlit("rs_");
    reveal_strlit("msg_");
    reveal_strlit("_0");
    assert("rs_"@ =~= seq!['r', 's', '_']);
    assert("msg_"@ =~= seq!['m', 's', 'g', '_']);
    assert("_0"@ =~= seq!['_', '0']);
}

/// The same, or else that.
pub open spec fn or_number(n: Option<i64>, other: i64) -> i64 {
    if n is Some {
        n->0
    } else {
        other
    }
}

/// The members of a response that come from the completion, or else from chance and time.
pub proof fn law_response_names_completion(
    c: ChatResponseV,
    request: JsonV,
    model_name: Option<Seq<char>>,
    random: Seq<char>,
    time: i64,
)
    ensures
        ({
            let r = response::response_of(c, request, model_name, random, time);
            let prefix = seq!['r', 'e', 's', 'p', '_'];
            let chat_id = if c.id is Some {
                c.id->0
            } else {
                prefix + random
            };
            &&& r.id == prefix + chat_id
            &&& r.object == "response"@
            &&& r.status == "completed"@
            &&& r.created_at == or_number(c.created, time)
            &&& model_name is Some ==> r.model == model_name
            &&& model_name is None ==> r.model == c.model
            &&& r.error is None
            &&& c.choices is None ==> r.output is None
            &&& c.choices matches Some(choices) ==> {
                let items = response::outputs(chat_id, response::gathered(choices));
                &&& items.len() > 0 ==> r.output == Some(items)
                &&& items.len() == 0 ==> r.output is None
            }
            &&& c.usage is None ==> r.usage is None
            &&& c.usage matches Some(u) ==> r.usage == Some(response::converted_usage(u))
        }),
{
    reveal_strlit("resp_");
    assert("resp_"@ =~= seq!['r', 'e', 's', 'p', '_']);
}

/// The members of a response that repeat the request.
pub proof fn law_response_repeats_request(
    c: ChatResponseV,
    request: JsonV,
    model_name: Option<Seq<char>>,
    random: Seq<char>,
    time: i64,
)
    ensures
        ({
            let r = response::response_of(c, request, model_name, random, time);
            &&& r.instructions == request.text_at("instructions"@)
            &&& r.previous_response_id == request.text_at("previous_response_id"@)
            &&& r.tool_choice == request.get("tool_choice"@)
            &&& r.metadata == request.get("metadata"@)
            &&& request.get("max_output_tokens"@) is None ==> r.max_output_tokens is None
            &&& request.get("max_output_tokens"@) matches Some(v) ==> r.max_output_tokens
                == v.as_i64()
            &&& request.get("parallel_tool_calls"@) is None ==> r.parallel_tool_calls is None
            &&& request.get("parallel_tool_calls"@) matches Some(v) ==> r.parallel_tool_calls
                == v.as_bool()
            &&& request.get("temperature"@) is None ==> r.temperature is None
            &&& request.get("temperature"@) matches Some(v) ==> if v is Int || v is Real {
                r.temperature == Some(crate::json::float_json(v))
            } else {
                r.temperature is None
            }
            &&& request.get("top_p"@) is None ==> r.top_p is None
            &&& request.get("top_p"@) matches Some(v) ==> if v is Int || v is Real {
                r.top_p == Some(crate::json::float_json(v))
            } else {
                r.top_p is None
            }
            &&& request.get("tools"@) is None ==> r.tools is None
            &&& request.get("tools"@) matches Some(JsonV::Array(tools)) ==> r.tools == Some(tools)
            &&& request.get("tools"@) matches Some(v) ==> (!(v is Array) ==> (r.tools matches Some(
                none,
            ) && none.len() == 0))
            &&& request.get("reasoning"@) is None ==> r.reasoning is None
            &&& request.get("reasoning"@) is Some ==> r.reasoning is Some
        }),
{
}

/// A member that is a text, or missing, or null.
pub open spec fn says_text_or_nothing(v: JsonV, key: Seq<char>) -> bool {
    v.get(key) matches Some(x) ==> x is Text || x is Null
}

/// The reasoning settings of a response are those that were asked for.
pub proof fn law_response_repeats_reasoning(
    c: ChatResponseV,
    request: JsonV,
    v: JsonV,
    model_name: Option<Seq<char>>,
    random: Seq<char>,
    time: i64,
)
    requires
        request.get("reasoning"@) == Some(v),
    ensures
        ({
            let r = response::response_of(c, request, model_name, random, time).reasoning;
            let fits = v is Object && says_text_or_nothing(v, "effort"@) && says_text_or_nothing(
                v,
                "summary"@,
            );
            &&& r matches Some(s)
            &&& fits ==> s.effort == v.text_at("effort"@) && s.summary == v.text_at("summary"@)
            &&& !fits ==> s.effort is None && s.summary is None
        }),
{
}

/// How the token counts of a completion come out: input that came from a cache is counted apart.
pub proof fn law_tokens_come_out(u: Usage)
    ensures
        ({
            let r = response::converted_usage(u);
            let input = or_number(u.prompt_tokens, 0);
            let output = or_number(u.completion_tokens, 0);
            let cached = or_number(u.cached_tokens, 0);
            &&& r.output_tokens == output
            &&& u.cached_tokens is None ==> r.input_tokens == input
            &&& u.cached_tokens is Some ==> r.input_tokens == (if input.wrapping_sub(cached) > 0 {
                input.wrapping_sub(cached)
            } else {
                0
            })
            &&& r.total_tokens == r.input_tokens.wrapping_add(output).wrapping_add(cached)
            &&& r.cache_read_input_tokens == u.cached_tokens
            &&& r.cache_creation_input_tokens is None
            &&& r.cache_creation_5m_input_tokens is None
            &&& r.cache_creation_1h_input_tokens is None
            &&& cached > 0 ==> r.cached_tokens == Some(cached)
            &&& cached <= 0 ==> r.cached_tokens is None
            &&& or_number(u.reasoning_tokens, 0) > 0 ==> r.reasoning_tokens == u.reasoning_tokens
            &&& or_number(u.reasoning_tokens, 0) <= 0 ==> r.reasoning_tokens is None
        }),
{
}

/// The value holds that text, or nothing where there is none.
pub open spec fn prints_text(v: Option<JsonV>, s: Option<Seq<char>>) -> bool {
    match s {
        Some(x) => v == Some(JsonV::Text(x)),
        None => v is None,
    }
}

/// The value holds that number, or nothing where there is none.
pub open spec fn prints_int(v: Option<JsonV>, n: Option<i64>) -> bool {
    match n {
        Some(x) => v == Some(JsonV::Int(x as int)),
        None => v is None,
    }
}

/// An output item is printed under the names that clients know, and without what is missing.
#[verifier::rlimit(60)]
#[verifier::spinoff_prover]
pub proof fn law_item_is_printed(item: OutputItemV)
    ensures
        ({
            let j = item.json();
            &&& prints_text(j.get("id"@), item.id)
            &&& j.get("type"@) == Some(JsonV::Text(item.item_type))
            &&& prints_text(j.get("status"@), item.status)
            &&& prints_text(j.get("role"@), item.role)
            &&& prints_text(j.get("arguments"@), item.arguments)
            &&& prints_text(j.get("call_id"@), item.call_id)
            &&& prints_text(j.get("name"@), item.name)
            &&& item.content is None ==> j.get("content"@) is None
            &&& item.content matches Some(parts) ==> {
                &&& j.get("content"@) matches Some(JsonV::Array(out))
                &&& out.len() == parts.len()
                &&& forall|i: int|
                    0 <= i < parts.len() ==> {
                        &&& (#[trigger] out[i]).get("type"@) == Some(
                            JsonV::Text(parts[i].content_type),
                        )
                        &&& prints_text(out[i].get("text"@), parts[i].text)
                        &&& parts[i].annotations matches Some(s) ==> out[i].get("annotations"@)
                            == Some(JsonV::Array(s))
                        &&& parts[i].logprobs matches Some(s) ==> out[i].get("logprobs"@) == Some(
                            JsonV::Array(s),
                        )
                    }
            }
            &&& item.summary is None ==> j.get("summary"@) is None
            &&& item.summary matches Some(parts) ==> {
                &&& j.get("summary"@) matches Some(JsonV::Array(out))
                &&& out.len() == parts.len()
                &&& forall|i: int|
                    0 <= i < parts.len() ==> {
                        &&& (#[trigger] out[i]).get("type"@) == Some(
                            JsonV::Text(parts[i].summary_type),
                        )
                        &&& prints_text(out[i].get("text"@), parts[i].text)
                    }
            }
        }),
{
    names::lemma_names();
}

/// Token counts are printed under the names that clients know.
#[verifier::rlimit(60)]
#[verifier::spinoff_prover]
pub proof fn law_usage_is_printed(u: ResponsesUsage)
    ensures
        ({
            let j = u.json();
            &&& j.get("input_tokens"@) == Some(JsonV::Int(u.input_tokens as int))
            &&& j.get("output_tokens"@) == Some(JsonV::Int(u.output_tokens as int))
            &&& j.get("total_tokens"@) == Some(JsonV::Int(u.total_tokens as int))
            &&& prints_int(j.get("cache_read_input_tokens"@), u.cache_read_input_tokens)
            &&& prints_int(j.get("cache_creation_input_tokens"@), u.cache_creation_input_tokens)
            &&& prints_int(
                j.get("cache_creation_5m_input_tokens"@),
                u.cache_creation_5m_input_tokens,
            )
            &&& prints_int(
                j.get("cache_creation_1h_input_tokens"@),
                u.cache_creation_1h_input_tokens,
            )
            &&& u.cached_tokens is None ==> j.get("input_tokens_details"@) is None
            &&& u.cached_tokens is Some ==> (j.get("input_tokens_details"@) matches Some(d)
                && prints_int(d.get("cached_tokens"@), u.cached_tokens))
            &&& u.reasoning_tokens is None ==> j.get("output_tokens_details"@) is None
            &&& u.reasoning_tokens is Some ==> (j.get("output_tokens_details"@) matches Some(d)
                && prints_int(d.get("reasoning_tokens"@), u.reasoning_tokens))
        }),
{
    names::lemma_names();
}

/// A response is printed under the names that clients know, and without what is missing.
#[verifier::rlimit(100)]
#[verifier::spinoff_prover]
pub proof fn law_response_is_printed(r: ResponseV)
    ensures
        ({
            let j = r.json();
            &&& j.get("id"@) == Some(JsonV::Text(r.id))
            &&& j.get("object"@) == Some(JsonV::Text(r.object))
            &&& j.get("created_at"@) == Some(JsonV::Int(r.created_at as int))
            &&& j.get("status"@) == Some(JsonV::Text(r.status))
            &&& prints_text(j.get("model"@), r.model)
            &&& prints_text(j.get("instructions"@), r.instructions)
            &&& prints_text(j.get("previous_response_id"@), r.previous_response_id)
            &&& j.get("temperature"@) == r.temperature
            &&& j.get("top_p"@) == r.top_p
            &&& prints_int(j.get("max_output_tokens"@), r.max_output_tokens)
            &&& j.get("tool_choice"@) == r.tool_choice
            &&& j.get("metadata"@) == r.metadata
            &&& j.get("error"@) == r.error
            &&& r.parallel_tool_calls is None ==> j.get("parallel_tool_calls"@) is None
            &&& r.parallel_tool_calls matches Some(b) ==> j.get("parallel_tool_calls"@) == Some(
                JsonV::Bool(b),
            )
            &&& r.tools is None ==> j.get("tools"@) is None
            &&& r.tools matches Some(s) ==> j.get("tools"@) == Some(JsonV::Array(s))
            &&& r.reasoning is None ==> j.get("reasoning"@) is None
            &&& r.reasoning matches Some(c) ==> {
                &&& j.get("reasoning"@) matches Some(x)
                &&& prints_text(x.get("effort"@), c.effort)
                &&& prints_text(x.get("summary"@), c.summary)
            }
            &&& r.output is None ==> j.get("output"@) is None
            &&& r.output matches Some(items) ==> {
                &&& j.get("output"@) matches Some(JsonV::Array(out))
                &&& out.len() == items.len()
                &&& forall|i: int| 0 <= i < items.len() ==> #[trigger] out[i] == items[i].json()
            }
            &&& r.usage is None ==> j.get("usage"@) is None
            &&& r.usage matches Some(u) ==> j.get("usage"@) == Some(u.json())
        }),
{
    names::lemma_names();
}

/// Why a body holds no chat completion: it is no document, or one of another shape.
pub proof fn law_why_no_completion(body: Seq<u8>)
    ensures
        crate::json::json_read(body) is Err ==> response::chat_error(body)
            == response::ChatError::NotJson,
        crate::json::json_read(body) is Ok ==> response::chat_error(body)
            == response::ChatError::OtherShape,
        crate::json::json_read(body) is Err ==> response::parsed_chat(body) is None,
        crate::json::json_read(body) matches Ok(v) ==> response::parsed_chat(body)
            == crate::types::chat::chat_of(v),
{
}

} // verus!

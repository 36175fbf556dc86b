//! What holds of requests, and of the reasoning that a stream leaves for the next request.

use vstd::prelude::*;
use vstd::string::*;

use super::request;
use super::request::TurnV;
use super::response;
use super::stream::completion;
use super::stream::{CallV, StepV, StreamV};
use super::Entries;
use crate::json::JsonV;
use crate::types::chat::ToolCallV;
use crate::types::Usage;

verus! {

// ---------------------------------------------------------------------------------------------
// The store
// ---------------------------------------------------------------------------------------------

/// What was stored is found, as long as it is valid.
pub proof fn law_stored_is_found(
    m: Entries,
    call_id: Seq<char>,
    s: Seq<char>,
    stored_at: u128,
    now: u128,
)
    requires
        super::is_fresh(stored_at, now),
    ensures
        super::valid_text(super::stored(m, call_id, s, stored_at), call_id, now) == Some(s),
{
}

/// What was stored is not found any more once it has expired.
pub proof fn law_expired_is_not_found(
    m: Entries,
    call_id: Seq<char>,
    s: Seq<char>,
    stored_at: u128,
    now: u128,
)
    requires
        !super::is_fresh(stored_at, now),
    ensures
        super::valid_text(super::stored(m, call_id, s, stored_at), call_id, now) is None,
{
}

/// What was taken is not found again.
pub proof fn law_taken_is_gone(m: Entries, call_id: Seq<char>, now: u128)
    ensures
        super::valid_text(m.remove(call_id), call_id, now) is None,
{
}

/// To store or to take one text changes nothing of the others that are valid.
pub proof fn law_others_stay(
    m: Entries,
    call_id: Seq<char>,
    s: Seq<char>,
    other: Seq<char>,
    stored_at: u128,
    now: u128,
)
    requires
        other != call_id,
        stored_at <= now,
    ensures
        super::valid_text(super::stored(m, call_id, s, stored_at), other, now)
            == super::valid_text(m, other, now),
        super::valid_text(m.remove(call_id), other, now) == super::valid_text(m, other, now),
{
}

/// To drop what has expired changes nothing of what is valid.
pub proof fn law_purge_keeps_valid(m: Entries, call_id: Seq<char>, at: u128, now: u128)
    requires
        at <= now,
    ensures
        super::valid_text(super::purged(m, at), call_id, now) == super::valid_text(
            m,
            call_id,
            now,
        ),
{
}

/// A text is valid for an hour from when it was stored.
pub proof fn law_valid_for_an_hour(stored_at: u128, now: u128)
    ensures
        super::is_fresh(stored_at, now) <==> now - stored_at < 60 * 60 * 1000000000,
{
}

/// What a store holds: to store a text drops what has expired, and to look one up gives the text
/// that was stored, unless it has expired.
pub proof fn law_store_holds(
    m: Entries,
    call_id: Seq<char>,
    s: Seq<char>,
    now: u128,
    other: Seq<char>,
)
    ensures
        ({
            let after = super::stored(m, call_id, s, now);
            let lasting = m.contains_key(other) && now - m[other].1 < 60 * 60 * 1000000000;
            &&& after.contains_key(call_id)
            &&& after[call_id] == (s, now)
            &&& other != call_id ==> (after.contains_key(other) <==> lasting)
            &&& other != call_id && lasting ==> after[other] == m[other]
            &&& super::purged(m, now).contains_key(other) <==> lasting
            &&& lasting ==> super::purged(m, now)[other] == m[other]
            &&& lasting ==> super::valid_text(m, other, now) == Some(m[other].0)
            &&& !lasting ==> super::valid_text(m, other, now) is None
        }),
{
}

/// The texts that a stream keeps are stored one by one.
pub proof fn law_kept_one_by_one(
    m: Entries,
    saves: Seq<(Seq<char>, Seq<char>)>,
    call_id: Seq<char>,
    s: Seq<char>,
    now: u128,
)
    ensures
        completion::kept(m, saves.push((call_id, s)), now) == super::stored(
            completion::kept(m, saves, now),
            call_id,
            s,
            now,
        ),
        completion::kept(m, Seq::empty(), now) == m,
{
    assert(saves.push((call_id, s)).drop_last() =~= saves);
    assert(saves.push((call_id, s)).last() == (call_id, s));
}

// ---------------------------------------------------------------------------------------------
// From a stream to the next request
// ---------------------------------------------------------------------------------------------

/// The texts that a stream keeps are found, the last one where several were kept for one call.
pub proof fn law_kept_is_found(
    m: Entries,
    saves: Seq<(Seq<char>, Seq<char>)>,
    i: int,
    kept_at: u128,
    now: u128,
)
    requires
        0 <= i < saves.len(),
        forall|j: int| i < j < saves.len() ==> (#[trigger] saves[j]).0 != saves[i].0,
        kept_at <= now,
        super::is_fresh(kept_at, now),
    ensures
        super::valid_text(completion::kept(m, saves, kept_at), saves[i].0, now) == Some(
            saves[i].1,
        ),
    decreases saves.len(),
{
    let last = saves.len() - 1;
    let before = completion::kept(m, saves.drop_last(), kept_at);
    if i == last {
        law_stored_is_found(before, saves[i].0, saves[i].1, kept_at, now);
    } else {
        assert(saves.drop_last()[i] == saves[i]);
        assert forall|j: int| i < j < saves.drop_last().len() implies (
        #[trigger] saves.drop_last()[j]).0 != saves.drop_last()[i].0 by {
            assert(saves.drop_last()[j] == saves[j]);
        }
        law_kept_is_found(m, saves.drop_last(), i, kept_at, now);
        assert(saves[last].0 != saves[i].0);
        law_others_stay(before, saves[last].0, saves[last].1, saves[i].0, kept_at, now);
    }
}

proof fn lemma_calls_closed_saves(
    s: StepV,
    calls: Seq<CallV>,
    reasoning: Seq<char>,
    n: int,
    k: int,
)
    requires
        reasoning.len() > 0,
        0 <= k < n <= calls.len(),
        calls[k].output_index is Some,
    ensures
        s.calls_closed(calls, Some(reasoning), n).saves.contains((calls[k].call_id, reasoning)),
    decreases n,
{
    let before = s.calls_closed(calls, Some(reasoning), n - 1);
    let after = s.calls_closed(calls, Some(reasoning), n);
    let pair = (calls[k].call_id, reasoning);
    if k == n - 1 {
        assert(after.saves[before.saves.len() as int] == pair);
    } else {
        lemma_calls_closed_saves(s, calls, reasoning, n - 1, k);
        let x = choose|x: int| 0 <= x < before.saves.len() && before.saves[x] == pair;
        assert(after.saves[x] == pair);
    }
}

/// Each announced function call of a stream gets the reasoning text that came before it, when the
/// calls are closed.
pub proof fn law_calls_keep_reasoning(s: StepV, reasoning: Seq<char>, k: int)
    requires
        s.stream.reasoning.for_func_calls == Some(reasoning),
        reasoning.len() > 0,
        0 <= k < s.stream.func.calls.len(),
        s.stream.func.calls[k].output_index is Some,
    ensures
        s.funcs_closed().saves.contains((s.stream.func.calls[k].call_id, reasoning)),
{
    let calls = s.stream.func.calls;
    let taken = StepV {
        stream: StreamV {
            reasoning: super::stream::ReasoningV {
                for_func_calls: None,
                ..s.stream.reasoning
            },
            ..s.stream
        },
        ..s
    };
    lemma_calls_closed_saves(taken, calls, reasoning, calls.len() as int, k);
}

/// The reasoning text that is valid for the first of the waiting function calls stands in the
/// assistant message for them, unless the request itself holds one.
pub proof fn law_reasoning_returns(
    t: TurnV,
    store: Entries,
    now: u128,
    reasoning: Seq<char>,
)
    requires
        t.calls.len() > 0,
        t.content_reasoning is None,
        t.reasoning is None,
        super::valid_text(store, t.calls[0].call_id, now) == Some(reasoning),
        reasoning.len() > 0,
    ensures
        t.flushed(store, now).messages.last().text_at("reasoning_content"@) == Some(reasoning),
        t.flushed(store, now).messages.len() == t.messages.len() + 1,
{
}

/// The reasoning that a stream kept for a function call comes back with the next request that
/// holds the call and its output: it stands in the assistant message before the output.
pub proof fn law_reasoning_round_trip(
    m: Entries,
    saves: Seq<(Seq<char>, Seq<char>)>,
    i: int,
    kept_at: u128,
    now: u128,
    messages: Seq<JsonV>,
    call: JsonV,
    output: JsonV,
)
    requires
        0 <= i < saves.len(),
        forall|j: int| i < j < saves.len() ==> (#[trigger] saves[j]).0 != saves[i].0,
        saves[i].1.len() > 0,
        kept_at <= now,
        super::is_fresh(kept_at, now),
        saves[i].0.len() > 0,
        request::item_type(call) == "function_call"@,
        call.text_at("call_id"@) == Some(saves[i].0),
        request::item_type(output) == "function_call_output"@,
    ensures
        ({
            let store = completion::kept(m, saves, kept_at);
            let t = TurnV::start(messages).after(call, store, now).after(output, store, now);
            &&& t.messages.len() == messages.len() + 2
            &&& t.messages[messages.len() as int].text_at("reasoning_content"@) == Some(
                saves[i].1,
            )
            &&& t.messages.last() == request::tool_message(output)
        }),
{
    law_kept_is_found(m, saves, i, kept_at, now);
    lemma_item_types();
    let store = completion::kept(m, saves, kept_at);
    let t = TurnV::start(messages).after(call, store, now);
    law_reasoning_returns(t, store, now, saves[i].1);
}

proof fn lemma_item_types()
    ensures
        "function_call"@ != "function_call_output"@,
        "function_call"@ != "message"@,
        "function_call"@ != "reasoning"@,
        "function_call_output"@ != "message"@,
        "function_call_output"@ != "reasoning"@,
        "function_call"@.len() > 0,
        "function_call_output"@.len() > 0,
        "reasoning"@ != "message"@,
{
    reveal_strlit("function_call");
    reveal_strlit("function_call_output");
    reveal_strlit("message");
    reveal_strlit("reasoning");
    assert("function_call"@.len() == 13);
    assert("function_call_output"@.len() == 20);
    assert("message"@.len() == 7);
    assert("reasoning"@.len() == 9);
}

// ---------------------------------------------------------------------------------------------
// Requests
// ---------------------------------------------------------------------------------------------

proof fn lemma_role_names()
    ensures
        "user"@ != "assistant"@,
        "user"@ != "tool"@,
        "user"@ != "system"@,
        "assistant"@ != "tool"@,
        "assistant"@ != "system"@,
        "tool"@ != "system"@,
        "developer"@ != "user"@,
        "developer"@ != "assistant"@,
        "developer"@ != "tool"@,
        "developer"@ != "system"@,
{
    reveal_strlit("user");
    reveal_strlit("assistant");
    reveal_strlit("tool");
    reveal_strlit("system");
    reveal_strlit("developer");
    assert("user"@.len() == 4 && "user"@[0] == 'u');
    assert("tool"@.len() == 4 && "tool"@[0] == 't');
    assert("system"@.len() == 6);
    assert("assistant"@.len() == 9 && "assistant"@[0] == 'a');
    assert("developer"@.len() == 9 && "developer"@[0] == 'd');
}

/// A role is one of four, and a role that is one of them stays as it is.
pub proof fn law_roles_are_known(raw: Seq<char>)
    ensures
        ({
            let role = request::normal_role(raw);
            &&& role == "user"@ || role == "assistant"@ || role == "system"@ || role == "tool"@
            &&& request::normal_role(role) == role
        }),
{
}

/// A reasoning effort is one of six, and one of them stays as it is.
pub proof fn law_efforts_are_known(effort: Seq<char>)
    ensures
        ({
            let e = request::normal_effort(effort);
            &&& e == "none"@ || e == "auto"@ || e == "low"@ || e == "medium"@ || e == "high"@
                || e == "xhigh"@
            &&& request::normal_effort(e) == e
        }),
{
}

/// One sequence of messages begins with another.
pub open spec fn extends(longer: Seq<JsonV>, shorter: Seq<JsonV>) -> bool {
    shorter.len() <= longer.len() && longer.take(shorter.len() as int) == shorter
}

proof fn lemma_extends_push(longer: Seq<JsonV>, shorter: Seq<JsonV>, m: JsonV)
    requires
        extends(longer, shorter),
    ensures
        extends(longer.push(m), shorter),
{
    assert(longer.push(m).take(shorter.len() as int) =~= longer.take(shorter.len() as int));
}

proof fn lemma_after_items_extend(
    messages: Seq<JsonV>,
    items: Seq<JsonV>,
    n: int,
    store: Entries,
    now: u128,
)
    requires
        0 <= n <= items.len(),
    ensures
        extends(request::after_items(messages, items, n, store, now).0.messages, messages),
    decreases n,
{
    if n == 0 {
        assert(messages.take(messages.len() as int) =~= messages);
    } else {
        lemma_after_items_extend(messages, items, n - 1, store, now);
        let (t, s) = request::after_items(messages, items, n - 1, store, now);
        let item = items[n - 1];
        lemma_extends_push(t.messages, messages, request::chat_message(item, None));
        lemma_extends_push(t.messages, messages, t.waiting_message(s, now));
        let f = t.flushed(s, now);
        lemma_extends_push(f.messages, messages, request::tool_message(item));
    }
}

/// The instructions of a request come first among the messages, as a system message.
pub proof fn law_instructions_come_first(root: JsonV, store: Entries, now: u128)
    ensures
        extends(
            request::request_messages(root, store, now).0,
            request::instruction_messages(root),
        ),
        (root.text_at("instructions"@) matches Some(s) && s.len() > 0) ==> ({
            let messages = request::request_messages(root, store, now).0;
            &&& messages.len() > 0
            &&& messages[0].text_at("role"@) == Some("system"@)
            &&& messages[0].get("content"@) == root.get("instructions"@)
        }),
{
    let first = request::instruction_messages(root);
    let all = request::request_messages(root, store, now).0;
    assert(first.take(first.len() as int) =~= first);
    if let Some(input) = root.get("input"@) {
        match input {
            JsonV::Text(s) => {
                let user = JsonV::object().with("role"@, JsonV::Text("user"@)).with(
                    "content"@,
                    JsonV::Text(s),
                );
                lemma_extends_push(first, first, user);
            },
            JsonV::Array(items) => {
                let n = items.len() as int;
                lemma_after_items_extend(first, items, n, store, now);
                let t = request::after_items(first, items, n, store, now).0;
                if let Some(c) = t.content {
                    let last = request::with_reasoning(
                        JsonV::object().with("role"@, JsonV::Text("assistant"@)).with(
                            "content"@,
                            JsonV::Text(c),
                        ),
                        t.content_reasoning,
                    );
                    lemma_extends_push(t.messages, first, last);
                }
            },
            _ => {},
        }
    }
    assert(extends(all, first));
    if let Some(s) = root.text_at("instructions"@) {
        if s.len() > 0 {
            reveal_strlit("role");
            reveal_strlit("content");
            assert("role"@.len() == 4);
            assert("content"@.len() == 7);
            assert(all.take(1)[0] == first[0]);
        }
    }
}

/// The tools of a request are left out if and only if none of them is a function with a name.
pub proof fn law_tools_left_out_if_none(tools: Seq<JsonV>)
    ensures
        request::chat_tools(tools).len() == 0 <==> forall|i: int|
            0 <= i < tools.len() ==> request::chat_tool(#[trigger] tools[i]) is None,
    decreases tools.len(),
{
    if tools.len() > 0 {
        law_tools_left_out_if_none(tools.drop_last());
        let last = tools.len() - 1;
        assert(tools.last() == tools[last]);
        if request::chat_tools(tools).len() == 0 {
            assert forall|i: int| 0 <= i < tools.len() implies request::chat_tool(
                #[trigger] tools[i],
            ) is None by {
                if i < last {
                    assert(tools.drop_last()[i] == tools[i]);
                }
            }
        } else if request::chat_tool(tools.last()) is None {
            let i = choose|i: int|
                0 <= i < tools.drop_last().len() && request::chat_tool(
                    #[trigger] tools.drop_last()[i],
                ) is Some;
            assert(tools.drop_last()[i] == tools[i]);
        } else {
            assert(request::chat_tool(tools[last]) is Some);
        }
    }
}

/// An object with these members, where they have a value.
pub open spec fn with_all(members: Seq<(Seq<char>, Option<JsonV>)>) -> JsonV
    decreases members.len(),
{
    if members.len() == 0 {
        JsonV::object()
    } else {
        with_all(members.drop_last()).with_some(members.last().0, members.last().1)
    }
}

proof fn lemma_with_all(members: Seq<(Seq<char>, Option<JsonV>)>, i: int)
    requires
        0 <= i < members.len(),
        forall|j: int, k: int|
            0 <= j < k < members.len() ==> (#[trigger] members[j]).0 != (#[trigger] members[k]).0,
    ensures
        with_all(members) is Object,
        with_all(members).get(members[i].0) == members[i].1,
    decreases members.len(),
{
    let rest = members.drop_last();
    let last = members.len() - 1;
    assert forall|j: int, k: int| 0 <= j < k < rest.len() implies (#[trigger] rest[j]).0 != (
    #[trigger] rest[k]).0 by {
        assert(rest[j] == members[j] && rest[k] == members[k]);
    }
    if i < last {
        assert(rest[i] == members[i]);
        lemma_with_all(rest, i);
        assert(members[i].0 != members[last].0);
    } else {
        lemma_with_all_absent(rest, members[last].0);
    }
}

proof fn lemma_with_all_absent(members: Seq<(Seq<char>, Option<JsonV>)>, key: Seq<char>)
    requires
        forall|j: int| 0 <= j < members.len() ==> (#[trigger] members[j]).0 != key,
    ensures
        with_all(members) is Object,
        with_all(members).get(key) is None,
    decreases members.len(),
{
    if members.len() > 0 {
        let rest = members.drop_last();
        assert forall|j: int| 0 <= j < rest.len() implies (#[trigger] rest[j]).0 != key by {
            assert(rest[j] == members[j]);
        }
        lemma_with_all_absent(rest, key);
        assert(members.last() == members[members.len() - 1]);
    }
}

/// The members of a chat request.
spec fn request_members(
    root: JsonV,
    model: Seq<char>,
    stream: bool,
    messages: Seq<JsonV>,
) -> Seq<(Seq<char>, Option<JsonV>)> {
    seq![
        ("model"@, Some(JsonV::Text(model))),
        ("stream"@, Some(JsonV::Bool(stream))),
        (
            "stream_options"@,
            if stream {
                Some(JsonV::object().with("include_usage"@, JsonV::Bool(true)))
            } else {
                None
            },
        ),
        ("max_tokens"@, root.get("max_output_tokens"@)),
        ("parallel_tool_calls"@, root.get("parallel_tool_calls"@)),
        ("temperature"@, root.get("temperature"@)),
        ("top_p"@, root.get("top_p"@)),
        ("user"@, root.get("user"@)),
        ("messages"@, Some(JsonV::Array(messages))),
        ("tools"@, request::request_tools(root)),
        ("tool_choice"@, root.get("tool_choice"@)),
        ("reasoning_effort"@, request::request_effort(root)),
    ]
}

proof fn lemma_with_all_take(members: Seq<(Seq<char>, Option<JsonV>)>, k: int)
    requires
        0 < k <= members.len(),
    ensures
        with_all(members.take(k)) == with_all(members.take(k - 1)).with_some(
            members[k - 1].0,
            members[k - 1].1,
        ),
{
    assert(members.take(k).drop_last() =~= members.take(k - 1));
    assert(members.take(k).last() == members[k - 1]);
}

proof fn lemma_request_members(
    root: JsonV,
    model: Seq<char>,
    stream: bool,
    messages: Seq<JsonV>,
)
    ensures
        with_all(request_members(root, model, stream, messages)) == request::chat_request(
            root,
            model,
            stream,
            messages,
        ),
        forall|j: int, k: int|
            0 <= j < k < 12 ==> (#[trigger] request_members(root, model, stream, messages)[j]).0
                != (#[trigger] request_members(root, model, stream, messages)[k]).0,
{
    let m = request_members(root, model, stream, messages);
    let none: Seq<(Seq<char>, Option<JsonV>)> = Seq::empty();
    assert(with_all(none) == JsonV::object());
    assert(m.take(0) =~= none);
    lemma_with_all_take(m, 1);
    lemma_with_all_take(m, 2);
    lemma_with_all_take(m, 3);
    lemma_with_all_take(m, 4);
    lemma_with_all_take(m, 5);
    lemma_with_all_take(m, 6);
    lemma_with_all_take(m, 7);
    lemma_with_all_take(m, 8);
    lemma_with_all_take(m, 9);
    lemma_with_all_take(m, 10);
    lemma_with_all_take(m, 11);
    lemma_with_all_take(m, 12);
    assert(m.take(12) =~= m);
    reveal_strlit("model");
    reveal_strlit("stream");
    reveal_strlit("stream_options");
    reveal_strlit("max_tokens");
    reveal_strlit("parallel_tool_calls");
    reveal_strlit("temperature");
    reveal_strlit("top_p");
    reveal_strlit("user");
    reveal_strlit("messages");
    reveal_strlit("tools");
    reveal_strlit("tool_choice");
    reveal_strlit("reasoning_effort");
    assert("model"@.len() == 5 && "model"@[0] == 'm');
    assert("stream"@.len() == 6);
    assert("stream_options"@.len() == 14);
    assert("max_tokens"@.len() == 10);
    assert("parallel_tool_calls"@.len() == 19);
    assert("temperature"@.len() == 11 && "temperature"@[1] == 'e');
    assert("top_p"@.len() == 5 && "top_p"@[0] == 't' && "top_p"@[2] == 'p');
    assert("user"@.len() == 4);
    assert("messages"@.len() == 8);
    assert("tools"@.len() == 5 && "tools"@[0] == 't' && "tools"@[2] == 'o');
    assert("tool_choice"@.len() == 11 && "tool_choice"@[1] == 'o');
    assert("reasoning_effort"@.len() == 16);
}

/// A chat request names the mapped model, asks for token counts with a stream, passes the options
/// of the request on, and leaves out what the request leaves out.
pub proof fn law_options_pass_through(
    root: JsonV,
    model: Seq<char>,
    stream: bool,
    messages: Seq<JsonV>,
)
    ensures
        ({
            let chat = request::chat_request(root, model, stream, messages);
            &&& chat.get("model"@) == Some(JsonV::Text(model))
            &&& chat.get("stream"@) == Some(JsonV::Bool(stream))
            &&& chat.get("stream_options"@) is Some <==> stream
            &&& chat.get("max_tokens"@) == root.get("max_output_tokens"@)
            &&& chat.get("parallel_tool_calls"@) == root.get("parallel_tool_calls"@)
            &&& chat.get("temperature"@) == root.get("temperature"@)
            &&& chat.get("top_p"@) == root.get("top_p"@)
            &&& chat.get("user"@) == root.get("user"@)
            &&& chat.get("messages"@) == Some(JsonV::Array(messages))
            &&& chat.get("tools"@) == request::request_tools(root)
            &&& chat.get("tool_choice"@) == root.get("tool_choice"@)
            &&& chat.get("reasoning_effort"@) == request::request_effort(root)
        }),
{
    let m = request_members(root, model, stream, messages);
    lemma_request_members(root, model, stream, messages);
    lemma_with_all(m, 0);
    lemma_with_all(m, 1);
    lemma_with_all(m, 2);
    lemma_with_all(m, 3);
    lemma_with_all(m, 4);
    lemma_with_all(m, 5);
    lemma_with_all(m, 6);
    lemma_with_all(m, 7);
    lemma_with_all(m, 8);
    lemma_with_all(m, 9);
    lemma_with_all(m, 10);
    lemma_with_all(m, 11);
}

/// What a chat request says of its stream.
pub(super) proof fn lemma_stream_options(
    root: JsonV,
    model: Seq<char>,
    stream: bool,
    messages: Seq<JsonV>,
)
    ensures
        request::chat_request(root, model, stream, messages).get("stream_options"@) == (
        if stream {
            Some(JsonV::object().with("include_usage"@, JsonV::Bool(true)))
        } else {
            None
        }),
{
    let m = request_members(root, model, stream, messages);
    lemma_request_members(root, model, stream, messages);
    lemma_with_all(m, 2);
}

/// The role of a message.
pub open spec fn role(m: JsonV) -> Option<Seq<char>> {
    m.text_at("role"@)
}

/// Each tool message stands behind an assistant message or another tool message.
pub open spec fn outputs_follow(messages: Seq<JsonV>) -> bool {
    forall|i: int|
        0 <= i < messages.len() && role(#[trigger] messages[i]) == Some("tool"@) ==> i > 0 && (
        role(messages[i - 1]) == Some("assistant"@) || role(messages[i - 1]) == Some("tool"@))
}

/// The last message is one that a tool message may stand behind.
spec fn takes_outputs(messages: Seq<JsonV>) -> bool {
    messages.len() > 0 && (role(messages.last()) == Some("assistant"@) || role(messages.last())
        == Some("tool"@))
}

proof fn lemma_member_names()
    ensures
        "role"@ != "content"@,
        "role"@ != "tool_calls"@,
        "role"@ != "tool_call_id"@,
        "role"@ != "reasoning_content"@,
        "tool_calls"@ != "content"@,
        "tool_calls"@ != "tool_call_id"@,
        "tool_calls"@ != "reasoning_content"@,
{
    reveal_strlit("role");
    reveal_strlit("content");
    reveal_strlit("tool_calls");
    reveal_strlit("tool_call_id");
    reveal_strlit("reasoning_content");
    assert("role"@.len() == 4);
    assert("content"@.len() == 7);
    assert("tool_calls"@.len() == 10);
    assert("tool_call_id"@.len() == 12);
    assert("reasoning_content"@.len() == 17);
}

proof fn lemma_follow_push(messages: Seq<JsonV>, m: JsonV)
    requires
        outputs_follow(messages),
        role(m) == Some("tool"@) ==> takes_outputs(messages),
    ensures
        outputs_follow(messages.push(m)),
{
    let all = messages.push(m);
    assert forall|i: int|
        0 <= i < all.len() && role(#[trigger] all[i]) == Some("tool"@) implies i > 0 && (role(
        all[i - 1],
    ) == Some("assistant"@) || role(all[i - 1]) == Some("tool"@)) by {
        if i < messages.len() {
            assert(all[i] == messages[i]);
        } else {
            assert(all[i - 1] == messages.last());
        }
    }
}

/// An item is a message of that role.
pub open spec fn is_message_of(item: JsonV, r: Seq<char>) -> bool {
    request::is_message(item) && request::normal_role(request::raw_role(item)) == r
}

proof fn lemma_outputs_follow(
    messages: Seq<JsonV>,
    items: Seq<JsonV>,
    n: int,
    store: Entries,
    now: u128,
)
    requires
        0 <= n <= items.len(),
        outputs_follow(messages),
        forall|i: int| 0 <= i < items.len() ==> !is_message_of(#[trigger] items[i], "tool"@),
    ensures
        ({
            let t = request::after_items(messages, items, n, store, now).0;
            outputs_follow(t.messages) && (t.active ==> takes_outputs(t.messages))
        }),
    decreases n,
{
    if n > 0 {
        lemma_outputs_follow(messages, items, n - 1, store, now);
        lemma_member_names();
        lemma_role_names();
        let (t, s) = request::after_items(messages, items, n - 1, store, now);
        let item = items[n - 1];
        if request::is_message(item) {
            if !is_message_of(item, "assistant"@) {
                assert(!is_message_of(item, "tool"@));
                let m = request::chat_message(item, None);
                assert(role(m) == Some(request::normal_role(request::raw_role(item))));
                lemma_follow_push(t.messages, m);
            }
        } else if request::item_type(item) == "function_call_output"@ {
            let f = t.flushed(s, now);
            if t.has_waiting() {
                let m = t.waiting_message(s, now);
                assert(role(m) == Some("assistant"@));
                lemma_follow_push(t.messages, m);
                assert(takes_outputs(f.messages));
            }
            if f.active {
                let m = request::tool_message(item);
                assert(role(m) == Some("tool"@));
                lemma_follow_push(f.messages, m);
            }
        }
    }
}

/// The output of a function call stands behind an assistant message, with nothing but other
/// outputs between them. (A request may hold messages that call themselves tool messages; it is
/// left out.)
pub proof fn law_outputs_follow_assistant(root: JsonV, store: Entries, now: u128)
    requires
        root.get("input"@) matches Some(JsonV::Array(items)) ==> forall|i: int|
            0 <= i < items.len() ==> !is_message_of(#[trigger] items[i], "tool"@),
    ensures
        outputs_follow(request::request_messages(root, store, now).0),
{
    lemma_member_names();
    lemma_role_names();
    let first = request::instruction_messages(root);
    if first.len() > 0 {
        assert(role(first[0]) == Some("system"@));
    }
    assert(outputs_follow(first));
    if let Some(input) = root.get("input"@) {
        match input {
            JsonV::Text(s) => {
                let user = JsonV::object().with("role"@, JsonV::Text("user"@)).with(
                    "content"@,
                    JsonV::Text(s),
                );
                assert(role(user) == Some("user"@));
                lemma_follow_push(first, user);
            },
            JsonV::Array(items) => {
                let n = items.len() as int;
                lemma_outputs_follow(first, items, n, store, now);
                let t = request::after_items(first, items, n, store, now).0;
                if let Some(c) = t.content {
                    let last = request::with_reasoning(
                        JsonV::object().with("role"@, JsonV::Text("assistant"@)).with(
                            "content"@,
                            JsonV::Text(c),
                        ),
                        t.content_reasoning,
                    );
                    assert(role(last) == Some("assistant"@));
                    lemma_follow_push(t.messages, last);
                }
            },
            _ => {},
        }
    }
}

/// None of the messages holds function calls.
pub open spec fn without_calls(messages: Seq<JsonV>) -> bool {
    forall|i: int| 0 <= i < messages.len() ==> (#[trigger] messages[i]).get("tool_calls"@) is None
}

proof fn lemma_without_calls(
    messages: Seq<JsonV>,
    items: Seq<JsonV>,
    n: int,
    store: Entries,
    now: u128,
)
    requires
        0 <= n <= items.len(),
        without_calls(messages),
        forall|i: int|
            0 <= i < items.len() ==> request::is_message(#[trigger] items[i])
                || request::item_type(items[i]) != "function_call_output"@,
    ensures
        without_calls(request::after_items(messages, items, n, store, now).0.messages),
    decreases n,
{
    if n > 0 {
        lemma_without_calls(messages, items, n - 1, store, now);
        lemma_member_names();
        let t = request::after_items(messages, items, n - 1, store, now).0;
        let item = items[n - 1];
        let m = request::chat_message(item, None);
        assert(m.get("tool_calls"@) is None);
        assert(without_calls(t.messages.push(m)));
    }
}

/// Function calls that no output answers are dropped: without an output, no message holds calls.
pub proof fn law_calls_need_outputs(root: JsonV, store: Entries, now: u128)
    requires
        root.get("input"@) matches Some(JsonV::Array(items)) ==> forall|i: int|
            0 <= i < items.len() ==> request::is_message(#[trigger] items[i])
                || request::item_type(items[i]) != "function_call_output"@,
    ensures
        without_calls(request::request_messages(root, store, now).0),
{
    lemma_member_names();
    let first = request::instruction_messages(root);
    assert(without_calls(first));
    if let Some(JsonV::Array(items)) = root.get("input"@) {
        let n = items.len() as int;
        lemma_without_calls(first, items, n, store, now);
        let t = request::after_items(first, items, n, store, now).0;
        if let Some(c) = t.content {
            let last = request::with_reasoning(
                JsonV::object().with("role"@, JsonV::Text("assistant"@)).with(
                    "content"@,
                    JsonV::Text(c),
                ),
                t.content_reasoning,
            );
            assert(last.get("tool_calls"@) is None);
        }
    }
}

/// An item is a function call that has an identifier.
pub open spec fn is_call(item: JsonV) -> bool {
    &&& request::item_type(item) == "function_call"@
    &&& item.text_at("call_id"@) matches Some(id)
    &&& id.len() > 0
}

/// Function calls that stand one behind the other are merged: they wait together, in order, and
/// are written as one assistant message.
pub proof fn law_calls_are_merged(
    messages: Seq<JsonV>,
    items: Seq<JsonV>,
    n: int,
    store: Entries,
    now: u128,
)
    requires
        0 < n <= items.len(),
        forall|i: int| 0 <= i < n ==> is_call(#[trigger] items[i]),
    ensures
        ({
            let t = request::after_items(messages, items, n, store, now).0;
            &&& t.calls.len() == n
            &&& forall|i: int|
                0 <= i < n ==> Some((#[trigger] t.calls[i]).call_id) == items[i].text_at(
                    "call_id"@,
                )
            &&& t.flushed(store, now).messages.len() == messages.len() + 1
            &&& t.flushed(store, now).messages.last().get("tool_calls"@) == Some(
                JsonV::Array(request::tool_calls(t.calls)),
            )
        }),
{
    lemma_calls_wait(messages, items, n, store, now);
    lemma_member_names();
}

proof fn lemma_calls_wait(
    messages: Seq<JsonV>,
    items: Seq<JsonV>,
    n: int,
    store: Entries,
    now: u128,
)
    requires
        0 <= n <= items.len(),
        forall|i: int| 0 <= i < n ==> is_call(#[trigger] items[i]),
    ensures
        ({
            let t = request::after_items(messages, items, n, store, now).0;
            &&& t.messages == messages
            &&& t.calls.len() == n
            &&& forall|i: int|
                0 <= i < n ==> Some((#[trigger] t.calls[i]).call_id) == items[i].text_at(
                    "call_id"@,
                )
        }),
    decreases n,
{
    if n > 0 {
        lemma_calls_wait(messages, items, n - 1, store, now);
        lemma_item_types();
        assert(is_call(items[n - 1]));
    }
}

// ---------------------------------------------------------------------------------------------
// Whole responses
// ---------------------------------------------------------------------------------------------

/// The token counts of a response add up: no token is counted twice or left out.
pub proof fn law_response_tokens_add_up(u: Usage)
    requires
        u.prompt_tokens matches Some(input) && u.completion_tokens matches Some(output) && 0
            <= output && input + output <= i64::MAX && (match u.cached_tokens {
            Some(c) => 0 <= c <= input,
            None => true,
        }),
    ensures
        ({
            let r = response::converted_usage(u);
            &&& r.total_tokens == u.prompt_tokens->0 + u.completion_tokens->0
            &&& r.output_tokens == u.completion_tokens->0
            &&& u.cached_tokens is None ==> r.input_tokens == u.prompt_tokens->0
            &&& u.cached_tokens matches Some(c) ==> r.input_tokens + c == u.prompt_tokens->0
        }),
{
}

/// Function calls that have an identifier come out one by one, in order; the others are left out.
pub proof fn law_calls_with_id_come_out(calls: Seq<ToolCallV>)
    ensures
        response::call_outputs(calls).len() <= calls.len(),
        (forall|i: int| 0 <= i < calls.len() ==> (#[trigger] calls[i]).id is Some) ==> ({
            let items = response::call_outputs(calls);
            items.len() == calls.len() && forall|i: int|
                0 <= i < calls.len() ==> (#[trigger] items[i]).call_id == calls[i].id
        }),
    decreases calls.len(),
{
    if calls.len() > 0 {
        let rest = calls.drop_last();
        law_calls_with_id_come_out(rest);
        if forall|i: int| 0 <= i < calls.len() ==> (#[trigger] calls[i]).id is Some {
            assert forall|i: int| 0 <= i < rest.len() implies (#[trigger] rest[i]).id is Some by {
                assert(rest[i] == calls[i]);
            }
            assert(calls[calls.len() - 1].id is Some);
            let items = response::call_outputs(calls);
            assert forall|i: int| 0 <= i < calls.len() implies (#[trigger] items[i]).call_id
                == calls[i].id by {
                if i < rest.len() {
                    assert(items[i] == response::call_outputs(rest)[i]);
                    assert(rest[i] == calls[i]);
                }
            }
        }
    }
}

} // verus!

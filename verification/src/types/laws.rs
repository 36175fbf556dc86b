//! How documents of the upstream API are read.

use vstd::prelude::*;
use vstd::string::*;

use super::chat;
use super::chat::MessageContentV;
use super::Usage;
use crate::json::JsonV;

verus! {

// ---------------------------------------------------------------------------------------------
// Values
// ---------------------------------------------------------------------------------------------

/// A member that was set is found, and no other member changes.
pub proof fn law_set_is_found(v: JsonV, key: Seq<char>, x: JsonV, other: Seq<char>)
    requires
        v is Object,
    ensures
        v.with(key, x) is Object,
        v.with(key, x).get(key) == Some(x),
        other != key ==> v.with(key, x).get(other) == v.get(other),
        v.with_some(key, Some(x)) == v.with(key, x),
        v.with_some(key, None) == v,
        JsonV::object() is Object,
        JsonV::object().get(key) is None,
{
}

/// Members are found by name in objects, and nowhere else.
pub proof fn law_members_by_name(m: Map<Seq<char>, JsonV>, v: JsonV, key: Seq<char>)
    ensures
        m.contains_key(key) ==> JsonV::Object(m).get(key) == Some(m[key]),
        !m.contains_key(key) ==> JsonV::Object(m).get(key) is None,
        !(v is Object) ==> v.get(key) is None,
{
}

/// What a value is taken for.
pub proof fn law_kinds_of_values(v: JsonV, key: Seq<char>, s: Seq<char>, b: bool, i: int)
    ensures
        v.as_text() == Some(s) <==> v == JsonV::Text(s),
        v.as_bool() == Some(b) <==> v == JsonV::Bool(b),
        v is Array ==> v.as_array() == Some(v->Array_0),
        !(v is Array) ==> v.as_array() is None,
        i64::MIN <= i <= i64::MAX ==> (v.as_i64() == Some(i as i64) <==> v == JsonV::Int(i)),
        v == JsonV::Int(i) && !(i64::MIN <= i <= i64::MAX) ==> v.as_i64() is None,
        !(v is Int) ==> v.as_i64() is None,
        v.text_at(key) == Some(s) <==> v.get(key) == Some(JsonV::Text(s)),
{
}

// ---------------------------------------------------------------------------------------------
// Members
// ---------------------------------------------------------------------------------------------

/// The member is missing, or null.
pub open spec fn lacks(v: JsonV, key: Seq<char>) -> bool {
    v.get(key) is None || v.get(key) == Some(JsonV::Null)
}

/// The member is a text, or missing, or null.
pub open spec fn text_fits(v: JsonV, key: Seq<char>) -> bool {
    lacks(v, key) || (v.get(key) matches Some(x) && x is Text)
}

/// The member is an integer of 64 bits with a sign, or missing, or null.
pub open spec fn int_fits(v: JsonV, key: Seq<char>) -> bool {
    lacks(v, key) || (v.get(key) matches Some(JsonV::Int(i)) && i64::MIN <= i <= i64::MAX)
}

/// The number is the member of that name.
pub open spec fn is_int(n: Option<i64>, v: JsonV, key: Seq<char>) -> bool {
    match n {
        Some(i) => v.get(key) == Some(JsonV::Int(i as int)),
        None => lacks(v, key),
    }
}

/// The member is an object in which the number of that name fits, or missing, or null.
pub open spec fn detail_fits(v: JsonV, outer: Seq<char>, key: Seq<char>) -> bool {
    lacks(v, outer) || (v.get(outer) matches Some(d) && d is Object && int_fits(d, key))
}

/// The number is the one of that name in the member.
pub open spec fn is_detail(n: Option<i64>, v: JsonV, outer: Seq<char>, key: Seq<char>) -> bool {
    if lacks(v, outer) {
        n is None
    } else {
        v.get(outer) matches Some(d) && is_int(n, d, key)
    }
}

/// Token counts are read under the names that the upstream API has for them.
pub proof fn law_usage_is_read(v: JsonV)
    ensures
        ({
            let r = super::usage_of(v);
            &&& r is Some <==> {
                &&& v is Object
                &&& int_fits(v, "prompt_tokens"@)
                &&& int_fits(v, "completion_tokens"@)
                &&& int_fits(v, "total_tokens"@)
                &&& detail_fits(v, "prompt_tokens_details"@, "cached_tokens"@)
                &&& detail_fits(v, "completion_tokens_details"@, "reasoning_tokens"@)
            }
            &&& r matches Some(u) ==> {
                &&& is_int(u.prompt_tokens, v, "prompt_tokens"@)
                &&& is_int(u.completion_tokens, v, "completion_tokens"@)
                &&& is_int(u.total_tokens, v, "total_tokens"@)
                &&& is_detail(u.cached_tokens, v, "prompt_tokens_details"@, "cached_tokens"@)
                &&& is_detail(
                    u.reasoning_tokens,
                    v,
                    "completion_tokens_details"@,
                    "reasoning_tokens"@,
                )
            }
        }),
{
}

/// The token counts fit, or are missing, or null.
pub open spec fn usage_fits(v: JsonV) -> bool {
    lacks(v, "usage"@) || (v.get("usage"@) matches Some(u) && super::usage_of(u) is Some)
}

/// The token counts are those of the document.
pub open spec fn is_usage(u: Option<Usage>, v: JsonV) -> bool {
    if lacks(v, "usage"@) {
        u is None
    } else {
        v.get("usage"@) matches Some(x) && super::usage_of(x) == u
    }
}

// ---------------------------------------------------------------------------------------------
// Stream chunks
// ---------------------------------------------------------------------------------------------

/// The texts of a function fit, where there is one.
pub open spec fn function_fits(v: JsonV) -> bool {
    lacks(v, "function"@) || (v.get("function"@) matches Some(f) && f is Object && text_fits(
        f,
        "name"@,
    ) && text_fits(f, "arguments"@))
}

/// The text of that name of a function.
pub open spec fn function_text(v: JsonV, key: Seq<char>) -> Option<Seq<char>> {
    match v.get("function"@) {
        Some(f) => f.text_at(key),
        None => None,
    }
}

/// A piece of a function call is read with its index, its identifier, and the name and the
/// arguments of its function.
pub proof fn law_call_piece_is_read(v: JsonV)
    ensures
        ({
            let r = super::tool_delta_of(v);
            &&& r is Some <==> {
                &&& v is Object
                &&& !lacks(v, "index"@)
                &&& int_fits(v, "index"@)
                &&& text_fits(v, "id"@)
                &&& function_fits(v)
            }
            &&& r matches Some(d) ==> {
                &&& v.get("index"@) == Some(JsonV::Int(d.index as int))
                &&& d.id == v.text_at("id"@)
                &&& d.name == function_text(v, "name"@)
                &&& d.arguments == function_text(v, "arguments"@)
            }
        }),
{
}

/// Pieces of function calls are read one by one, all or none.
pub proof fn law_call_pieces_are_read(items: Seq<JsonV>)
    ensures
        ({
            let r = super::tool_deltas_of(items);
            &&& r is Some <==> forall|i: int|
                0 <= i < items.len() ==> super::tool_delta_of(#[trigger] items[i]) is Some
            &&& r matches Some(all) ==> {
                &&& all.len() == items.len()
                &&& forall|i: int|
                    0 <= i < items.len() ==> super::tool_delta_of(items[i]) == Some(#[trigger] all[i])
            }
        }),
    decreases items.len(),
{
    if items.len() > 0 {
        let rest = items.drop_last();
        law_call_pieces_are_read(rest);
        let n = items.len() - 1;
        assert(items[n] == items.last());
        assert forall|i: int| 0 <= i < rest.len() implies rest[i] == items[i] by {
        }
        if super::tool_deltas_of(items) is Some {
            let all = super::tool_deltas_of(items)->0;
            let before = super::tool_deltas_of(rest)->0;
            assert forall|i: int| 0 <= i < items.len() implies super::tool_delta_of(items[i]) == Some(
                #[trigger] all[i],
            ) by {
                if i < rest.len() {
                    assert(all[i] == before[i]);
                    assert(rest[i] == items[i]);
                }
            }
            assert forall|i: int| 0 <= i < items.len() implies super::tool_delta_of(
                #[trigger] items[i],
            ) is Some by {
                assert(super::tool_delta_of(items[i]) == Some(all[i]));
            }
        } else if forall|i: int| 0 <= i < items.len() ==> super::tool_delta_of(#[trigger] items[i]) is Some {
            assert forall|i: int| 0 <= i < rest.len() implies super::tool_delta_of(
                #[trigger] rest[i],
            ) is Some by {
                assert(rest[i] == items[i]);
            }
            assert(super::tool_delta_of(items[n]) is Some);
            assert(false);
        }
    }
}

/// What a choice adds is read: reasoning, content and pieces of function calls.
pub proof fn law_delta_is_read(v: JsonV)
    ensures
        ({
            let r = super::delta_of(v);
            let calls = v.get("tool_calls"@);
            &&& r is Some <==> {
                &&& v is Object
                &&& text_fits(v, "reasoning_content"@)
                &&& text_fits(v, "content"@)
                &&& lacks(v, "tool_calls"@) || (calls matches Some(JsonV::Array(items))
                    && super::tool_deltas_of(items) is Some)
            }
            &&& r matches Some(d) ==> {
                &&& d.reasoning_content == v.text_at("reasoning_content"@)
                &&& d.content == v.text_at("content"@)
                &&& lacks(v, "tool_calls"@) ==> d.tool_calls is None
                &&& calls matches Some(JsonV::Array(items)) ==> d.tool_calls
                    == super::tool_deltas_of(items)
            }
        }),
{
}

/// A choice of a chunk is read: what it adds, and why it ended.
pub proof fn law_choice_is_read(v: JsonV)
    ensures
        ({
            let r = super::choice_of(v);
            &&& r is Some <==> {
                &&& v is Object
                &&& text_fits(v, "finish_reason"@)
                &&& lacks(v, "delta"@) || (v.get("delta"@) matches Some(d) && super::delta_of(
                    d,
                ) is Some)
            }
            &&& r matches Some(c) ==> {
                &&& c.finish_reason == v.text_at("finish_reason"@)
                &&& lacks(v, "delta"@) ==> c.delta is None
                &&& !lacks(v, "delta"@) ==> c.delta == super::delta_of(v.get("delta"@)->0)
            }
        }),
{
}

/// Choices of a chunk are read one by one, all or none.
pub proof fn law_choices_are_read(items: Seq<JsonV>)
    ensures
        ({
            let r = super::choices_of(items);
            &&& r is Some <==> forall|i: int|
                0 <= i < items.len() ==> super::choice_of(#[trigger] items[i]) is Some
            &&& r matches Some(all) ==> {
                &&& all.len() == items.len()
                &&& forall|i: int|
                    0 <= i < items.len() ==> super::choice_of(items[i]) == Some(#[trigger] all[i])
            }
        }),
    decreases items.len(),
{
    if items.len() > 0 {
        let rest = items.drop_last();
        law_choices_are_read(rest);
        let n = items.len() - 1;
        assert(items[n] == items.last());
        assert forall|i: int| 0 <= i < rest.len() implies rest[i] == items[i] by {
        }
        if super::choices_of(items) is Some {
            let all = super::choices_of(items)->0;
            let before = super::choices_of(rest)->0;
            assert forall|i: int| 0 <= i < items.len() implies super::choice_of(items[i]) == Some(
                #[trigger] all[i],
            ) by {
                if i < rest.len() {
                    assert(all[i] == before[i]);
                    assert(rest[i] == items[i]);
                }
            }
            assert forall|i: int| 0 <= i < items.len() implies super::choice_of(
                #[trigger] items[i],
            ) is Some by {
                assert(super::choice_of(items[i]) == Some(all[i]));
            }
        } else if forall|i: int| 0 <= i < items.len() ==> super::choice_of(#[trigger] items[i]) is Some {
            assert forall|i: int| 0 <= i < rest.len() implies super::choice_of(
                #[trigger] rest[i],
            ) is Some by {
                assert(rest[i] == items[i]);
            }
            assert(super::choice_of(items[n]) is Some);
            assert(false);
        }
    }
}

/// A chunk is read: its identifier, its time, its choices and its token counts.
pub proof fn law_chunk_is_read(v: JsonV)
    ensures
        ({
            let r = super::chunk_of(v);
            let choices = v.get("choices"@);
            &&& r is Some <==> {
                &&& v is Object
                &&& text_fits(v, "id"@)
                &&& int_fits(v, "created"@)
                &&& usage_fits(v)
                &&& lacks(v, "choices"@) || (choices matches Some(JsonV::Array(items))
                    && super::choices_of(items) is Some)
            }
            &&& r matches Some(c) ==> {
                &&& c.id == v.text_at("id"@)
                &&& is_int(c.created, v, "created"@)
                &&& is_usage(c.usage, v)
                &&& lacks(v, "choices"@) ==> c.choices is None
                &&& choices matches Some(JsonV::Array(items)) ==> c.choices == super::choices_of(
                    items,
                )
            }
        }),
{
}

// ---------------------------------------------------------------------------------------------
// Whole chat responses
// ---------------------------------------------------------------------------------------------

/// A function call is read with its identifier, and the name and the arguments of its function.
pub proof fn law_call_is_read(v: JsonV)
    ensures
        ({
            let r = chat::tool_call_of(v);
            &&& r is Some <==> {
                &&& v is Object
                &&& text_fits(v, "id"@)
                &&& !lacks(v, "function"@)
                &&& function_fits(v)
            }
            &&& r matches Some(c) ==> {
                &&& c.id == v.text_at("id"@)
                &&& c.name == function_text(v, "name"@)
                &&& c.arguments == function_text(v, "arguments"@)
            }
        }),
{
}

/// Function calls are read one by one, all or none.
pub proof fn law_calls_are_read(items: Seq<JsonV>)
    ensures
        ({
            let r = chat::tool_calls_of(items);
            &&& r is Some <==> forall|i: int|
                0 <= i < items.len() ==> chat::tool_call_of(#[trigger] items[i]) is Some
            &&& r matches Some(all) ==> {
                &&& all.len() == items.len()
                &&& forall|i: int|
                    0 <= i < items.len() ==> chat::tool_call_of(items[i]) == Some(#[trigger] all[i])
            }
        }),
    decreases items.len(),
{
    if items.len() > 0 {
        let rest = items.drop_last();
        law_calls_are_read(rest);
        let n = items.len() - 1;
        assert(items[n] == items.last());
        assert forall|i: int| 0 <= i < rest.len() implies rest[i] == items[i] by {
        }
        if chat::tool_calls_of(items) is Some {
            let all = chat::tool_calls_of(items)->0;
            let before = chat::tool_calls_of(rest)->0;
            assert forall|i: int| 0 <= i < items.len() implies chat::tool_call_of(items[i]) == Some(
                #[trigger] all[i],
            ) by {
                if i < rest.len() {
                    assert(all[i] == before[i]);
                    assert(rest[i] == items[i]);
                }
            }
            assert forall|i: int| 0 <= i < items.len() implies chat::tool_call_of(
                #[trigger] items[i],
            ) is Some by {
                assert(chat::tool_call_of(items[i]) == Some(all[i]));
            }
        } else if forall|i: int| 0 <= i < items.len() ==> chat::tool_call_of(#[trigger] items[i]) is Some {
            assert forall|i: int| 0 <= i < rest.len() implies chat::tool_call_of(
                #[trigger] rest[i],
            ) is Some by {
                assert(rest[i] == items[i]);
            }
            assert(chat::tool_call_of(items[n]) is Some);
            assert(false);
        }
    }
}

/// The texts of a message in parts: one more part adds its text where it is a text part.
pub proof fn law_text_parts_are_read(items: Seq<JsonV>, p: JsonV)
    ensures
        ({
            let a = chat::part_texts(items);
            let b = chat::part_texts(items.push(p));
            let textual = p.text_at("type"@) == Some("text"@) && p.text_at("text"@) is Some;
            &&& textual ==> b == a.push(p.text_at("text"@)->0)
            &&& !textual ==> b == a
        }),
        chat::part_texts(Seq::empty()).len() == 0,
{
    assert(items.push(p).drop_last() =~= items);
    assert(items.push(p).last() == p);
}

/// A message is read: its content, as a text or in parts, and its function calls.
pub proof fn law_message_is_read(v: JsonV)
    ensures
        ({
            let r = chat::chat_message_of(v);
            let content = v.get("content"@);
            let calls = v.get("tool_calls"@);
            &&& r is Some <==> {
                &&& v is Object
                &&& lacks(v, "content"@) || (content matches Some(x) && (x is Text || x is Array))
                &&& lacks(v, "tool_calls"@) || (calls matches Some(JsonV::Array(items))
                    && chat::tool_calls_of(items) is Some)
            }
            &&& r matches Some(m) ==> {
                &&& lacks(v, "content"@) ==> m.content is None
                &&& content matches Some(JsonV::Text(s)) ==> m.content == Some(
                    MessageContentV::Text(s),
                )
                &&& content matches Some(JsonV::Array(parts)) ==> m.content == Some(
                    MessageContentV::Parts(chat::part_texts(parts)),
                )
                &&& lacks(v, "tool_calls"@) ==> m.tool_calls is None
                &&& calls matches Some(JsonV::Array(items)) ==> m.tool_calls
                    == chat::tool_calls_of(items)
            }
        }),
{
}

/// A choice is read with its message.
pub proof fn law_chat_choice_is_read(v: JsonV)
    ensures
        ({
            let r = chat::chat_choice_of(v);
            &&& r is Some <==> {
                &&& v is Object
                &&& lacks(v, "message"@) || (v.get("message"@) matches Some(m)
                    && chat::chat_message_of(m) is Some)
            }
            &&& r matches Some(c) ==> {
                &&& lacks(v, "message"@) ==> c.message is None
                &&& !lacks(v, "message"@) ==> c.message == chat::chat_message_of(
                    v.get("message"@)->0,
                )
            }
        }),
{
}

/// Choices are read one by one, all or none.
pub proof fn law_chat_choices_are_read(items: Seq<JsonV>)
    ensures
        ({
            let r = chat::chat_choices_of(items);
            &&& r is Some <==> forall|i: int|
                0 <= i < items.len() ==> chat::chat_choice_of(#[trigger] items[i]) is Some
            &&& r matches Some(all) ==> {
                &&& all.len() == items.len()
                &&& forall|i: int|
                    0 <= i < items.len() ==> chat::chat_choice_of(items[i]) == Some(#[trigger] all[i])
            }
        }),
    decreases items.len(),
{
    if items.len() > 0 {
        let rest = items.drop_last();
        law_chat_choices_are_read(rest);
        let n = items.len() - 1;
        assert(items[n] == items.last());
        assert forall|i: int| 0 <= i < rest.len() implies rest[i] == items[i] by {
        }
        if chat::chat_choices_of(items) is Some {
            let all = chat::chat_choices_of(items)->0;
            let before = chat::chat_choices_of(rest)->0;
            assert forall|i: int| 0 <= i < items.len() implies chat::chat_choice_of(items[i]) == Some(
                #[trigger] all[i],
            ) by {
                if i < rest.len() {
                    assert(all[i] == before[i]);
                    assert(rest[i] == items[i]);
                }
            }
            assert forall|i: int| 0 <= i < items.len() implies chat::chat_choice_of(
                #[trigger] items[i],
            ) is Some by {
                assert(chat::chat_choice_of(items[i]) == Some(all[i]));
            }
        } else if forall|i: int| 0 <= i < items.len() ==> chat::chat_choice_of(#[trigger] items[i]) is Some {
            assert forall|i: int| 0 <= i < rest.len() implies chat::chat_choice_of(
                #[trigger] rest[i],
            ) is Some by {
                assert(rest[i] == items[i]);
            }
            assert(chat::chat_choice_of(items[n]) is Some);
            assert(false);
        }
    }
}

/// A chat completion is read: its identifier, its time, its model, its choices and its token
/// counts.
pub proof fn law_chat_is_read(v: JsonV)
    ensures
        ({
            let r = chat::chat_of(v);
            let choices = v.get("choices"@);
            &&& r is Some <==> {
                &&& v is Object
                &&& text_fits(v, "id"@)
                &&& int_fits(v, "created"@)
                &&& text_fits(v, "model"@)
                &&& usage_fits(v)
                &&& lacks(v, "choices"@) || (choices matches Some(JsonV::Array(items))
                    && chat::chat_choices_of(items) is Some)
            }
            &&& r matches Some(c) ==> {
                &&& c.id == v.text_at("id"@)
                &&& is_int(c.created, v, "created"@)
                &&& c.model == v.text_at("model"@)
                &&& is_usage(c.usage, v)
                &&& lacks(v, "choices"@) ==> c.choices is None
                &&& choices matches Some(JsonV::Array(items)) ==> c.choices
                    == chat::chat_choices_of(items)
            }
        }),
{
}

} // verus!

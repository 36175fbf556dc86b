//! What the messages and the tools of a chat request hold, in terms of what the client sent.

use vstd::prelude::*;
use vstd::string::*;

use super::request;
use super::request::{FuncCallV, TurnV};
use super::Entries;
use crate::json::JsonV;
use crate::names;
use crate::text;

verus! {

/// The item names that type.
pub open spec fn says_type(item: JsonV, t: Seq<char>) -> bool {
    item.text_at("type"@) == Some(t)
}

/// The item names no type.
pub open spec fn says_no_type(item: JsonV) -> bool {
    item.text_at("type"@) matches Some(t) ==> t.len() == 0
}

/// The item is a message: it says so, or it has a role and names no type.
pub open spec fn says_message(item: JsonV) -> bool {
    says_type(item, "message"@) || (says_no_type(item) && item.get("role"@) is Some)
}

/// The item is a message of the assistant.
pub open spec fn says_assistant(item: JsonV) -> bool {
    says_message(item) && item.text_at("role"@) == Some("assistant"@)
}

/// The value has no members but these two.
pub open spec fn holds_only(v: JsonV, a: Seq<char>, b: Seq<char>) -> bool {
    forall|k: Seq<char>| k != a && k != b ==> (#[trigger] v.get(k)) is None
}

// ---------------------------------------------------------------------------------------------
// Item by item
// ---------------------------------------------------------------------------------------------

proof fn lemma_after_items_prefix(
    messages: Seq<JsonV>,
    items: Seq<JsonV>,
    x: JsonV,
    n: int,
    store: Entries,
    now: u128,
)
    requires
        0 <= n <= items.len(),
    ensures
        request::after_items(messages, items.push(x), n, store, now) == request::after_items(
            messages,
            items,
            n,
            store,
            now,
        ),
    decreases n,
{
    if n > 0 {
        lemma_after_items_prefix(messages, items, x, n - 1, store, now);
        assert(items.push(x)[n - 1] == items[n - 1]);
    }
}

/// One more item at the end changes what the items before it have come to as it would anywhere.
pub proof fn law_items_count_one_by_one(
    messages: Seq<JsonV>,
    items: Seq<JsonV>,
    x: JsonV,
    store: Entries,
    now: u128,
)
    ensures
        ({
            let (t, s) = request::after_items(messages, items, items.len() as int, store, now);
            request::after_items(messages, items.push(x), items.len() + 1int, store, now) == (
                t.after(x, s, now),
                t.store_after(x, s),
            )
        }),
        request::after_items(messages, Seq::empty(), 0, store, now) == (
            TurnV::start(messages),
            store,
        ),
{
    lemma_after_items_prefix(messages, items, x, items.len() as int, store, now);
    assert(items.push(x)[items.len() as int] == x);
}

/// At the start nothing waits, and no output is expected.
pub proof fn law_nothing_waits_at_first(messages: Seq<JsonV>)
    ensures
        ({
            let t = TurnV::start(messages);
            &&& t.messages == messages
            &&& t.reasoning is None
            &&& t.calls.len() == 0
            &&& t.content is None
            &&& t.content_reasoning is None
            &&& !t.active
        }),
{
}

/// The role that a message item comes out with.
pub proof fn law_message_keeps_role(t: TurnV, item: JsonV, store: Entries, now: u128)
    requires
        says_message(item),
        !says_assistant(item),
    ensures
        ({
            let b = t.after(item, store, now);
            let m = b.messages.last();
            let raw = item.text_at("role"@);
            &&& b.messages.len() == t.messages.len() + 1
            &&& b.messages.drop_last() == t.messages
            &&& raw == Some("user"@) ==> m.text_at("role"@) == Some("user"@)
            &&& raw == Some("system"@) ==> m.text_at("role"@) == Some("system"@)
            &&& raw == Some("tool"@) ==> m.text_at("role"@) == Some("tool"@)
            &&& raw == Some("developer"@) ==> m.text_at("role"@) == Some("system"@)
            &&& raw is None ==> m.text_at("role"@) == Some("user"@)
            &&& raw != Some("system"@) && raw != Some("tool"@) && raw != Some("developer"@)
                ==> m.text_at("role"@) == Some("user"@)
            &&& m.get("content"@) is Some
            &&& holds_only(m, "role"@, "content"@)
            &&& b.calls.len() == 0
            &&& b.content is None
            &&& b.content_reasoning is None
            &&& b.reasoning is None
            &&& !b.active
            &&& t.store_after(item, store) == store
        }),
{
    names::lemma_names();
    let b = t.after(item, store, now);
    let m = request::chat_message(item, None);
    assert(b.messages == t.messages.push(m));
    assert(b.messages.drop_last() =~= t.messages);
}

/// A message of the assistant waits, with the reasoning before it, or else its own; calls that
/// wait go on waiting.
pub proof fn law_assistant_message_waits(t: TurnV, item: JsonV, store: Entries, now: u128)
    requires
        says_assistant(item),
    ensures
        ({
            let b = t.after(item, store, now);
            &&& b.messages == t.messages
            &&& b.calls == t.calls
            &&& b.active == t.active
            &&& b.content == request::message_text(item)
            &&& b.reasoning is None
            &&& t.reasoning is Some ==> b.content_reasoning == t.reasoning
            &&& t.reasoning is None && item.get("reasoning"@) is None
                ==> b.content_reasoning is None
            &&& t.reasoning is None ==> (item.get("reasoning"@) matches Some(r)
                ==> b.content_reasoning == request::reasoning_text(r))
            &&& t.store_after(item, store) == store
        }),
{
    names::lemma_names();
}

/// A function call waits, with its identifier, name and arguments; one without an identifier is
/// dropped.
pub proof fn law_call_waits(t: TurnV, item: JsonV, store: Entries, now: u128)
    requires
        says_type(item, "function_call"@),
    ensures
        ({
            let b = t.after(item, store, now);
            let id = item.text_at("call_id"@);
            let named = id matches Some(x) && x.len() > 0;
            &&& b.messages == t.messages
            &&& b.reasoning == t.reasoning
            &&& b.content == t.content
            &&& b.content_reasoning == t.content_reasoning
            &&& b.active == t.active
            &&& !named ==> b.calls == t.calls
            &&& named ==> {
                let f = b.calls.last();
                &&& b.calls.len() == t.calls.len() + 1
                &&& b.calls.drop_last() == t.calls
                &&& Some(f.call_id) == id
                &&& item.text_at("name"@) matches Some(x) ==> f.name == x
                &&& item.text_at("name"@) is None ==> f.name.len() == 0
                &&& item.text_at("arguments"@) matches Some(x) ==> f.arguments == x
                &&& item.text_at("arguments"@) is None ==> f.arguments == "{}"@
            }
            &&& t.store_after(item, store) == store
        }),
{
    names::lemma_names();
    reveal_strlit("");
    let b = t.after(item, store, now);
    if b.calls.len() > t.calls.len() {
        assert(b.calls.drop_last() =~= t.calls);
    }
}

/// A reasoning item waits for what it belongs to.
pub proof fn law_reasoning_waits(t: TurnV, item: JsonV, store: Entries, now: u128)
    requires
        says_type(item, "reasoning"@),
    ensures
        ({
            let b = t.after(item, store, now);
            &&& b == (TurnV { reasoning: b.reasoning, ..t })
            &&& b.reasoning == request::reasoning_text(item)
            &&& t.store_after(item, store) == store
        }),
{
    names::lemma_names();
}

/// An item of another kind ends the turn: what waits is dropped.
pub proof fn law_other_items_drop_what_waits(t: TurnV, item: JsonV, store: Entries, now: u128)
    requires
        !says_message(item),
        !says_type(item, "reasoning"@),
        !says_type(item, "function_call"@),
        !says_type(item, "function_call_output"@),
    ensures
        t.after(item, store, now) == TurnV::start(t.messages),
        t.store_after(item, store) == store,
{
    names::lemma_names();
    reveal_strlit("");
}

/// A message for the output of a function call names the call and holds the output.
pub open spec fn is_output_message(m: JsonV, item: JsonV) -> bool {
    &&& m.text_at("role"@) == Some("tool"@)
    &&& item.text_at("call_id"@) matches Some(x) ==> m.text_at("tool_call_id"@) == Some(x)
    &&& item.text_at("call_id"@) is None ==> (m.text_at("tool_call_id"@) matches Some(x)
        && x.len() == 0)
    &&& item.text_at("output"@) matches Some(x) ==> m.text_at("content"@) == Some(x)
    &&& item.text_at("output"@) is None ==> (m.text_at("content"@) matches Some(x) && x.len() == 0)
}

/// An entry of an assistant message for a function call.
pub open spec fn is_call_entry(v: JsonV, f: FuncCallV) -> bool {
    &&& v.text_at("id"@) == Some(f.call_id)
    &&& v.text_at("type"@) == Some("function"@)
    &&& v.get("function"@) matches Some(x)
    &&& x.text_at("name"@) == Some(f.name)
    &&& x.text_at("arguments"@) == Some(f.arguments)
}

/// An assistant message with these function calls.
pub open spec fn calls_them(m: JsonV, calls: Seq<FuncCallV>) -> bool {
    if calls.len() == 0 {
        m.get("tool_calls"@) is None
    } else {
        &&& m.get("tool_calls"@) matches Some(JsonV::Array(entries))
        &&& entries.len() == calls.len()
        &&& forall|i: int| 0 <= i < calls.len() ==> is_call_entry(#[trigger] entries[i], calls[i])
    }
}

/// The output of a function call: what waits is written before it as one assistant message, with
/// the text, all calls in order, and the reasoning that belongs to them.
pub proof fn law_output_writes_what_waits(t: TurnV, item: JsonV, store: Entries, now: u128)
    requires
        says_type(item, "function_call_output"@),
        t.calls.len() > 0 || t.content is Some,
    ensures
        ({
            let b = t.after(item, store, now);
            let n = t.messages.len() as int;
            let m = b.messages[n];
            &&& b.messages.len() == n + 2
            &&& b.messages.take(n) == t.messages
            &&& m.text_at("role"@) == Some("assistant"@)
            &&& t.content matches Some(c) ==> (c.len() > 0 ==> m.text_at("content"@) == Some(c))
            &&& !(t.content matches Some(c) && c.len() > 0) ==> m.get("content"@) is None
            &&& calls_them(m, t.calls)
            &&& is_output_message(b.messages[n + 1], item)
            &&& b.calls.len() == 0
            &&& b.content is None
            &&& b.content_reasoning is None
            &&& b.reasoning == t.reasoning
            &&& b.active
        }),
{
    names::lemma_names();
    reveal_strlit("");
    let b = t.after(item, store, now);
    let n = t.messages.len() as int;
    let m = t.waiting_message(store, now);
    assert(b.messages == t.messages.push(m).push(request::tool_message(item)));
    assert(b.messages.take(n) =~= t.messages);
    assert(b.messages[n] == m);
    if t.calls.len() > 0 {
        let entries = request::tool_calls(t.calls);
        assert(m.get("tool_calls"@) == Some(JsonV::Array(entries)));
        assert forall|i: int| 0 <= i < t.calls.len() implies is_call_entry(
            #[trigger] entries[i],
            t.calls[i],
        ) by {
            assert(entries[i] == request::tool_call(t.calls[i]));
        }
    }
}

/// The reasoning of that assistant message: that of its text, or else what came last, or else what
/// the store has for the first call.
pub proof fn law_output_writes_reasoning(
    t: TurnV,
    item: JsonV,
    store: Entries,
    now: u128,
    reasoning: Seq<char>,
)
    requires
        says_type(item, "function_call_output"@),
        t.calls.len() > 0 || t.content is Some,
        reasoning.len() > 0,
    ensures
        ({
            let m = t.after(item, store, now).messages[t.messages.len() as int];
            let known = t.calls.len() > 0 && store.contains_key(t.calls[0].call_id) && super::is_fresh(
                store[t.calls[0].call_id].1,
                now,
            );
            &&& t.content_reasoning == Some(reasoning) ==> m.text_at("reasoning_content"@) == Some(
                reasoning,
            )
            &&& t.content_reasoning is None && t.reasoning == Some(reasoning) ==> m.text_at(
                "reasoning_content"@,
            ) == Some(reasoning)
            &&& t.content_reasoning is None && t.reasoning is None && t.calls.len() > 0 && known
                && store[t.calls[0].call_id].0 == reasoning ==> m.text_at("reasoning_content"@)
                == Some(reasoning)
            &&& t.content_reasoning is None && t.reasoning is None && (t.calls.len() == 0
                || !known) ==> m.get("reasoning_content"@) is None
            &&& t.content_reasoning is None && t.reasoning is None && t.calls.len() > 0
                ==> t.store_after(item, store) == store.remove(t.calls[0].call_id)
            &&& t.content_reasoning is Some || t.reasoning is Some || t.calls.len() == 0
                ==> t.store_after(item, store) == store
        }),
{
    names::lemma_names();
    let b = t.after(item, store, now);
    let n = t.messages.len() as int;
    let m = t.waiting_message(store, now);
    assert(b.messages == t.messages.push(m).push(request::tool_message(item)));
    assert(b.messages[n] == m);
}

/// The output of a function call where nothing waits: it is written behind an assistant message or
/// other outputs, and dropped where there is none.
pub proof fn law_output_alone(t: TurnV, item: JsonV, store: Entries, now: u128)
    requires
        says_type(item, "function_call_output"@),
        t.calls.len() == 0,
        t.content is None,
    ensures
        ({
            let b = t.after(item, store, now);
            let n = t.messages.len() as int;
            &&& !t.active ==> b == t
            &&& t.active ==> {
                &&& b.messages.len() == n + 1
                &&& b.messages.take(n) == t.messages
                &&& is_output_message(b.messages[n], item)
                &&& b == (TurnV { messages: b.messages, ..t })
            }
            &&& t.store_after(item, store) == store
        }),
{
    names::lemma_names();
    reveal_strlit("");
    let b = t.after(item, store, now);
    if t.active {
        assert(b.messages == t.messages.push(request::tool_message(item)));
        assert(b.messages.take(t.messages.len() as int) =~= t.messages);
    }
}

/// An assistant text that still waits after the last item is written, with its reasoning.
pub proof fn law_last_assistant_text_is_written(
    messages: Seq<JsonV>,
    items: Seq<JsonV>,
    store: Entries,
    now: u128,
)
    ensures
        ({
            let (t, s) = request::after_items(messages, items, items.len() as int, store, now);
            let (all, left) = request::after_input(messages, JsonV::Array(items), store, now);
            &&& left == s
            &&& t.content is None ==> all == t.messages
            &&& t.content matches Some(c) ==> {
                let m = all.last();
                &&& all.len() == t.messages.len() + 1
                &&& all.drop_last() == t.messages
                &&& m.text_at("role"@) == Some("assistant"@)
                &&& m.text_at("content"@) == Some(c)
                &&& m.get("tool_calls"@) is None
                &&& t.content_reasoning matches Some(r) ==> (r.len() > 0 ==> m.text_at(
                    "reasoning_content"@,
                ) == Some(r))
                &&& !(t.content_reasoning matches Some(r) && r.len() > 0) ==> m.get(
                    "reasoning_content"@,
                ) is None
            }
        }),
{
    names::lemma_names();
    let t = request::after_items(messages, items, items.len() as int, store, now).0;
    let all = request::after_input(messages, JsonV::Array(items), store, now).0;
    if t.content is Some {
        assert(all.drop_last() =~= t.messages);
    }
}

/// A text for an input is one message of the user; other values that are no array are none.
pub proof fn law_plain_input(messages: Seq<JsonV>, input: JsonV, store: Entries, now: u128)
    ensures
        ({
            let (all, left) = request::after_input(messages, input, store, now);
            &&& !(input is Array) ==> left == store
            &&& input matches JsonV::Text(s) ==> {
                &&& all.len() == messages.len() + 1
                &&& all.drop_last() == messages
                &&& all.last().text_at("role"@) == Some("user"@)
                &&& all.last().text_at("content"@) == Some(s)
            }
            &&& !(input is Array) && !(input is Text) ==> all == messages
        }),
{
    names::lemma_names();
    let all = request::after_input(messages, input, store, now).0;
    if input is Text {
        assert(all.drop_last() =~= messages);
    }
}

/// The messages of a request are those of its input, behind the instructions.
pub proof fn law_messages_of_request(root: JsonV, store: Entries, now: u128)
    ensures
        ({
            let (all, left) = request::request_messages(root, store, now);
            let first = request::instruction_messages(root);
            &&& root.get("input"@) is None ==> all == first && left == store
            &&& root.get("input"@) matches Some(input) ==> (all, left) == request::after_input(
                first,
                input,
                store,
                now,
            )
            &&& !(root.text_at("instructions"@) matches Some(s) && s.len() > 0)
                ==> first.len() == 0
            &&& root.text_at("instructions"@) matches Some(s) ==> (s.len() > 0 ==> {
                &&& first.len() == 1
                &&& first[0].text_at("role"@) == Some("system"@)
                &&& first[0].text_at("content"@) == Some(s)
            })
        }),
{
    names::lemma_names();
}

// ---------------------------------------------------------------------------------------------
// Contents
// ---------------------------------------------------------------------------------------------

/// The part names one of the types that carry text.
pub open spec fn says_text(part: JsonV) -> bool {
    says_type(part, "input_text"@) || says_type(part, "output_text"@) || says_type(part, "text"@)
}

/// The part names one of the types that carry an image.
pub open spec fn says_image(part: JsonV) -> bool {
    says_type(part, "input_image"@) || says_type(part, "image_url"@)
}

/// The texts of the parts of an assistant message: one more part adds its text where its type
/// says that it carries one, and nothing else.
pub proof fn law_assistant_texts(parts: Seq<JsonV>, p: JsonV)
    ensures
        ({
            let a = request::part_texts(parts);
            let b = request::part_texts(parts.push(p));
            &&& says_text(p) && p.text_at("text"@) is Some ==> b == a.push(p.text_at("text"@)->0)
            &&& !says_text(p) || p.text_at("text"@) is None ==> b == a
        }),
        request::part_texts(Seq::empty()).len() == 0,
{
    names::lemma_names();
    reveal_strlit("");
    reveal_strlit("input_text");
    reveal_strlit("output_text");
    reveal_strlit("text");
    assert(parts.push(p).drop_last() =~= parts);
    assert(parts.push(p).last() == p);
}

/// The texts of parts that all carry text, one by one.
pub proof fn law_assistant_texts_in_order(parts: Seq<JsonV>)
    requires
        forall|i: int|
            0 <= i < parts.len() ==> says_text(#[trigger] parts[i]) && parts[i].text_at(
                "text"@,
            ) is Some,
    ensures
        request::part_texts(parts).len() == parts.len(),
        forall|i: int|
            0 <= i < parts.len() ==> Some(#[trigger] request::part_texts(parts)[i])
                == parts[i].text_at("text"@),
    decreases parts.len(),
{
    if parts.len() > 0 {
        let rest = parts.drop_last();
        assert forall|i: int| 0 <= i < rest.len() implies says_text(#[trigger] rest[i])
            && rest[i].text_at("text"@) is Some by {
            assert(rest[i] == parts[i]);
        }
        law_assistant_texts_in_order(rest);
        assert(parts[parts.len() - 1] == parts.last());
        law_assistant_texts(rest, parts.last());
        assert(rest.push(parts.last()) =~= parts);
        assert forall|i: int| 0 <= i < parts.len() implies Some(
            #[trigger] request::part_texts(parts)[i],
        ) == parts[i].text_at("text"@) by {
            if i < rest.len() {
                assert(request::part_texts(rest)[i] == request::part_texts(parts)[i]);
                assert(rest[i] == parts[i]);
            }
        }
    }
}

/// The text of an assistant message: a text without the white space around it, or the texts of
/// its parts, each on a line; none where nothing is left.
pub proof fn law_assistant_text(item: JsonV)
    ensures
        ({
            let r = request::message_text(item);
            &&& item.get("content"@) matches Some(JsonV::Text(s)) ==> if text::trimmed(s).len()
                == 0 {
                r is None
            } else {
                r == Some(text::trimmed(s))
            }
            &&& item.get("content"@) matches Some(JsonV::Array(parts)) ==> {
                let texts = request::part_texts(parts);
                &&& texts.len() == 0 ==> r is None
                &&& texts.len() > 0 ==> r == Some(text::joined(texts, seq!['\n']))
            }
            &&& !(item.get("content"@) matches Some(JsonV::Text(_))) && !(item.get("content"@)
                matches Some(JsonV::Array(_))) ==> r is None
        }),
{
    reveal_strlit("\n");
    assert("\n"@ =~= seq!['\n']);
}

/// An assistant message that holds one text comes out as it is, where it is the last item.
pub proof fn law_assistant_message_comes_out(
    messages: Seq<JsonV>,
    items: Seq<JsonV>,
    item: JsonV,
    part: JsonV,
    s: Seq<char>,
    store: Entries,
    now: u128,
)
    requires
        says_assistant(item),
        item.get("content"@) == Some(JsonV::Array(seq![part])),
        says_text(part),
        part.text_at("text"@) == Some(s),
    ensures
        ({
            let before = request::after_items(messages, items, items.len() as int, store, now).0;
            let all = request::after_input(
                messages,
                JsonV::Array(items.push(item)),
                store,
                now,
            ).0;
            &&& all.len() == before.messages.len() + 1
            &&& all.drop_last() == before.messages
            &&& all.last().text_at("role"@) == Some("assistant"@)
            &&& all.last().text_at("content"@) == Some(s)
        }),
{
    names::lemma_names();
    let more = items.push(item);
    law_items_count_one_by_one(messages, items, item, store, now);
    let (t, left) = request::after_items(messages, items, items.len() as int, store, now);
    law_assistant_message_waits(t, item, left, now);
    law_last_assistant_text_is_written(messages, more, store, now);
    law_assistant_texts_in_order(seq![part]);
    law_assistant_text(item);
    assert(request::part_texts(seq![part])[0] == s);
    assert(request::message_text(item) == Some(s));
}

proof fn lemma_content_prefix(parts: Seq<JsonV>, p: JsonV, n: int)
    requires
        0 <= n <= parts.len(),
    ensures
        request::content_of(parts.push(p), n) == request::content_of(parts, n),
    decreases n,
{
    if n > 0 {
        lemma_content_prefix(parts, p, n - 1);
        assert(parts.push(p)[n - 1] == parts[n - 1]);
    }
}

/// One more part of a message adds a text, an image or nothing.
pub proof fn law_parts_count_one_by_one(parts: Seq<JsonV>, p: JsonV)
    ensures
        ({
            let a = request::content_of(parts, parts.len() as int);
            let b = request::content_of(parts.push(p), parts.len() + 1int);
            let textual = says_text(p) || p.text_at("type"@) is None;
            &&& textual ==> {
                &&& b.media == a.media
                &&& p.text_at("text"@) is None ==> b == a
                &&& p.text_at("text"@) matches Some(s) ==> {
                    &&& b.texts == a.texts.push(s)
                    &&& b.blocks.len() == a.blocks.len() + 1
                    &&& b.blocks.drop_last() == a.blocks
                    &&& b.blocks.last().text_at("type"@) == Some("text"@)
                    &&& b.blocks.last().text_at("text"@) == Some(s)
                }
            }
            &&& says_image(p) ==> {
                &&& b.texts == a.texts
                &&& request::image_block(p) is None ==> b == a
                &&& request::image_block(p) matches Some(x) ==> b.media && b.blocks
                    == a.blocks.push(x)
            }
            &&& !textual && !says_image(p) ==> b == a
        }),
        ({
            let none = request::content_of(Seq::empty(), 0);
            !none.media && none.texts.len() == 0 && none.blocks.len() == 0
        }),
{
    names::lemma_names();
    lemma_content_prefix(parts, p, parts.len() as int);
    assert(parts.push(p)[parts.len() as int] == p);
    let a = request::content_of(parts, parts.len() as int);
    let b = request::content_of(parts.push(p), parts.len() + 1int);
    assert(b == request::add_part(a, p));
    if b.blocks.len() > a.blocks.len() {
        assert(b.blocks.drop_last() =~= a.blocks);
    }
}

/// The content of a message: the text as it is, the blocks where there is an image among the
/// parts, or else the texts of the parts, each on a line.
pub proof fn law_message_keeps_content(item: JsonV, pending: Option<Seq<char>>)
    ensures
        ({
            let r = request::chat_message(item, pending).get("content"@);
            let given = item.get("content"@);
            &&& given matches Some(JsonV::Text(s)) ==> r == Some(JsonV::Text(s))
            &&& given matches Some(JsonV::Array(parts)) ==> {
                let c = request::content_of(parts, parts.len() as int);
                &&& c.media ==> r == Some(JsonV::Array(c.blocks))
                &&& !c.media && c.texts.len() > 0 ==> r == Some(
                    JsonV::Text(text::joined(c.texts, seq!['\n'])),
                )
                &&& !c.media && c.texts.len() == 0 ==> r == Some(JsonV::Text(Seq::empty()))
            }
            &&& !(given matches Some(JsonV::Text(_))) && !(given matches Some(JsonV::Array(_)))
                ==> r == Some(JsonV::Text(Seq::empty()))
        }),
{
    names::lemma_names();
    reveal_strlit("\n");
    assert("\n"@ =~= seq!['\n']);
    reveal_strlit("");
    assert(""@ =~= Seq::empty());
}

/// A message item that is no assistant's comes out with its content.
pub proof fn law_message_comes_out(t: TurnV, item: JsonV, store: Entries, now: u128)
    requires
        says_message(item),
        !says_assistant(item),
    ensures
        t.after(item, store, now).messages.last().get("content"@) == request::chat_message(
            item,
            None,
        ).get("content"@),
        item.get("content"@) matches Some(JsonV::Text(s)) ==> t.after(
            item,
            store,
            now,
        ).messages.last().text_at("content"@) == Some(s),
{
    names::lemma_names();
    law_message_keeps_content(item, None);
}

/// The reasoning of an assistant message that is converted on its own: what waits, or else its own.
pub proof fn law_assistant_item_takes_reasoning(
    item: JsonV,
    pending: Option<Seq<char>>,
    r: Seq<char>,
)
    requires
        item.text_at("role"@) == Some("assistant"@),
        r.len() > 0,
    ensures
        ({
            let m = request::chat_message(item, pending);
            &&& m.text_at("role"@) == Some("assistant"@)
            &&& pending == Some(r) ==> m.text_at("reasoning_content"@) == Some(r)
            &&& pending is None && item.get("reasoning"@) == Some(JsonV::Text(r))
                && text::trimmed(r).len() > 0 ==> m.text_at("reasoning_content"@) == Some(
                text::trimmed(r),
            )
            &&& pending is None && item.get("reasoning"@) is None ==> m.get(
                "reasoning_content"@,
            ) is None
            &&& request::pending_after_message(item, pending) is None
        }),
{
    names::lemma_names();
}

/// A block for an image with that URL.
pub open spec fn is_image_block(b: JsonV, url: Seq<char>, detail: Option<JsonV>) -> bool {
    &&& b.text_at("type"@) == Some("image_url"@)
    &&& b.get("image_url"@) matches Some(x)
    &&& x.text_at("url"@) == Some(url)
    &&& x.get("detail"@) == detail
}

/// An image part with a URL of its own.
pub proof fn law_image_with_url(part: JsonV, image: JsonV)
    requires
        part.get("image_url"@) == Some(image),
    ensures
        ({
            let r = request::image_block(part);
            &&& image matches JsonV::Text(url) ==> if url.len() > 0 {
                r matches Some(b) && is_image_block(b, url, None)
            } else {
                r is None
            }
            &&& !(image is Text) ==> match image.text_at("url"@) {
                Some(url) => if url.len() > 0 {
                    r matches Some(b) && is_image_block(b, url, image.get("detail"@))
                } else {
                    r is None
                },
                None => r is None,
            }
        }),
{
    names::lemma_names();
}

/// An image part with a source: its URL counts.
pub proof fn law_image_with_source(part: JsonV)
    requires
        part.get("image_url"@) is None,
    ensures
        ({
            let r = request::image_block(part);
            let source = if part.get("source"@) is Some {
                part.get("source"@)
            } else {
                part.get("image"@)
            };
            let named = source matches Some(x) && says_type(x, "url"@) && x.text_at(
                "url"@,
            ) is Some;
            &&& named ==> (r matches Some(b) && is_image_block(
                b,
                source->0.text_at("url"@)->0,
                part.get("detail"@),
            ))
            &&& !named ==> r is None
        }),
{
    names::lemma_names();
}

/// The entry of a reasoning item holds a summary that is not blank.
pub open spec fn has_summary(entry: JsonV) -> bool {
    &&& says_type(entry, "summary_text"@)
    &&& entry.text_at("text"@) matches Some(s)
    &&& text::trimmed(s).len() > 0
}

proof fn lemma_first_summary(entries: Seq<JsonV>, k: int, i: int)
    requires
        0 <= k <= i <= entries.len(),
        forall|j: int| k <= j < i ==> !has_summary(#[trigger] entries[j]),
    ensures
        request::first_summary(entries, k) == request::first_summary(entries, i),
    decreases i - k,
{
    names::lemma_names();
    reveal_strlit("");
    if k < i {
        assert(!has_summary(entries[k]));
        lemma_first_summary(entries, k + 1, i);
    }
}

/// The reasoning text of a reasoning item is its first summary that is not blank.
pub proof fn law_first_summary_counts(item: JsonV, entries: Seq<JsonV>, i: int)
    requires
        item.get("summary"@) == Some(JsonV::Array(entries)),
        0 <= i <= entries.len(),
        forall|j: int| 0 <= j < i ==> !has_summary(#[trigger] entries[j]),
    ensures
        i < entries.len() && has_summary(entries[i]) ==> request::reasoning_text(item) == Some(
            text::trimmed(entries[i].text_at("text"@)->0),
        ),
        i == entries.len() ==> request::reasoning_text(item) is None,
{
    names::lemma_names();
    reveal_strlit("");
    lemma_first_summary(entries, 0, i);
}

/// The reasoning text of a plain text; other values have none.
pub proof fn law_plain_reasoning(item: JsonV)
    ensures
        item matches JsonV::Text(s) ==> if text::trimmed(s).len() > 0 {
            request::reasoning_text(item) == Some(text::trimmed(s))
        } else {
            request::reasoning_text(item) is None
        },
        !(item is Text) && !(item.get("summary"@) matches Some(JsonV::Array(_)))
            ==> request::reasoning_text(item) is None,
{
}

// ---------------------------------------------------------------------------------------------
// Tools and options
// ---------------------------------------------------------------------------------------------

/// The member of that name, or else the one of the other name.
pub open spec fn either(v: JsonV, first: Seq<char>, second: Seq<char>) -> Option<JsonV> {
    if v.get(first) is Some {
        v.get(first)
    } else {
        v.get(second)
    }
}

/// The tool is a function, or names no type.
pub open spec fn says_function(tool: JsonV) -> bool {
    says_no_type(tool) || says_type(tool, "function"@)
}

/// A function tool with a name comes out with its name, its description and its parameters as
/// they were given; other tools do not come out.
pub proof fn law_tool_keeps_schema(tool: JsonV)
    ensures
        ({
            let r = request::chat_tool(tool);
            let name = either(tool, "name"@, "function.name"@);
            let description = either(tool, "description"@, "function.description"@);
            let parameters = either(tool, "parameters"@, "function.parameters"@);
            let named = name matches Some(JsonV::Text(s)) && s.len() > 0;
            &&& r is Some <==> says_function(tool) && named
            &&& r matches Some(t) ==> {
                &&& t.text_at("type"@) == Some("function"@)
                &&& t.get("function"@) matches Some(f)
                &&& f.get("name"@) == name
                &&& parameters is Some ==> f.get("parameters"@) == parameters
                &&& parameters is None ==> f.get("parameters"@) == Some(JsonV::object())
                &&& description matches Some(JsonV::Text(_)) ==> f.get("description"@)
                    == description
                &&& !(description matches Some(JsonV::Text(_))) ==> f.get("description"@) is None
            }
        }),
        tool.get("parameters"@) is Some && request::chat_tool(tool) is Some ==> (
        request::chat_tool(tool)->0.get("function"@) matches Some(f) && f.get("parameters"@)
            == tool.get("parameters"@)),
{
    names::lemma_names();
    reveal_strlit("");
}

/// The tools come out one by one, in order.
pub proof fn law_tools_come_out(a: Seq<JsonV>, tool: JsonV)
    ensures
        request::chat_tool(tool) matches Some(t) ==> request::chat_tools(a.push(tool))
            == request::chat_tools(a).push(t),
        request::chat_tool(tool) is None ==> request::chat_tools(a.push(tool))
            == request::chat_tools(a),
        request::chat_tools(Seq::empty()).len() == 0,
{
    assert(a.push(tool).drop_last() =~= a);
    assert(a.push(tool).last() == tool);
}

/// Where all tools are functions with a name, all of them come out, each at its place.
pub proof fn law_all_tools_come_out(tools: Seq<JsonV>)
    requires
        forall|i: int| 0 <= i < tools.len() ==> request::chat_tool(#[trigger] tools[i]) is Some,
    ensures
        request::chat_tools(tools).len() == tools.len(),
        forall|i: int|
            0 <= i < tools.len() ==> Some(#[trigger] request::chat_tools(tools)[i])
                == request::chat_tool(tools[i]),
    decreases tools.len(),
{
    if tools.len() > 0 {
        let rest = tools.drop_last();
        assert forall|i: int| 0 <= i < rest.len() implies request::chat_tool(
            #[trigger] rest[i],
        ) is Some by {
            assert(rest[i] == tools[i]);
        }
        law_all_tools_come_out(rest);
        assert(tools[tools.len() - 1] == tools.last());
        law_tools_come_out(rest, tools.last());
        assert(rest.push(tools.last()) =~= tools);
        assert forall|i: int| 0 <= i < tools.len() implies Some(
            #[trigger] request::chat_tools(tools)[i],
        ) == request::chat_tool(tools[i]) by {
            if i < rest.len() {
                assert(request::chat_tools(rest)[i] == request::chat_tools(tools)[i]);
                assert(rest[i] == tools[i]);
            }
        }
    }
}

/// The chat request holds the tools that come out, and no member for them where there are none.
pub proof fn law_request_holds_tools(
    root: JsonV,
    model: Seq<char>,
    stream: bool,
    messages: Seq<JsonV>,
)
    ensures
        ({
            let r = request::chat_request(root, model, stream, messages).get("tools"@);
            &&& root.get("tools"@) matches Some(JsonV::Array(tools)) ==> {
                let out = request::chat_tools(tools);
                &&& out.len() > 0 ==> r == Some(JsonV::Array(out))
                &&& out.len() == 0 ==> r is None
            }
            &&& !(root.get("tools"@) matches Some(JsonV::Array(_))) ==> r is None
        }),
{
    super::laws::law_options_pass_through(root, model, stream, messages);
}

/// A stream is asked to report its token counts.
pub proof fn law_stream_reports_usage(root: JsonV, model: Seq<char>, messages: Seq<JsonV>)
    ensures
        ({
            let r = request::chat_request(root, model, true, messages).get("stream_options"@);
            r matches Some(o) && o.get("include_usage"@) == Some(JsonV::Bool(true))
        }),
        request::chat_request(root, model, false, messages).get("stream_options"@) is None,
{
    super::laws::lemma_stream_options(root, model, true, messages);
    super::laws::lemma_stream_options(root, model, false, messages);
    names::lemma_names();
}

/// The reasoning effort that is asked for is passed on; the least one is low, and one that is not
/// known is left to the upstream API.
pub proof fn law_effort_is_passed_on(
    root: JsonV,
    model: Seq<char>,
    stream: bool,
    messages: Seq<JsonV>,
)
    ensures
        ({
            let r = request::chat_request(root, model, stream, messages).get(
                "reasoning_effort"@,
            );
            let asked = match root.get("reasoning"@) {
                Some(x) => x.text_at("effort"@),
                None => None,
            };
            &&& asked is None ==> r is None
            &&& asked matches Some(e) ==> {
                let known = e == "none"@ || e == "auto"@ || e == "low"@ || e == "medium"@ || e
                    == "high"@ || e == "xhigh"@;
                &&& known ==> r == Some(JsonV::Text(e))
                &&& e == "minimal"@ ==> r == Some(JsonV::Text("low"@))
                &&& !known && e != "minimal"@ ==> r == Some(JsonV::Text("auto"@))
            }
        }),
{
    super::laws::law_options_pass_through(root, model, stream, messages);
    names::lemma_names();
}

} // verus!

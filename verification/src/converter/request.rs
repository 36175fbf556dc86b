//! Requests: from the Responses format to the Chat Completions format.

use vstd::prelude::*;
use vstd::string::*;

use crate::converter;
use crate::converter::{Entries, ReasoningStore};
use crate::json;
use crate::json::{Json, JsonV};
use crate::text;
use crate::text::{join, same, trim};

verus! {

// ---------------------------------------------------------------------------------------------
// What the parts of a request mean
// ---------------------------------------------------------------------------------------------

/// The role of a chat message for the role of an input item.
pub open spec fn normal_role(raw: Seq<char>) -> Seq<char> {
    if raw == "user"@ || raw == "assistant"@ || raw == "system"@ || raw == "tool"@ {
        raw
    } else if raw == "developer"@ {
        "system"@
    } else {
        "user"@
    }
}

/// The role that an input item names; a user's where it names none.
pub open spec fn raw_role(item: JsonV) -> Seq<char> {
    text::or_text(item.text_at("role"@), "user"@)
}

/// The text without the white space around it, unless nothing is left.
pub open spec fn solid(s: Seq<char>) -> Option<Seq<char>> {
    if text::trimmed(s).len() == 0 {
        None
    } else {
        Some(text::trimmed(s))
    }
}

/// The summary text that an entry of a reasoning item holds.
pub open spec fn summary_text(entry: JsonV) -> Option<Seq<char>> {
    if text::or_text(entry.text_at("type"@), ""@) == "summary_text"@ {
        match entry.text_at("text"@) {
            Some(t) => solid(t),
            None => None,
        }
    } else {
        None
    }
}

/// The first summary text among the entries from position `i` on.
pub open spec fn first_summary(entries: Seq<JsonV>, i: int) -> Option<Seq<char>>
    decreases entries.len() - i,
{
    if i < 0 || i >= entries.len() {
        None
    } else if summary_text(entries[i]) is Some {
        summary_text(entries[i])
    } else {
        first_summary(entries, i + 1)
    }
}

/// The reasoning text of a reasoning value: a plain text, or the first summary text.
pub open spec fn reasoning_text(item: JsonV) -> Option<Seq<char>> {
    match item {
        JsonV::Text(s) => solid(s),
        _ => match item.get("summary"@) {
            Some(JsonV::Array(entries)) => first_summary(entries, 0),
            _ => None,
        },
    }
}

/// The type of a content part carries text.
pub open spec fn is_text_type(t: Seq<char>) -> bool {
    t == "input_text"@ || t == "output_text"@ || t == "text"@
}

/// The text of a content part, where its type says that it carries text.
pub open spec fn part_text(part: JsonV) -> Option<Seq<char>> {
    if is_text_type(text::or_text(part.text_at("type"@), ""@)) {
        part.text_at("text"@)
    } else {
        None
    }
}

/// The texts of the content parts.
pub open spec fn part_texts(parts: Seq<JsonV>) -> Seq<Seq<char>>
    decreases parts.len(),
{
    if parts.len() == 0 {
        Seq::empty()
    } else {
        match part_text(parts.last()) {
            Some(t) => part_texts(parts.drop_last()).push(t),
            None => part_texts(parts.drop_last()),
        }
    }
}

/// The text of an assistant message.
pub open spec fn message_text(item: JsonV) -> Option<Seq<char>> {
    match item.get("content"@) {
        Some(JsonV::Text(s)) => solid(s),
        Some(JsonV::Array(parts)) => if part_texts(parts).len() == 0 {
            None
        } else {
            Some(text::joined(part_texts(parts), "\n"@))
        },
        _ => None,
    }
}

/// An image block for a URL.
pub open spec fn url_block(url: Seq<char>, detail: Option<JsonV>) -> JsonV {
    JsonV::object().with("type"@, JsonV::Text("image_url"@)).with(
        "image_url"@,
        JsonV::object().with("url"@, JsonV::Text(url)).with_some("detail"@, detail),
    )
}

/// The image block for an image part, where the part names an image by its URL.
pub open spec fn image_block(item: JsonV) -> Option<JsonV> {
    match item.get("image_url"@) {
        Some(JsonV::Text(url)) => if url.len() == 0 {
            None
        } else {
            Some(url_block(url, None))
        },
        Some(image) => match image.text_at("url"@) {
            Some(url) => if url.len() == 0 {
                None
            } else {
                Some(url_block(url, image.get("detail"@)))
            },
            None => None,
        },
        None => match image_source(item) {
            Some(source) => if source.text_at("type"@) == Some("url"@) {
                match source.text_at("url"@) {
                    Some(url) => Some(url_block(url, item.get("detail"@))),
                    None => None,
                }
            } else {
                None
            },
            None => None,
        },
    }
}

/// The source of an image part.
pub open spec fn image_source(item: JsonV) -> Option<JsonV> {
    if item.get("source"@) is Some {
        item.get("source"@)
    } else {
        item.get("image"@)
    }
}

/// What the content parts of a message come to.
pub struct ContentV {
    pub media: bool,
    pub texts: Seq<Seq<char>>,
    pub blocks: Seq<JsonV>,
}

/// What one content part adds.
pub open spec fn add_part(c: ContentV, part: JsonV) -> ContentV {
    let t = text::or_text(part.text_at("type"@), "input_text"@);
    if is_text_type(t) {
        match part.text_at("text"@) {
            Some(s) => ContentV {
                texts: c.texts.push(s),
                blocks: c.blocks.push(
                    JsonV::object().with("type"@, JsonV::Text("text"@)).with("text"@, JsonV::Text(s)),
                ),
                ..c
            },
            None => c,
        }
    } else if t == "input_image"@ || t == "image_url"@ {
        match image_block(part) {
            Some(b) => ContentV { media: true, blocks: c.blocks.push(b), ..c },
            None => c,
        }
    } else {
        c
    }
}

/// What the first `n` content parts come to.
pub open spec fn content_of(parts: Seq<JsonV>, n: int) -> ContentV
    decreases n,
{
    if n <= 0 {
        ContentV { media: false, texts: Seq::empty(), blocks: Seq::empty() }
    } else {
        add_part(content_of(parts, n - 1), parts[n - 1])
    }
}

/// The content of a chat message: blocks where there is an image, else the text.
pub open spec fn message_content(item: JsonV) -> JsonV {
    match item.get("content"@) {
        Some(JsonV::Text(s)) => JsonV::Text(s),
        Some(JsonV::Array(parts)) => {
            let c = content_of(parts, parts.len() as int);
            if c.media {
                JsonV::Array(c.blocks)
            } else if c.texts.len() > 0 {
                JsonV::Text(text::joined(c.texts, "\n"@))
            } else {
                JsonV::Text(""@)
            }
        },
        _ => JsonV::Text(""@),
    }
}

/// `msg` with a reasoning text, where there is one that is not empty.
pub open spec fn with_reasoning(msg: JsonV, reasoning: Option<Seq<char>>) -> JsonV {
    match reasoning {
        Some(t) => if t.len() > 0 {
            msg.with("reasoning_content"@, JsonV::Text(t))
        } else {
            msg
        },
        None => msg,
    }
}

/// The reasoning text that an item carries in its own `reasoning` member.
pub open spec fn own_reasoning(item: JsonV) -> Option<Seq<char>> {
    match item.get("reasoning"@) {
        Some(r) => reasoning_text(r),
        None => None,
    }
}

/// `first`, or `second` where it is missing.
pub open spec fn or_else(first: Option<Seq<char>>, second: Option<Seq<char>>) -> Option<Seq<char>> {
    if first is Some {
        first
    } else {
        second
    }
}

/// The chat message for a message item.
pub open spec fn chat_message(item: JsonV, pending: Option<Seq<char>>) -> JsonV {
    let role = normal_role(raw_role(item));
    let msg = JsonV::object().with("role"@, JsonV::Text(role)).with(
        "content"@,
        message_content(item),
    );
    if role == "assistant"@ {
        with_reasoning(msg, or_else(pending, own_reasoning(item)))
    } else {
        msg
    }
}

/// The reasoning text that still waits after a message item.
pub open spec fn pending_after_message(item: JsonV, pending: Option<Seq<char>>) -> Option<
    Seq<char>,
> {
    if normal_role(raw_role(item)) == "assistant"@ {
        None
    } else {
        pending
    }
}

/// The chat message for the output of a function call.
pub open spec fn tool_message(item: JsonV) -> JsonV {
    JsonV::object().with("role"@, JsonV::Text("tool"@)).with(
        "tool_call_id"@,
        JsonV::Text(text::or_text(item.text_at("call_id"@), ""@)),
    ).with("content"@, JsonV::Text(text::or_text(item.text_at("output"@), ""@)))
}

/// A function call that waits for its output.
pub struct FuncCallV {
    pub call_id: Seq<char>,
    pub name: Seq<char>,
    pub arguments: Seq<char>,
}

/// The tool call entry of an assistant message.
pub open spec fn tool_call(f: FuncCallV) -> JsonV {
    JsonV::object().with("id"@, JsonV::Text(f.call_id)).with("type"@, JsonV::Text("function"@)).with(
        "function"@,
        JsonV::object().with("name"@, JsonV::Text(f.name)).with(
            "arguments"@,
            JsonV::Text(f.arguments),
        ),
    )
}

/// The tool call entries for `calls`.
pub open spec fn tool_calls(calls: Seq<FuncCallV>) -> Seq<JsonV> {
    Seq::new(calls.len(), |i: int| tool_call(calls[i]))
}

/// How far the input items have been turned into chat messages.
pub struct TurnV {
    /// The messages so far.
    pub messages: Seq<JsonV>,
    /// A reasoning text that waits for the message or the calls that it belongs to.
    pub reasoning: Option<Seq<char>>,
    /// The function calls that wait for an output.
    pub calls: Seq<FuncCallV>,
    /// The assistant text that waits for tool calls or for the end.
    pub content: Option<Seq<char>>,
    /// The reasoning text of that assistant text.
    pub content_reasoning: Option<Seq<char>>,
    /// Whether an assistant message that outputs may answer stands before.
    pub active: bool,
}

impl TurnV {
    /// The state before the first item.
    pub open spec fn start(messages: Seq<JsonV>) -> TurnV {
        TurnV {
            messages,
            reasoning: None,
            calls: Seq::empty(),
            content: None,
            content_reasoning: None,
            active: false,
        }
    }

    /// All that waits is dropped.
    pub open spec fn discarded(self) -> TurnV {
        TurnV::start(self.messages)
    }

    /// Whether an assistant message is to be written before an output.
    pub open spec fn has_waiting(self) -> bool {
        self.calls.len() > 0 || self.content is Some
    }

    /// Whether the reasoning text for the waiting calls is to be looked up in the store.
    pub open spec fn asks_store(self) -> bool {
        self.has_waiting() && self.content_reasoning is None && self.reasoning is None
            && self.calls.len() > 0
    }

    /// The reasoning text for the waiting calls.
    pub open spec fn reasoning_for_calls(self, store: Entries, now: u128) -> Option<Seq<char>> {
        or_else(
            self.content_reasoning,
            or_else(
                self.reasoning,
                if self.calls.len() > 0 {
                    converter::valid_text(store, self.calls[0].call_id, now)
                } else {
                    None
                },
            ),
        )
    }

    /// The assistant message for what waits.
    pub open spec fn waiting_message(self, store: Entries, now: u128) -> JsonV {
        let msg = JsonV::object().with("role"@, JsonV::Text("assistant"@));
        let msg = match self.content {
            Some(c) => if c.len() > 0 {
                msg.with("content"@, JsonV::Text(c))
            } else {
                msg
            },
            None => msg,
        };
        let msg = if self.calls.len() > 0 {
            msg.with("tool_calls"@, JsonV::Array(tool_calls(self.calls)))
        } else {
            msg
        };
        with_reasoning(msg, self.reasoning_for_calls(store, now))
    }

    /// The state after the assistant message for what waits was written.
    pub open spec fn flushed(self, store: Entries, now: u128) -> TurnV {
        if self.has_waiting() {
            TurnV {
                messages: self.messages.push(self.waiting_message(store, now)),
                reasoning: self.reasoning,
                calls: Seq::empty(),
                content: None,
                content_reasoning: None,
                active: true,
            }
        } else {
            self
        }
    }

    /// The store after that.
    pub open spec fn store_after_flush(self, store: Entries) -> Entries {
        if self.asks_store() {
            store.remove(self.calls[0].call_id)
        } else {
            store
        }
    }

    /// The state after a message item.
    pub open spec fn after_message(self, item: JsonV) -> TurnV {
        if normal_role(raw_role(item)) == "assistant"@ {
            TurnV {
                reasoning: None,
                content: message_text(item),
                content_reasoning: or_else(self.reasoning, own_reasoning(item)),
                ..self
            }
        } else {
            TurnV {
                messages: self.messages.push(chat_message(item, None)),
                ..self.discarded()
            }
        }
    }

    /// The state after a function call item.
    pub open spec fn after_call(self, item: JsonV) -> TurnV {
        let f = FuncCallV {
            call_id: text::or_text(item.text_at("call_id"@), ""@),
            name: text::or_text(item.text_at("name"@), ""@),
            arguments: text::or_text(item.text_at("arguments"@), "{}"@),
        };
        if f.call_id.len() > 0 {
            TurnV { calls: self.calls.push(f), ..self }
        } else {
            self
        }
    }

    /// The state after the output of a function call.
    pub open spec fn after_output(self, item: JsonV, store: Entries, now: u128) -> TurnV {
        let t = self.flushed(store, now);
        if t.active {
            TurnV { messages: t.messages.push(tool_message(item)), ..t }
        } else {
            t
        }
    }

    /// The state after one item.
    pub open spec fn after(self, item: JsonV, store: Entries, now: u128) -> TurnV {
        let t = item_type(item);
        if is_message(item) {
            self.after_message(item)
        } else if t == "reasoning"@ {
            TurnV { reasoning: reasoning_text(item), ..self }
        } else if t == "function_call"@ {
            self.after_call(item)
        } else if t == "function_call_output"@ {
            self.after_output(item, store, now)
        } else {
            self.discarded()
        }
    }

    /// The store after one item.
    pub open spec fn store_after(self, item: JsonV, store: Entries) -> Entries {
        if !is_message(item) && item_type(item) == "function_call_output"@ {
            self.store_after_flush(store)
        } else {
            store
        }
    }

    /// The messages after the last item: an assistant text that still waits is written.
    pub open spec fn ended(self) -> Seq<JsonV> {
        match self.content {
            Some(c) => self.messages.push(
                with_reasoning(
                    JsonV::object().with("role"@, JsonV::Text("assistant"@)).with(
                        "content"@,
                        JsonV::Text(c),
                    ),
                    self.content_reasoning,
                ),
            ),
            None => self.messages,
        }
    }
}

/// The type that an input item names.
pub open spec fn item_type(item: JsonV) -> Seq<char> {
    text::or_text(item.text_at("type"@), ""@)
}

/// An item is a message if its type says so, or if it has a role and no type.
pub open spec fn is_message(item: JsonV) -> bool {
    item_type(item) == "message"@ || (item_type(item).len() == 0 && item.get("role"@) is Some)
}

/// The state, and the store, after the first `n` items.
pub open spec fn after_items(
    messages: Seq<JsonV>,
    items: Seq<JsonV>,
    n: int,
    store: Entries,
    now: u128,
) -> (TurnV, Entries)
    decreases n,
{
    if n <= 0 {
        (TurnV::start(messages), store)
    } else {
        let (t, s) = after_items(messages, items, n - 1, store, now);
        (t.after(items[n - 1], s, now), t.store_after(items[n - 1], s))
    }
}

/// The messages, and the store, after the input of a request.
pub open spec fn after_input(
    messages: Seq<JsonV>,
    input: JsonV,
    store: Entries,
    now: u128,
) -> (Seq<JsonV>, Entries) {
    match input {
        JsonV::Text(s) => (
            messages.push(
                JsonV::object().with("role"@, JsonV::Text("user"@)).with("content"@, JsonV::Text(s)),
            ),
            store,
        ),
        JsonV::Array(items) => {
            let (t, s) = after_items(messages, items, items.len() as int, store, now);
            (t.ended(), s)
        },
        _ => (messages, store),
    }
}

/// The name that a tool goes by.
pub open spec fn tool_name(tool: JsonV) -> Seq<char> {
    match or_member(tool, "name"@, "function.name"@) {
        Some(v) => text::or_text(v.as_text(), ""@),
        None => ""@,
    }
}

/// The member `first`, or the member `second` where there is none.
pub open spec fn or_member(v: JsonV, first: Seq<char>, second: Seq<char>) -> Option<JsonV> {
    if v.get(first) is Some {
        v.get(first)
    } else {
        v.get(second)
    }
}

/// The parameter schema of a tool: as it was given, or an empty object.
pub open spec fn tool_parameters(tool: JsonV) -> JsonV {
    match or_member(tool, "parameters"@, "function.parameters"@) {
        Some(p) => p,
        None => JsonV::object(),
    }
}

/// The chat tool for a tool, where it is a function with a name.
pub open spec fn chat_tool(tool: JsonV) -> Option<JsonV> {
    let kind = text::or_text(tool.text_at("type"@), ""@);
    if (kind != "function"@ && kind.len() > 0) || tool_name(tool).len() == 0 {
        None
    } else {
        let func = JsonV::object().with("name"@, JsonV::Text(tool_name(tool))).with(
            "parameters"@,
            tool_parameters(tool),
        );
        let func = match or_member(tool, "description"@, "function.description"@) {
            Some(JsonV::Text(d)) => func.with("description"@, JsonV::Text(d)),
            _ => func,
        };
        Some(JsonV::object().with("type"@, JsonV::Text("function"@)).with("function"@, func))
    }
}

/// The chat tools for the tools.
pub open spec fn chat_tools(tools: Seq<JsonV>) -> Seq<JsonV>
    decreases tools.len(),
{
    if tools.len() == 0 {
        Seq::empty()
    } else {
        match chat_tool(tools.last()) {
            Some(t) => chat_tools(tools.drop_last()).push(t),
            None => chat_tools(tools.drop_last()),
        }
    }
}

/// The reasoning effort for the effort that a request names.
pub open spec fn normal_effort(effort: Seq<char>) -> Seq<char> {
    if effort == "none"@ || effort == "auto"@ || effort == "low"@ || effort == "medium"@ || effort
        == "high"@ || effort == "xhigh"@ {
        effort
    } else if effort == "minimal"@ {
        "low"@
    } else {
        "auto"@
    }
}

/// The system message for the instructions of a request.
pub open spec fn instruction_messages(root: JsonV) -> Seq<JsonV> {
    match root.text_at("instructions"@) {
        Some(s) => if s.len() > 0 {
            seq![
                JsonV::object().with("role"@, JsonV::Text("system"@)).with(
                    "content"@,
                    JsonV::Text(s),
                ),
            ]
        } else {
            Seq::empty()
        },
        None => Seq::empty(),
    }
}

/// The messages of the chat request, and the store after them.
pub open spec fn request_messages(root: JsonV, store: Entries, now: u128) -> (Seq<JsonV>, Entries) {
    match root.get("input"@) {
        Some(input) => after_input(instruction_messages(root), input, store, now),
        None => (instruction_messages(root), store),
    }
}

/// The tools of the chat request, where it has any.
pub open spec fn request_tools(root: JsonV) -> Option<JsonV> {
    match root.get("tools"@) {
        Some(JsonV::Array(tools)) => if chat_tools(tools).len() > 0 {
            Some(JsonV::Array(chat_tools(tools)))
        } else {
            None
        },
        _ => None,
    }
}

/// The reasoning effort of the chat request, where the request names one.
pub open spec fn request_effort(root: JsonV) -> Option<JsonV> {
    match root.get("reasoning"@) {
        Some(r) => match r.text_at("effort"@) {
            Some(e) => Some(JsonV::Text(normal_effort(e))),
            None => None,
        },
        None => None,
    }
}

/// The chat request for a Responses request.
pub open spec fn chat_request(
    root: JsonV,
    model: Seq<char>,
    stream: bool,
    messages: Seq<JsonV>,
) -> JsonV {
    JsonV::object().with("model"@, JsonV::Text(model)).with("stream"@, JsonV::Bool(stream)).with_some(
        "stream_options"@,
        if stream {
            Some(JsonV::object().with("include_usage"@, JsonV::Bool(true)))
        } else {
            None
        },
    ).with_some("max_tokens"@, root.get("max_output_tokens"@)).with_some(
        "parallel_tool_calls"@,
        root.get("parallel_tool_calls"@),
    ).with_some("temperature"@, root.get("temperature"@)).with_some(
        "top_p"@,
        root.get("top_p"@),
    ).with_some("user"@, root.get("user"@)).with("messages"@, JsonV::Array(messages)).with_some(
        "tools"@,
        request_tools(root),
    ).with_some("tool_choice"@, root.get("tool_choice"@)).with_some(
        "reasoning_effort"@,
        request_effort(root),
    )
}

// ---------------------------------------------------------------------------------------------
// The conversion itself
// ---------------------------------------------------------------------------------------------

/// The role of a chat message for the role of an input item.
pub fn normalize_role(raw: &str) -> (r: String)
    ensures
        r@ == normal_role(raw@),
{
    if same(raw, "user") || same(raw, "assistant") || same(raw, "system") || same(raw, "tool") {
        raw.to_owned()
    } else if same(raw, "developer") {
        "system".to_owned()
    } else {
        "user".to_owned()
    }
}

/// The text of the member `key`, or `other` where there is none.
fn text_or(item: &Json, key: &str, other: &str) -> (r: String)
    ensures
        r@ == text::or_text(item@.text_at(key@), other@),
{
    match item.text_at(key) {
        Some(s) => s.to_owned(),
        None => other.to_owned(),
    }
}

/// The text without the white space around it, unless nothing is left.
fn solid_text(s: &str) -> (r: Option<String>)
    ensures
        text::maybe(r) == solid(s@),
{
    let t = trim(s);
    if t.as_str().is_empty() {
        None
    } else {
        Some(t)
    }
}

/// The reasoning text of a reasoning value.
pub fn extract_reasoning_text(item: &Json) -> (r: Option<String>)
    ensures
        text::maybe(r) == reasoning_text(item@),
{
    if let Some(s) = item.as_str() {
        return solid_text(s);
    }
    if let Some(summary) = item.get("summary") {
        if let Some(entries) = summary.as_array() {
            let ghost all = json::items_view(entries@);
            let mut i: usize = 0;
            while i < entries.len()
                invariant
                    i <= entries@.len(),
                    all == json::items_view(entries@),
                    reasoning_text(item@) == first_summary(all, i as int),
                decreases entries@.len() - i,
            {
                let entry = &entries[i];
                assert(all[i as int] == entry@);
                let kind = text_or(entry, "type", "");
                if same(kind.as_str(), "summary_text") {
                    if let Some(t) = entry.text_at("text") {
                        let found = solid_text(t);
                        if found.is_some() {
                            return found;
                        }
                    }
                }
                i += 1;
            }
        }
    }
    None
}

/// The text of an assistant message.
pub fn extract_message_text_content(item: &Json) -> (r: Option<String>)
    ensures
        text::maybe(r) == message_text(item@),
{
    match item.get("content") {
        Some(Json::Text(s)) => solid_text(s.as_str()),
        Some(content) => match content.as_array() {
            Some(parts) => {
                let ghost all = json::items_view(parts@);
                let mut texts: Vec<String> = Vec::new();
                let mut i: usize = 0;
                assert(all.take(0) =~= Seq::empty());
                assert(text::strings(texts@) =~= Seq::empty());
                while i < parts.len()
                    invariant
                        i <= parts@.len(),
                        all == json::items_view(parts@),
                        text::strings(texts@) == part_texts(all.take(i as int)),
                    decreases parts@.len() - i,
                {
                    let part = &parts[i];
                    let ghost before = texts@;
                    assert(all.take(i + 1).drop_last() =~= all.take(i as int));
                    assert(all.take(i + 1).last() == part@);
                    let kind = text_or(part, "type", "");
                    if is_text_kind(kind.as_str()) {
                        if let Some(t) = part.text_at("text") {
                            texts.push(t.to_owned());
                            assert(text::strings(texts@) =~= text::strings(before).push(t@));
                        }
                    }
                    i += 1;
                }
                assert(all.take(i as int) =~= all);
                assert(text::strings(texts@).len() == texts@.len());
                if texts.len() == 0 {
                    None
                } else {
                    Some(join(&texts, "\n"))
                }
            },
            None => None,
        },
        None => None,
    }
}

/// Whether the type of a content part carries text.
fn is_text_kind(kind: &str) -> (r: bool)
    ensures
        r == is_text_type(kind@),
{
    same(kind, "input_text") || same(kind, "output_text") || same(kind, "text")
}

/// An image block for a URL.
fn make_url_block(url: &str, detail: Option<&Json>) -> (r: Json)
    ensures
        r@ == url_block(
            url@,
            match detail {
                Some(d) => Some(d@),
                None => None,
            },
        ),
{
    let image = Json::object().with("url", Json::text(url));
    let image = match detail {
        Some(d) => image.with("detail", d.clone()),
        None => image,
    };
    Json::object().with("type", Json::text("image_url")).with("image_url", image)
}

/// The image block for an image part, where the part names an image by its URL.
pub fn convert_image_content(item: &Json) -> (r: Option<Json>)
    ensures
        json::maybe(r) == image_block(item@),
{
    if let Some(image) = item.get("image_url") {
        if let Some(url) = image.as_str() {
            if url.is_empty() {
                return None;
            }
            return Some(make_url_block(url, None));
        }
        return match image.text_at("url") {
            Some(url) => if url.is_empty() {
                None
            } else {
                Some(make_url_block(url, image.get("detail")))
            },
            None => None,
        };
    }
    let source = match item.get("source") {
        Some(s) => s,
        None => match item.get("image") {
            Some(s) => s,
            None => {
                return None;
            },
        },
    };
    match source.text_at("type") {
        Some(kind) => if same(kind, "url") {
            match source.text_at("url") {
                Some(url) => Some(make_url_block(url, item.get("detail"))),
                None => None,
            }
        } else {
            None
        },
        None => None,
    }
}

/// The content of a chat message.
fn make_content(item: &Json) -> (r: Json)
    ensures
        r@ == message_content(item@),
{
    match item.get("content") {
        Some(Json::Text(s)) => Json::text(s.as_str()),
        Some(content) => match content.as_array() {
            Some(parts) => {
                let ghost all = json::items_view(parts@);
                let mut media = false;
                let mut texts: Vec<String> = Vec::new();
                let mut blocks: Vec<Json> = Vec::new();
                let mut i: usize = 0;
                assert(text::strings(texts@) =~= Seq::empty());
                assert(json::items_view(blocks@) =~= Seq::empty());
                while i < parts.len()
                    invariant
                        i <= parts@.len(),
                        all == json::items_view(parts@),
                        content_of(all, i as int) == (ContentV {
                            media,
                            texts: text::strings(texts@),
                            blocks: json::items_view(blocks@),
                        }),
                    decreases parts@.len() - i,
                {
                    let part = &parts[i];
                    assert(all[i as int] == part@);
                    let ghost texts_before = texts@;
                    let ghost blocks_before = blocks@;
                    let kind = text_or(part, "type", "input_text");
                    if is_text_kind(kind.as_str()) {
                        if let Some(t) = part.text_at("text") {
                            texts.push(t.to_owned());
                            blocks.push(
                                Json::object().with("type", Json::text("text")).with(
                                    "text",
                                    Json::text(t),
                                ),
                            );
                            assert(text::strings(texts@) =~= text::strings(texts_before).push(t@));
                            assert(json::items_view(blocks@) =~= json::items_view(
                                blocks_before,
                            ).push(blocks@.last()@));
                        }
                    } else if same(kind.as_str(), "input_image") || same(
                        kind.as_str(),
                        "image_url",
                    ) {
                        if let Some(block) = convert_image_content(part) {
                            blocks.push(block);
                            media = true;
                            assert(json::items_view(blocks@) =~= json::items_view(
                                blocks_before,
                            ).push(block@));
                        }
                    }
                    i += 1;
                }
                if media {
                    let r = Json::Array(blocks);
                    assert(r@->Array_0 =~= json::items_view(blocks@));
                    r
                } else if texts.len() > 0 {
                    Json::Text(join(&texts, "\n"))
                } else {
                    Json::text("")
                }
            },
            None => Json::text(""),
        },
        None => Json::text(""),
    }
}

/// `msg` with a reasoning text, where there is one that is not empty.
fn add_reasoning(msg: Json, reasoning: Option<String>) -> (r: Json)
    ensures
        r@ == with_reasoning(msg@, text::maybe(reasoning)),
{
    match reasoning {
        Some(t) => if t.as_str().is_empty() {
            msg
        } else {
            msg.with("reasoning_content", Json::Text(t))
        },
        None => msg,
    }
}

/// The reasoning text that an item carries in its own `reasoning` member.
fn own_reasoning_text(item: &Json) -> (r: Option<String>)
    ensures
        text::maybe(r) == own_reasoning(item@),
{
    match item.get("reasoning") {
        Some(r) => extract_reasoning_text(r),
        None => None,
    }
}

/// The chat message for a message item; an assistant's takes the reasoning text that waits.
pub fn convert_message_item(item: &Json, pending_reasoning: &mut Option<String>) -> (r: Json)
    ensures
        r@ == chat_message(item@, text::maybe(*old(pending_reasoning))),
        text::maybe(*final(pending_reasoning)) == pending_after_message(
            item@,
            text::maybe(*old(pending_reasoning)),
        ),
{
    let raw = text_or(item, "role", "user");
    let role = normalize_role(raw.as_str());
    let msg = Json::object().with("role", Json::text(role.as_str())).with(
        "content",
        make_content(item),
    );
    if same(role.as_str(), "assistant") {
        let reasoning = match pending_reasoning.take() {
            Some(t) => Some(t),
            None => own_reasoning_text(item),
        };
        add_reasoning(msg, reasoning)
    } else {
        msg
    }
}

/// The chat message for the output of a function call.
pub fn convert_function_call_output_item(item: &Json) -> (r: Json)
    ensures
        r@ == tool_message(item@),
{
    let call_id = text_or(item, "call_id", "");
    let output = text_or(item, "output", "");
    Json::object().with("role", Json::text("tool")).with("tool_call_id", Json::Text(call_id)).with(
        "content",
        Json::Text(output),
    )
}

/// A function call that waits for its output.
struct FuncCallItem {
    call_id: String,
    name: String,
    arguments: String,
}

impl FuncCallItem {
    spec fn model(self) -> FuncCallV {
        FuncCallV { call_id: self.call_id@, name: self.name@, arguments: self.arguments@ }
    }
}

spec fn calls_model(v: Seq<FuncCallItem>) -> Seq<FuncCallV> {
    Seq::new(v.len(), |i: int| v[i].model())
}

/// How far the input items have been turned into chat messages.
struct Turn {
    messages: Vec<Json>,
    reasoning: Option<String>,
    calls: Vec<FuncCallItem>,
    content: Option<String>,
    content_reasoning: Option<String>,
    active: bool,
}

impl Turn {
    spec fn model(self) -> TurnV {
        TurnV {
            messages: json::items_view(self.messages@),
            reasoning: text::maybe(self.reasoning),
            calls: calls_model(self.calls@),
            content: text::maybe(self.content),
            content_reasoning: text::maybe(self.content_reasoning),
            active: self.active,
        }
    }

    fn start(messages: Vec<Json>) -> (r: Turn)
        ensures
            r.model() == TurnV::start(json::items_view(messages@)),
    {
        let r = Turn {
            messages,
            reasoning: None,
            calls: Vec::new(),
            content: None,
            content_reasoning: None,
            active: false,
        };
        assert(r.model().calls =~= Seq::empty());
        r
    }

    fn push(&mut self, msg: Json)
        ensures
            final(self).model() == (TurnV {
                messages: old(self).model().messages.push(msg@),
                ..old(self).model()
            }),
    {
        let ghost before = self.messages@;
        self.messages.push(msg);
        assert(json::items_view(self.messages@) =~= json::items_view(before).push(msg@));
    }

    /// Drops all that waits.
    fn discard(&mut self)
        ensures
            final(self).model() == old(self).model().discarded(),
    {
        self.calls = Vec::new();
        self.content = None;
        self.content_reasoning = None;
        self.reasoning = None;
        self.active = false;
        assert(self.model().calls =~= Seq::empty());
    }

    /// The tool call entries for the calls that wait.
    fn tool_call_list(&self) -> (r: Vec<Json>)
        ensures
            json::items_view(r@) == tool_calls(self.model().calls),
    {
        let mut list: Vec<Json> = Vec::new();
        let mut i: usize = 0;
        while i < self.calls.len()
            invariant
                i <= self.calls@.len(),
                list@.len() == i,
                forall|k: int|
                    0 <= k < i ==> (#[trigger] list@[k])@ == tool_call(self.calls@[k].model()),
            decreases self.calls@.len() - i,
        {
            let f = &self.calls[i];
            list.push(
                Json::object().with("id", Json::text(f.call_id.as_str())).with(
                    "type",
                    Json::text("function"),
                ).with(
                    "function",
                    Json::object().with("name", Json::text(f.name.as_str())).with(
                        "arguments",
                        Json::text(f.arguments.as_str()),
                    ),
                ),
            );
            i += 1;
        }
        assert(json::items_view(list@) =~= tool_calls(self.model().calls));
        list
    }

    /// Writes the assistant message for what waits.
    fn flush(&mut self, store: &mut ReasoningStore, now: u128)
        ensures
            final(self).model() == old(self).model().flushed(old(store)@, now),
            final(store)@ == old(self).model().store_after_flush(old(store)@),
    {
        if self.calls.len() == 0 && self.content.is_none() {
            return;
        }
        let ghost before = self.model();
        let list = self.tool_call_list();
        assert(json::items_view(list@).len() == list@.len());
        let mut msg = Json::object().with("role", Json::text("assistant"));
        if let Some(c) = &self.content {
            if !c.as_str().is_empty() {
                msg = msg.with("content", Json::text(c.as_str()));
            }
        }
        if list.len() > 0 {
            let entry = Json::Array(list);
            assert(entry@->Array_0 =~= json::items_view(list@));
            msg = msg.with("tool_calls", entry);
        }
        let reasoning = match self.content_reasoning.take() {
            Some(t) => Some(t),
            None => match &self.reasoning {
                Some(t) => Some(t.clone()),
                None => if self.calls.len() > 0 {
                    assert(before.calls[0] == self.calls@[0].model());
                    store.take_at(self.calls[0].call_id.as_str(), now)
                } else {
                    None
                },
            },
        };
        assert(text::maybe(reasoning) == before.reasoning_for_calls(old(store)@, now));
        let msg = add_reasoning(msg, reasoning);
        assert(msg@ == before.waiting_message(old(store)@, now));
        self.calls = Vec::new();
        self.content = None;
        self.content_reasoning = None;
        self.active = true;
        assert(self.model().calls =~= Seq::empty());
        self.push(msg);
    }

    /// Takes in a message item.
    fn message(&mut self, item: &Json)
        ensures
            final(self).model() == old(self).model().after_message(item@),
    {
        let raw = text_or(item, "role", "user");
        let role = normalize_role(raw.as_str());
        if same(role.as_str(), "assistant") {
            self.content = extract_message_text_content(item);
            self.content_reasoning = match self.reasoning.take() {
                Some(t) => Some(t),
                None => own_reasoning_text(item),
            };
        } else {
            self.discard();
            let mut pending: Option<String> = None;
            let msg = convert_message_item(item, &mut pending);
            self.push(msg);
        }
    }

    /// Takes in a function call item.
    fn call(&mut self, item: &Json)
        ensures
            final(self).model() == old(self).model().after_call(item@),
    {
        let call_id = text_or(item, "call_id", "");
        let name = text_or(item, "name", "");
        let arguments = text_or(item, "arguments", "{}");
        if !call_id.as_str().is_empty() {
            let ghost before = self.calls@;
            let f = FuncCallItem { call_id, name, arguments };
            self.calls.push(f);
            assert(calls_model(self.calls@) =~= calls_model(before).push(f.model()));
        }
    }

    /// Takes in one input item.
    fn item(&mut self, item: &Json, store: &mut ReasoningStore, now: u128)
        ensures
            final(self).model() == old(self).model().after(item@, old(store)@, now),
            final(store)@ == old(self).model().store_after(item@, old(store)@),
    {
        proof {
            reveal_strlit("reasoning");
            reveal_strlit("function_call");
            reveal_strlit("function_call_output");
        }
        let kind = text_or(item, "type", "");
        if same(kind.as_str(), "message") || (kind.as_str().is_empty() && item.get(
            "role",
        ).is_some()) {
            self.message(item);
        } else if same(kind.as_str(), "reasoning") {
            self.reasoning = extract_reasoning_text(item);
        } else if same(kind.as_str(), "function_call") {
            self.call(item);
        } else if same(kind.as_str(), "function_call_output") {
            self.flush(store, now);
            if self.active {
                self.push(convert_function_call_output_item(item));
            }
        } else {
            self.discard();
        }
    }

    /// The messages after the last item.
    fn finish(self) -> (r: Vec<Json>)
        ensures
            json::items_view(r@) == self.model().ended(),
    {
        let mut t = self;
        match t.content.take() {
            Some(c) => {
                let msg = add_reasoning(
                    Json::object().with("role", Json::text("assistant")).with(
                        "content",
                        Json::Text(c),
                    ),
                    t.content_reasoning.take(),
                );
                t.push(msg);
                t.messages
            },
            None => t.messages,
        }
    }
}

/// The messages with those of the input behind them.
pub fn convert_input_to_messages(
    input: &Json,
    messages: Vec<Json>,
    store: &mut ReasoningStore,
    now: u128,
) -> (r: Vec<Json>)
    ensures
        json::items_view(r@) == after_input(
            json::items_view(messages@),
            input@,
            old(store)@,
            now,
        ).0,
        final(store)@ == after_input(json::items_view(messages@), input@, old(store)@, now).1,
{
    if let Some(s) = input.as_str() {
        let mut out = messages;
        out.push(Json::object().with("role", Json::text("user")).with("content", Json::text(s)));
        assert(json::items_view(out@) =~= json::items_view(messages@).push(out@.last()@));
        return out;
    }
    match input.as_array() {
        Some(items) => {
            let ghost all = json::items_view(items@);
            let ghost first = json::items_view(messages@);
            let ghost store_before = store@;
            let mut turn = Turn::start(messages);
            let mut i: usize = 0;
            while i < items.len()
                invariant
                    i <= items@.len(),
                    all == json::items_view(items@),
                    (turn.model(), store@) == after_items(
                        first,
                        all,
                        i as int,
                        store_before,
                        now,
                    ),
                decreases items@.len() - i,
            {
                assert(all[i as int] == items@[i as int]@);
                turn.item(&items[i], store, now);
                i += 1;
            }
            turn.finish()
        },
        None => messages,
    }
}

/// The parameter schema of a tool: as it was given, or an empty object.
pub fn normalize_tool_parameters(parameters: Option<&Json>) -> (r: Json)
    ensures
        r@ == (match parameters {
            Some(p) => p@,
            None => JsonV::object(),
        }),
{
    match parameters {
        Some(p) => p.clone(),
        None => Json::object(),
    }
}

/// The member `first`, or the member `second` where there is none.
fn member_or<'a>(v: &'a Json, first: &str, second: &str) -> (r: Option<&'a Json>)
    ensures
        match r {
            Some(j) => or_member(v@, first@, second@) == Some(j@),
            None => or_member(v@, first@, second@) is None,
        },
{
    match v.get(first) {
        Some(j) => Some(j),
        None => v.get(second),
    }
}

/// The chat tool for a tool, where it is a function with a name.
fn convert_tool(tool: &Json) -> (r: Option<Json>)
    ensures
        json::maybe(r) == chat_tool(tool@),
{
    let kind = text_or(tool, "type", "");
    if !same(kind.as_str(), "function") && !kind.as_str().is_empty() {
        return None;
    }
    proof {
        reveal_strlit("");
    }
    let name = match member_or(tool, "name", "function.name") {
        Some(v) => match v.as_str() {
            Some(s) => s,
            None => "",
        },
        None => "",
    };
    if name.is_empty() {
        return None;
    }
    let params = normalize_tool_parameters(member_or(tool, "parameters", "function.parameters"));
    let mut func = Json::object().with("name", Json::text(name)).with("parameters", params);
    if let Some(v) = member_or(tool, "description", "function.description") {
        if let Some(d) = v.as_str() {
            func = func.with("description", Json::text(d));
        }
    }
    Some(Json::object().with("type", Json::text("function")).with("function", func))
}

/// The chat tools for the tools.
pub fn convert_tools(tools: &Vec<Json>) -> (r: Vec<Json>)
    ensures
        json::items_view(r@) == chat_tools(json::items_view(tools@)),
{
    let ghost all = json::items_view(tools@);
    let mut out: Vec<Json> = Vec::new();
    let mut i: usize = 0;
    assert(all.take(0) =~= Seq::empty());
    assert(json::items_view(out@) =~= Seq::empty());
    while i < tools.len()
        invariant
            i <= tools@.len(),
            all == json::items_view(tools@),
            json::items_view(out@) == chat_tools(all.take(i as int)),
        decreases tools@.len() - i,
    {
        let ghost before = out@;
        assert(all.take(i + 1).drop_last() =~= all.take(i as int));
        assert(all.take(i + 1).last() == tools@[i as int]@);
        if let Some(t) = convert_tool(&tools[i]) {
            out.push(t);
            assert(json::items_view(out@) =~= json::items_view(before).push(t@));
        }
        i += 1;
    }
    assert(all.take(i as int) =~= all);
    out
}

/// The reasoning effort for the effort that a request names.
fn normalize_effort(effort: &str) -> (r: String)
    ensures
        r@ == normal_effort(effort@),
{
    if same(effort, "none") || same(effort, "auto") || same(effort, "low") || same(effort, "medium")
        || same(effort, "high") || same(effort, "xhigh") {
        effort.to_owned()
    } else if same(effort, "minimal") {
        "low".to_owned()
    } else {
        "auto".to_owned()
    }
}

/// `target` with the member `to`, where `source` has a member `from`.
fn copy_member(target: Json, to: &str, source: &Json, from: &str) -> (r: Json)
    ensures
        r@ == target@.with_some(to@, source@.get(from@)),
{
    match source.get(from) {
        Some(v) => target.with(to, v.clone()),
        None => target,
    }
}

/// The chat request for a Responses request, at the time `now` on the store's clock.
pub fn convert_request(
    root: &Json,
    mapped_model: &str,
    stream: bool,
    store: &mut ReasoningStore,
    now: u128,
) -> (r: Json)
    ensures
        r@ == chat_request(
            root@,
            mapped_model@,
            stream,
            request_messages(root@, old(store)@, now).0,
        ),
        final(store)@ == request_messages(root@, old(store)@, now).1,
{
    let mut chat = Json::object().with("model", Json::text(mapped_model)).with(
        "stream",
        Json::Bool(stream),
    );
    if stream {
        chat = chat.with(
            "stream_options",
            Json::object().with("include_usage", Json::Bool(true)),
        );
    }
    chat = copy_member(chat, "max_tokens", root, "max_output_tokens");
    chat = copy_member(chat, "parallel_tool_calls", root, "parallel_tool_calls");
    chat = copy_member(chat, "temperature", root, "temperature");
    chat = copy_member(chat, "top_p", root, "top_p");
    chat = copy_member(chat, "user", root, "user");

    let mut messages: Vec<Json> = Vec::new();
    if let Some(s) = root.text_at("instructions") {
        if !s.is_empty() {
            messages.push(
                Json::object().with("role", Json::text("system")).with("content", Json::text(s)),
            );
        }
    }
    assert(json::items_view(messages@) =~= instruction_messages(root@));
    if let Some(input) = root.get("input") {
        messages = convert_input_to_messages(input, messages, store, now);
    }
    let list = Json::Array(messages);
    assert(list@->Array_0 =~= json::items_view(messages@));
    chat = chat.with("messages", list);

    if let Some(v) = root.get("tools") {
        if let Some(tools) = v.as_array() {
            let chat_list = convert_tools(tools);
            if chat_list.len() > 0 {
                let entry = Json::Array(chat_list);
                assert(entry@->Array_0 =~= json::items_view(chat_list@));
                chat = chat.with("tools", entry);
            }
        }
    }
    chat = copy_member(chat, "tool_choice", root, "tool_choice");
    if let Some(reasoning) = root.get("reasoning") {
        if let Some(effort) = reasoning.text_at("effort") {
            chat = chat.with("reasoning_effort", Json::Text(normalize_effort(effort)));
        }
    }
    chat
}

/// A request body in the Chat Completions format.
pub struct ConvertedRequest {
    pub body: Vec<u8>,
}

/// Why a body could not be converted.
pub struct ConvertError {
    pub message: String,
}

/// The bytes of the chat request for the document in `body`.
pub open spec fn chat_body(
    root: JsonV,
    model: Seq<char>,
    stream: bool,
    store: Entries,
    now: u128,
) -> Seq<u8> {
    vstd::utf8::encode_utf8(
        json::json_text(chat_request(root, model, stream, request_messages(root, store, now).0)),
    )
}

/// Converts the body of a Responses request. The reasoning texts of the function calls in it come
/// from the store, at the time of the call.
pub fn convert_responses_to_chat_request(
    body: &[u8],
    mapped_model: &str,
    stream: bool,
    store: &mut ReasoningStore,
) -> (r: Result<ConvertedRequest, ConvertError>)
    ensures
        match json::parsed_json(body@) {
            Some(root) => exists|now: u128|
                {
                    &&& r matches Ok(c)
                    &&& c.body@ == #[trigger] chat_body(root, mapped_model@, stream, old(store)@, now)
                    &&& final(store)@ == request_messages(root, old(store)@, now).1
                },
            None => {
                &&& r matches Err(e)
                &&& e.message@ == json::parse_complaint(body@)
                &&& final(store)@ == old(store)@
            },
        },
{
    match Json::parse(body) {
        Ok(root) => {
            let now: u128 = store.now();
            let chat = convert_request(&root, mapped_model, stream, store, now);
            let bytes = chat.print().as_str().as_bytes_vec();
            assert(bytes@ == chat_body(root@, mapped_model@, stream, old(store)@, now));
            Ok(ConvertedRequest { body: bytes })
        },
        Err(message) => Err(ConvertError { message }),
    }
}

} // verus!

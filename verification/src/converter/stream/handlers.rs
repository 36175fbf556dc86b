//! The blocks of a stream: how each opens, grows and closes.

use vstd::prelude::*;
use vstd::string::*;

use super::images;
use super::images::extract_image_urls_from_text;
use super::{Call, Outbox, StreamState};
use super::{CallV, FuncV, ReasoningV, SessionV, StepV, StreamV, TextV};
use crate::json;
use crate::json::{Json, JsonV};
use crate::text;
use crate::text::decimal_text;
use crate::types::{ToolCallDelta, ToolCallDeltaV};

verus! {

// ---------------------------------------------------------------------------------------------
// Output items
// ---------------------------------------------------------------------------------------------

/// An identifier made of a prefix, the identifier of the response and a number.
pub open spec fn numbered_id(prefix: Seq<char>, response_id: Seq<char>, n: i64) -> Seq<char> {
    prefix + response_id + "_"@ + text::decimal(n as int)
}

/// A part of a reasoning item.
pub open spec fn summary_text(s: Seq<char>) -> JsonV {
    JsonV::object().with("type"@, JsonV::Text("summary_text"@)).with("text"@, JsonV::Text(s))
}

/// The text part of a message.
pub open spec fn output_text(s: Seq<char>) -> JsonV {
    JsonV::object().with("type"@, JsonV::Text("output_text"@)).with(
        "annotations"@,
        JsonV::Array(Seq::empty()),
    ).with("logprobs"@, JsonV::Array(Seq::empty())).with("text"@, JsonV::Text(s))
}

/// The parts of a message: its text, and the images that the text refers to.
pub open spec fn message_parts(s: Seq<char>) -> Seq<JsonV> {
    seq![output_text(s)] + images::image_parts(images::image_urls(s))
}

/// A reasoning item.
pub open spec fn reasoning_item(id: Seq<char>, status: Seq<char>, summary: Seq<JsonV>) -> JsonV {
    JsonV::object().with("id"@, JsonV::Text(id)).with("type"@, JsonV::Text("reasoning"@)).with(
        "status"@,
        JsonV::Text(status),
    ).with("summary"@, JsonV::Array(summary))
}

/// A message of the assistant.
pub open spec fn message_item(id: Seq<char>, status: Seq<char>, content: Seq<JsonV>) -> JsonV {
    JsonV::object().with("id"@, JsonV::Text(id)).with("type"@, JsonV::Text("message"@)).with(
        "status"@,
        JsonV::Text(status),
    ).with("content"@, JsonV::Array(content)).with("role"@, JsonV::Text("assistant"@))
}

/// The identifier of the item for a function call.
pub open spec fn call_item_id(call_id: Seq<char>) -> Seq<char> {
    "fc_"@ + call_id
}

/// A function call.
pub open spec fn call_item(
    call_id: Seq<char>,
    name: Seq<char>,
    status: Seq<char>,
    args: Seq<char>,
) -> JsonV {
    JsonV::object().with("id"@, JsonV::Text(call_item_id(call_id))).with(
        "type"@,
        JsonV::Text("function_call"@),
    ).with("status"@, JsonV::Text(status)).with("arguments"@, JsonV::Text(args)).with(
        "call_id"@,
        JsonV::Text(call_id),
    ).with("name"@, JsonV::Text(name))
}

/// An identifier made of a prefix, the identifier of the response and a number.
pub(super) fn make_numbered_id(prefix: &str, response_id: &str, n: i64) -> (r: String)
    ensures
        r@ == numbered_id(prefix@, response_id@, n),
{
    let mut r = String::new();
    r.append(prefix);
    r.append(response_id);
    r.append("_");
    r.append(decimal_text(n).as_str());
    assert(r@ =~= numbered_id(prefix@, response_id@, n));
    r
}

/// A part of a reasoning item.
pub(super) fn make_summary_text(s: &str) -> (r: Json)
    ensures
        r@ == summary_text(s@),
{
    Json::object().with("type", Json::text("summary_text")).with("text", Json::text(s))
}

/// The text part of a message.
pub(super) fn make_output_text(s: &str) -> (r: Json)
    ensures
        r@ == output_text(s@),
{
    Json::object().with("type", Json::text("output_text")).with(
        "annotations",
        Json::empty_array(),
    ).with("logprobs", Json::empty_array()).with("text", Json::text(s))
}

/// The parts of a message.
pub(super) fn make_message_parts(s: &str) -> (r: Json)
    ensures
        r@ == JsonV::Array(message_parts(s@)),
{
    let mut v: Vec<Json> = Vec::new();
    v.push(make_output_text(s));
    let ghost first = v@;
    let mut found = extract_image_urls_from_text(s);
    let ghost others = found@;
    v.append(&mut found);
    assert(json::items_view(v@) =~= seq![output_text(s@)] + json::items_view(others));
    Json::array(v)
}

/// A reasoning item.
pub(super) fn make_reasoning_item(id: &str, status: &str, summary: Json) -> (r: Json)
    requires
        summary@ is Array,
    ensures
        r@ == reasoning_item(id@, status@, summary@->Array_0),
{
    Json::object().with("id", Json::text(id)).with("type", Json::text("reasoning")).with(
        "status",
        Json::text(status),
    ).with("summary", summary)
}

/// A message of the assistant.
pub(super) fn make_message_item(id: &str, status: &str, content: Json) -> (r: Json)
    requires
        content@ is Array,
    ensures
        r@ == message_item(id@, status@, content@->Array_0),
{
    Json::object().with("id", Json::text(id)).with("type", Json::text("message")).with(
        "status",
        Json::text(status),
    ).with("content", content).with("role", Json::text("assistant"))
}

/// The identifier of the item for a function call.
pub(crate) fn make_call_item_id(call_id: &str) -> (r: String)
    ensures
        r@ == call_item_id(call_id@),
{
    let mut r = String::new();
    r.append("fc_");
    r.append(call_id);
    assert(r@ =~= call_item_id(call_id@));
    r
}

/// A function call.
pub(super) fn make_call_item(call_id: &str, name: &str, status: &str, args: &str) -> (r: Json)
    ensures
        r@ == call_item(call_id@, name@, status@, args@),
{
    Json::object().with("id", Json::Text(make_call_item_id(call_id))).with(
        "type",
        Json::text("function_call"),
    ).with("status", Json::text(status)).with("arguments", Json::text(args)).with(
        "call_id",
        Json::text(call_id),
    ).with("name", Json::text(name))
}

// ---------------------------------------------------------------------------------------------
// Reasoning
// ---------------------------------------------------------------------------------------------

/// What an event says of its place in a reasoning item.
pub open spec fn in_reasoning(r: ReasoningV) -> JsonV {
    JsonV::object().with("item_id"@, JsonV::Text(r.item_id)).with(
        "output_index"@,
        JsonV::Int(r.output_index as int),
    ).with("summary_index"@, JsonV::Int(0))
}

/// What an event says of an output item.
pub open spec fn with_item(output_index: i64, item: JsonV) -> JsonV {
    JsonV::object().with("output_index"@, JsonV::Int(output_index as int)).with("item"@, item)
}

impl StepV {
    /// The step with a reasoning item that takes text.
    pub open spec fn reasoning_opened(self) -> StepV {
        if self.stream.reasoning.active {
            self
        } else {
            let i = self.stream.text.current_output_index;
            let r = ReasoningV {
                active: true,
                item_id: numbered_id(
                    "rs_"@,
                    self.stream.session.response_id,
                    self.stream.reasoning.sequence,
                ),
                buf: Seq::empty(),
                part_added: true,
                output_index: i,
                ..self.stream.reasoning
            };
            StepV {
                stream: StreamV {
                    text: TextV {
                        current_output_index: super::following(i),
                        ..self.stream.text
                    },
                    reasoning: r,
                    ..self.stream
                },
                ..self
            }.emit(
                "response.output_item.added"@,
                with_item(i, reasoning_item(r.item_id, "in_progress"@, Seq::empty())),
            ).emit(
                "response.reasoning_summary_part.added"@,
                in_reasoning(r).with("part"@, summary_text(Seq::empty())),
            )
        }
    }

    /// The step after a piece of reasoning.
    pub open spec fn reasoning_part(self, s: Seq<char>) -> StepV {
        let opened = self.reasoning_opened();
        let r = ReasoningV {
            buf: opened.stream.reasoning.buf + s,
            ..opened.stream.reasoning
        };
        StepV { stream: StreamV { reasoning: r, ..opened.stream }, ..opened }.emit(
            "response.reasoning_summary_text.delta"@,
            in_reasoning(r).with("text"@, JsonV::Text(s)),
        )
    }

    /// The step with no reasoning item that takes text.
    pub open spec fn reasoning_closed(self) -> StepV {
        let r = self.stream.reasoning;
        if !r.active {
            self
        } else {
            let done = self.emit(
                "response.reasoning_summary_text.done"@,
                in_reasoning(r).with("text"@, JsonV::Text(r.buf)),
            ).emit(
                "response.reasoning_summary_part.done"@,
                in_reasoning(r).with("part"@, summary_text(r.buf)),
            ).emit(
                "response.output_item.done"@,
                with_item(
                    r.output_index,
                    reasoning_item(r.item_id, "completed"@, seq![summary_text(r.buf)]),
                ),
            );
            StepV {
                stream: StreamV {
                    reasoning: ReasoningV {
                        active: false,
                        buf: Seq::empty(),
                        sequence: super::following(r.sequence),
                        for_func_calls: if r.buf.len() > 0 {
                            Some(r.buf)
                        } else {
                            r.for_func_calls
                        },
                        ..r
                    },
                    ..done.stream
                },
                ..done
            }
        }
    }
}

fn at_reasoning(st: &StreamState) -> (r: Json)
    ensures
        r@ == in_reasoning(st@.reasoning),
{
    Json::object().with("item_id", Json::text(st.reasoning.item_id.as_str())).with(
        "output_index",
        Json::Int(st.reasoning.output_index),
    ).with("summary_index", Json::Int(0))
}

pub(super) fn about_item(output_index: i64, item: Json) -> (r: Json)
    ensures
        r@ == with_item(output_index, item@),
{
    Json::object().with("output_index", Json::Int(output_index)).with("item", item)
}

/// Takes in a piece of reasoning, and opens a reasoning item for it where none is open.
pub(super) fn handle_reasoning_part(st: &mut StreamState, out: &mut Outbox, s: &str)
    requires
        old(out).wf(),
    ensures
        final(out).wf(),
        super::step_of(*final(st), *final(out)) == super::step_of(
            *old(st),
            *old(out),
        ).reasoning_part(s@),
{
    let ghost before = super::step_of(*st, *out);
    if !st.reasoning.active {
        let i = st.text.current_output_index;
        st.text.current_output_index = i.wrapping_add(1);
        st.reasoning.output_index = i;
        st.reasoning.active = true;
        st.reasoning.buf = String::new();
        st.reasoning.part_added = true;
        st.reasoning.item_id = make_numbered_id(
            "rs_",
            st.session.response_id.as_str(),
            st.reasoning.sequence,
        );
        assert(st.reasoning.buf@ =~= Seq::empty());
        let item = make_reasoning_item(
            st.reasoning.item_id.as_str(),
            "in_progress",
            Json::empty_array(),
        );
        st.emit(out, "response.output_item.added", about_item(i, item));
        proof {
            reveal_strlit("");
            assert(""@ =~= Seq::empty());
        }
        let part = at_reasoning(st).with("part", make_summary_text(""));
        st.emit(out, "response.reasoning_summary_part.added", part);
    }
    assert(super::step_of(*st, *out) == before.reasoning_opened());
    st.reasoning.buf.append(s);
    let delta = at_reasoning(st).with("text", Json::text(s));
    st.emit(out, "response.reasoning_summary_text.delta", delta);
}

/// Closes the reasoning item, where one is open.
pub(super) fn close_reasoning_block(st: &mut StreamState, out: &mut Outbox)
    requires
        old(out).wf(),
    ensures
        final(out).wf(),
        super::step_of(*final(st), *final(out)) == super::step_of(
            *old(st),
            *old(out),
        ).reasoning_closed(),
{
    if !st.reasoning.active {
        return;
    }
    let full_text = st.reasoning.buf.clone();
    let text_done = at_reasoning(st).with("text", Json::text(full_text.as_str()));
    st.emit(out, "response.reasoning_summary_text.done", text_done);
    let part_done = at_reasoning(st).with("part", make_summary_text(full_text.as_str()));
    st.emit(out, "response.reasoning_summary_part.done", part_done);
    let item = make_reasoning_item(
        st.reasoning.item_id.as_str(),
        "completed",
        Json::singleton(make_summary_text(full_text.as_str())),
    );
    st.emit(out, "response.output_item.done", about_item(st.reasoning.output_index, item));
    if !full_text.as_str().is_empty() {
        st.reasoning.for_func_calls = Some(full_text);
    }
    st.reasoning.active = false;
    st.reasoning.buf = String::new();
    st.reasoning.sequence = st.reasoning.sequence.wrapping_add(1);
    assert(st.reasoning.buf@ =~= Seq::empty());
}

// ---------------------------------------------------------------------------------------------
// The message
// ---------------------------------------------------------------------------------------------

/// What an event says of its place in a message.
pub open spec fn in_message(t: TextV) -> JsonV {
    JsonV::object().with("item_id"@, JsonV::Text(t.msg_id)).with(
        "output_index"@,
        JsonV::Int(t.msg_output_index as int),
    ).with("content_index"@, JsonV::Int(0))
}

impl StepV {
    /// The step with a message that takes text.
    pub open spec fn text_opened(self) -> StepV {
        if self.stream.text.in_block {
            self
        } else {
            let i = self.stream.text.current_output_index;
            let t = TextV {
                in_block: true,
                buf: Seq::empty(),
                msg_id: numbered_id("msg_"@, self.stream.session.response_id, i),
                msg_output_index: i,
                current_output_index: super::following(i),
            };
            StepV { stream: StreamV { text: t, ..self.stream }, ..self }.emit(
                "response.output_item.added"@,
                with_item(i, message_item(t.msg_id, "in_progress"@, Seq::empty())),
            ).emit(
                "response.content_part.added"@,
                in_message(t).with("part"@, output_text(Seq::empty())),
            )
        }
    }

    /// The step after a piece of content.
    pub open spec fn content_part(self, s: Seq<char>) -> StepV {
        let opened = self.text_opened();
        let t = TextV { buf: opened.stream.text.buf + s, ..opened.stream.text };
        StepV { stream: StreamV { text: t, ..opened.stream }, ..opened }.emit(
            "response.output_text.delta"@,
            in_message(t).with("delta"@, JsonV::Text(s)).with(
                "logprobs"@,
                JsonV::Array(Seq::empty()),
            ),
        )
    }

    /// The step with no message that takes text.
    pub open spec fn text_closed(self) -> StepV {
        let t = self.stream.text;
        if !t.in_block {
            self
        } else {
            let done = self.emit(
                "response.output_text.done"@,
                in_message(t).with("text"@, JsonV::Text(t.buf)).with(
                    "logprobs"@,
                    JsonV::Array(Seq::empty()),
                ),
            ).emit(
                "response.content_part.done"@,
                in_message(t).with("part"@, output_text(t.buf)),
            ).emit(
                "response.output_item.done"@,
                with_item(
                    t.msg_output_index,
                    message_item(t.msg_id, "completed"@, message_parts(t.buf)),
                ),
            );
            StepV {
                stream: StreamV { text: TextV { in_block: false, ..t }, ..done.stream },
                ..done
            }
        }
    }
}

fn at_message(st: &StreamState) -> (r: Json)
    ensures
        r@ == in_message(st@.text),
{
    Json::object().with("item_id", Json::text(st.text.msg_id.as_str())).with(
        "output_index",
        Json::Int(st.text.msg_output_index),
    ).with("content_index", Json::Int(0))
}

/// Takes in a piece of content, and opens a message for it where none is open.
pub(super) fn handle_content_part(st: &mut StreamState, out: &mut Outbox, s: &str)
    requires
        old(out).wf(),
    ensures
        final(out).wf(),
        super::step_of(*final(st), *final(out)) == super::step_of(
            *old(st),
            *old(out),
        ).content_part(s@),
{
    let ghost before = super::step_of(*st, *out);
    if !st.text.in_block {
        let i = st.text.current_output_index;
        st.text.in_block = true;
        st.text.buf = String::new();
        st.text.current_output_index = i.wrapping_add(1);
        st.text.msg_output_index = i;
        st.text.msg_id = make_numbered_id("msg_", st.session.response_id.as_str(), i);
        assert(st.text.buf@ =~= Seq::empty());
        let item = make_message_item(st.text.msg_id.as_str(), "in_progress", Json::empty_array());
        st.emit(out, "response.output_item.added", about_item(i, item));
        proof {
            reveal_strlit("");
            assert(""@ =~= Seq::empty());
        }
        let part = at_message(st).with("part", make_output_text(""));
        st.emit(out, "response.content_part.added", part);
    }
    assert(super::step_of(*st, *out) == before.text_opened());
    st.text.buf.append(s);
    let delta = at_message(st).with("delta", Json::text(s)).with("logprobs", Json::empty_array());
    st.emit(out, "response.output_text.delta", delta);
}

/// Closes the message, where one is open.
pub(super) fn close_text_block(st: &mut StreamState, out: &mut Outbox)
    requires
        old(out).wf(),
    ensures
        final(out).wf(),
        super::step_of(*final(st), *final(out)) == super::step_of(
            *old(st),
            *old(out),
        ).text_closed(),
{
    if !st.text.in_block {
        return;
    }
    let done = at_message(st).with("text", Json::text(st.text.buf.as_str())).with(
        "logprobs",
        Json::empty_array(),
    );
    st.emit(out, "response.output_text.done", done);
    let part_done = at_message(st).with("part", make_output_text(st.text.buf.as_str()));
    st.emit(out, "response.content_part.done", part_done);
    let item = make_message_item(
        st.text.msg_id.as_str(),
        "completed",
        make_message_parts(st.text.buf.as_str()),
    );
    st.emit(out, "response.output_item.done", about_item(st.text.msg_output_index, item));
    st.text.in_block = false;
}

// ---------------------------------------------------------------------------------------------
// Function calls
// ---------------------------------------------------------------------------------------------

/// The first position at or behind `k` of a call whose index is no smaller than `index`.
pub open spec fn slot_from(calls: Seq<CallV>, index: i64, k: int) -> int
    decreases calls.len() - k,
{
    if 0 <= k < calls.len() && calls[k].index < index {
        slot_from(calls, index, k + 1)
    } else {
        k
    }
}

/// The position at which the call of that index stands, or belongs.
pub open spec fn slot(calls: Seq<CallV>, index: i64) -> int {
    slot_from(calls, index, 0)
}

/// A call of which nothing is known yet.
pub open spec fn blank_call(index: i64) -> CallV {
    CallV {
        index,
        args: Seq::empty(),
        name: Seq::empty(),
        call_id: Seq::empty(),
        output_index: None,
    }
}

/// The calls, with one of that index.
pub open spec fn with_call(calls: Seq<CallV>, index: i64) -> Seq<CallV> {
    let k = slot(calls, index);
    if k < calls.len() && calls[k].index == index {
        calls
    } else {
        calls.insert(k, blank_call(index))
    }
}

/// The new text, where there is one that is not empty, in place of the old one.
pub open spec fn replaced(old_text: Seq<char>, new_text: Option<Seq<char>>) -> Seq<char> {
    match new_text {
        Some(s) => if s.len() > 0 {
            s
        } else {
            old_text
        },
        None => old_text,
    }
}

/// The call after a piece of it.
pub open spec fn grown_call(c: CallV, d: ToolCallDeltaV) -> CallV {
    CallV {
        call_id: replaced(c.call_id, d.id),
        name: replaced(c.name, d.name),
        args: c.args + text::or_text(d.arguments, Seq::empty()),
        ..c
    }
}

/// Whether a call that was not announced can be.
pub open spec fn announceable(c: CallV) -> bool {
    c.call_id.len() > 0 && c.name.len() > 0 && c.output_index is None
}

impl StepV {
    /// The step with these calls.
    pub open spec fn with_calls(self, calls: Seq<CallV>) -> StepV {
        StepV {
            stream: StreamV { func: FuncV { calls, ..self.stream.func }, ..self.stream },
            ..self
        }
    }

    /// The step after the call at position `k` was announced.
    pub open spec fn call_announced(self, k: int) -> StepV {
        let i = self.stream.text.current_output_index;
        let c = self.stream.func.calls[k];
        let s = self.with_calls(
            self.stream.func.calls.update(k, CallV { output_index: Some(i), ..c }),
        );
        StepV {
            stream: StreamV {
                text: TextV { current_output_index: super::following(i), ..s.stream.text },
                ..s.stream
            },
            ..s
        }.emit(
            "response.output_item.added"@,
            with_item(i, call_item(c.call_id, c.name, "in_progress"@, Seq::empty())),
        )
    }

    /// The step after a piece of a call was entered, and the call announced where it can be.
    pub open spec fn call_entered(self, d: ToolCallDeltaV) -> StepV {
        let calls = with_call(self.stream.func.calls, d.index);
        let k = slot(calls, d.index);
        let c = grown_call(calls[k], d);
        let s = self.with_calls(calls.update(k, c));
        if announceable(c) {
            StepV {
                stream: StreamV {
                    session: SessionV { fc_id: c.call_id, ..s.stream.session },
                    func: FuncV { in_block: true, ..s.stream.func },
                    ..s.stream
                },
                ..s
            }.call_announced(k)
        } else {
            s
        }
    }

    /// The step after a piece of arguments for the call at position `k`.
    pub open spec fn call_args(self, k: int, args: Seq<char>) -> StepV {
        let s = if self.stream.func.calls[k].output_index is None {
            self.call_announced(k)
        } else {
            self
        };
        let c = s.stream.func.calls[k];
        s.emit(
            "response.function_call_arguments.delta"@,
            JsonV::object().with("item_id"@, JsonV::Text(call_item_id(c.call_id))).with(
                "output_index"@,
                JsonV::Int(c.output_index->0 as int),
            ).with("delta"@, JsonV::Text(args)),
        )
    }

    /// The step after a piece of a function call.
    pub open spec fn call_part(self, d: ToolCallDeltaV) -> StepV {
        let s = self.call_entered(d);
        let args = text::or_text(d.arguments, Seq::empty());
        if args.len() > 0 {
            s.call_args(slot(s.stream.func.calls, d.index), args)
        } else {
            s
        }
    }

    /// The step after an announced call was closed: its reasoning is kept, and it is given out.
    pub open spec fn call_closed(self, c: CallV, reasoning: Option<Seq<char>>) -> StepV {
        if let Some(i) = c.output_index {
            StepV {
                saves: if reasoning is Some && reasoning->0.len() > 0 {
                    self.saves.push((c.call_id, reasoning->0))
                } else {
                    self.saves
                },
                ..self
            }.emit(
                "response.function_call_arguments.done"@,
                JsonV::object().with("item_id"@, JsonV::Text(call_item_id(c.call_id))).with(
                    "output_index"@,
                    JsonV::Int(i as int),
                ).with("arguments"@, JsonV::Text(c.args)),
            ).emit(
                "response.output_item.done"@,
                with_item(i, call_item(c.call_id, c.name, "completed"@, c.args)),
            )
        } else {
            self
        }
    }

    /// The step after the first `n` of the calls were closed.
    pub open spec fn calls_closed(
        self,
        calls: Seq<CallV>,
        reasoning: Option<Seq<char>>,
        n: int,
    ) -> StepV
        decreases n,
    {
        if n <= 0 {
            self
        } else {
            self.calls_closed(calls, reasoning, n - 1).call_closed(calls[n - 1], reasoning)
        }
    }

    /// The step with no function call that takes text.
    pub open spec fn funcs_closed(self) -> StepV {
        let calls = self.stream.func.calls;
        let taken = StepV {
            stream: StreamV {
                reasoning: ReasoningV { for_func_calls: None, ..self.stream.reasoning },
                ..self.stream
            },
            ..self
        };
        let s = taken.calls_closed(
            calls,
            self.stream.reasoning.for_func_calls,
            calls.len() as int,
        );
        StepV {
            stream: StreamV { func: FuncV { in_block: false, ..s.stream.func }, ..s.stream },
            ..s
        }
    }
}

pub(super) proof fn lemma_slot(calls: Seq<CallV>, index: i64, k: int)
    requires
        0 <= k <= calls.len(),
    ensures
        k <= slot_from(calls, index, k) <= calls.len(),
        forall|j: int| k <= j < slot_from(calls, index, k) ==> calls[j].index < index,
        slot_from(calls, index, k) < calls.len() ==> calls[slot_from(calls, index, k)].index
            >= index,
    decreases calls.len() - k,
{
    if k < calls.len() && calls[k].index < index {
        lemma_slot(calls, index, k + 1);
    }
}

/// The search for a call sees nothing but the indices.
pub(super) proof fn lemma_same_slot(a: Seq<CallV>, b: Seq<CallV>, index: i64, k: int)
    requires
        a.len() == b.len(),
        forall|j: int| 0 <= j < a.len() ==> (#[trigger] a[j]).index == b[j].index,
    ensures
        slot_from(a, index, k) == slot_from(b, index, k),
    decreases a.len() - k,
{
    if 0 <= k < a.len() && a[k].index < index {
        lemma_same_slot(a, b, index, k + 1);
    }
}

/// A call that was put where it belongs is found there.
pub(super) proof fn lemma_with_call(calls: Seq<CallV>, index: i64)
    ensures
        slot(with_call(calls, index), index) == slot(calls, index),
        0 <= slot(calls, index) < with_call(calls, index).len(),
        with_call(calls, index)[slot(calls, index)].index == index,
{
    lemma_slot(calls, index, 0);
    let k = slot(calls, index);
    let new_calls = with_call(calls, index);
    lemma_slot(new_calls, index, 0);
    let m = slot(new_calls, index);
    if m < k {
        assert(new_calls[m] == calls[m]);
    }
    if m > k {
        assert(new_calls[k].index < index);
    }
}

fn find_slot(calls: &Vec<Call>, index: i64) -> (k: usize)
    ensures
        k == slot(super::call_models(calls@), index),
        k <= calls@.len(),
{
    let ghost models = super::call_models(calls@);
    let mut k: usize = 0;
    while k < calls.len() && calls[k].index < index
        invariant
            k <= calls@.len(),
            models == super::call_models(calls@),
            slot(models, index) == slot_from(models, index, k as int),
        decreases calls@.len() - k,
    {
        assert(models[k as int].index == calls@[k as int].index);
        k += 1;
    }
    assert(k < calls@.len() ==> models[k as int].index == calls@[k as int].index);
    k
}

/// Announces the call at position `k`.
pub(super) fn add_func_item(st: &mut StreamState, out: &mut Outbox, k: usize)
    requires
        old(out).wf(),
        k < old(st)@.func.calls.len(),
    ensures
        final(out).wf(),
        super::step_of(*final(st), *final(out)) == super::step_of(
            *old(st),
            *old(out),
        ).call_announced(k as int),
{
    let ghost before = super::step_of(*st, *out);
    let i = st.text.current_output_index;
    st.text.current_output_index = i.wrapping_add(1);
    proof {
        reveal_strlit("");
        assert(""@ =~= Seq::empty());
    }
    let item = make_call_item(
        st.func.calls[k].call_id.as_str(),
        st.func.calls[k].name.as_str(),
        "in_progress",
        "",
    );
    st.func.calls[k].output_index = Some(i);
    assert(st@.func.calls =~= before.stream.func.calls.update(
        k as int,
        CallV { output_index: Some(i), ..before.stream.func.calls[k as int] },
    ));
    st.emit(out, "response.output_item.added", about_item(i, item));
}

/// Finds the call of that index, or makes room for it.
fn place_call(calls: &mut Vec<Call>, index: i64) -> (k: usize)
    ensures
        super::call_models(final(calls)@) == with_call(super::call_models(old(calls)@), index),
        k == slot(super::call_models(final(calls)@), index),
        k < final(calls)@.len(),
{
    let ghost before = super::call_models(calls@);
    let k = find_slot(calls, index);
    proof {
        lemma_with_call(before, index);
    }
    if k == calls.len() || calls[k].index != index {
        let blank = Call {
            index,
            args: String::new(),
            name: String::new(),
            call_id: String::new(),
            output_index: None,
        };
        calls.insert(k, blank);
        assert(blank.model() =~= blank_call(index));
    }
    assert(super::call_models(calls@) =~= with_call(before, index));
    k
}

/// Enters a piece of a call.
fn grow_call(c: &mut Call, d: &ToolCallDelta)
    ensures
        final(c).model() == grown_call(old(c).model(), d@),
{
    if let Some(id) = &d.id {
        if !id.as_str().is_empty() {
            c.call_id = id.clone();
        }
    }
    if let Some(name) = &d.name {
        if !name.as_str().is_empty() {
            c.name = name.clone();
        }
    }
    if let Some(args) = &d.arguments {
        c.args.append(args.as_str());
    }
    assert(c.model() =~= grown_call(old(c).model(), d@));
}

/// Enters a piece of a function call, and announces the call once it has an identifier and a name.
fn enter_call(st: &mut StreamState, out: &mut Outbox, d: &ToolCallDelta) -> (k: usize)
    requires
        old(out).wf(),
    ensures
        final(out).wf(),
        super::step_of(*final(st), *final(out)) == super::step_of(
            *old(st),
            *old(out),
        ).call_entered(d@),
        k == slot(final(st)@.func.calls, d.index),
        k < final(st)@.func.calls.len(),
{
    let ghost calls = with_call(st@.func.calls, d.index);
    let k = place_call(&mut st.func.calls, d.index);
    assert(st.func.calls@[k as int].model() == calls[k as int]);
    grow_call(&mut st.func.calls[k], d);
    let ghost c = grown_call(calls[k as int], d@);
    assert(st@.func.calls =~= calls.update(k as int, c));
    if !st.func.calls[k].call_id.as_str().is_empty() && !st.func.calls[k].name.as_str().is_empty()
        && st.func.calls[k].output_index.is_none() {
        st.session.fc_id = st.func.calls[k].call_id.clone();
        st.func.in_block = true;
        add_func_item(st, out, k);
    }
    proof {
        lemma_same_slot(calls, st@.func.calls, d.index, 0);
    }
    k
}

/// Takes in a piece of the arguments of the call at position `k`.
fn handle_call_args(st: &mut StreamState, out: &mut Outbox, k: usize, args: &str)
    requires
        old(out).wf(),
        k < old(st)@.func.calls.len(),
    ensures
        final(out).wf(),
        super::step_of(*final(st), *final(out)) == super::step_of(*old(st), *old(out)).call_args(
            k as int,
            args@,
        ),
{
    if st.func.calls[k].output_index.is_none() {
        add_func_item(st, out, k);
    }
    assert(k < st@.func.calls.len());
    assert(st@.func.calls[k as int] == st.func.calls@[k as int].model());
    let item_id = make_call_item_id(st.func.calls[k].call_id.as_str());
    if let Some(output_index) = st.func.calls[k].output_index {
        let delta = Json::object().with("item_id", Json::Text(item_id)).with(
            "output_index",
            Json::Int(output_index),
        ).with("delta", Json::text(args));
        st.emit(out, "response.function_call_arguments.delta", delta);
    }
}

/// Takes in a piece of a function call.
pub(super) fn handle_tool_call_part(st: &mut StreamState, out: &mut Outbox, d: &ToolCallDelta)
    requires
        old(out).wf(),
    ensures
        final(out).wf(),
        super::step_of(*final(st), *final(out)) == super::step_of(*old(st), *old(out)).call_part(
            d@,
        ),
{
    let k = enter_call(st, out, d);
    if let Some(args) = &d.arguments {
        if !args.as_str().is_empty() {
            handle_call_args(st, out, k, args.as_str());
        }
    }
}

/// Closes the announced function calls, in the order of their indices, and keeps the last
/// reasoning text for each.
pub(super) fn close_func_blocks(st: &mut StreamState, out: &mut Outbox)
    requires
        old(out).wf(),
    ensures
        final(out).wf(),
        super::step_of(*final(st), *final(out)) == super::step_of(
            *old(st),
            *old(out),
        ).funcs_closed(),
{
    let ghost before = super::step_of(*st, *out);
    let ghost calls = before.stream.func.calls;
    let reasoning = st.reasoning.for_func_calls.take();
    let ghost taken = super::step_of(*st, *out);
    let mut k: usize = 0;
    while k < st.func.calls.len()
        invariant
            k <= calls.len(),
            out.wf(),
            st@.func.calls == calls,
            super::step_of(*st, *out) == taken.calls_closed(
                calls,
                text::maybe(reasoning),
                k as int,
            ),
        decreases calls.len() - k,
    {
        let ghost c = calls[k as int];
        assert(st.func.calls@[k as int].model() == c);
        if let Some(i) = st.func.calls[k].output_index {
            let call_id = st.func.calls[k].call_id.clone();
            if let Some(r) = &reasoning {
                if !r.as_str().is_empty() {
                    out.save(call_id.clone(), r.clone());
                }
            }
            let done = Json::object().with(
                "item_id",
                Json::Text(make_call_item_id(call_id.as_str())),
            ).with("output_index", Json::Int(i)).with(
                "arguments",
                Json::text(st.func.calls[k].args.as_str()),
            );
            let item = make_call_item(
                call_id.as_str(),
                st.func.calls[k].name.as_str(),
                "completed",
                st.func.calls[k].args.as_str(),
            );
            st.emit(out, "response.function_call_arguments.done", done);
            st.emit(out, "response.output_item.done", about_item(i, item));
        }
        k += 1;
    }
    st.func.in_block = false;
}

} // verus!

//! The pieces of a text that a stream gives out, and the whole that ends them.

use vstd::prelude::*;
use vstd::string::*;

use super::handlers;
use super::laws;
use super::{CallV, EventV, FuncV, ReasoningV, SessionV, StepV, StreamV, TextV};
use crate::json::JsonV;
use crate::text;
use crate::types::{ChunkV, DeltaV, StreamChoiceV, ToolCallDeltaV};

verus! {

/// The texts that come in pieces.
pub enum Kind {
    Message,
    Reasoning,
    Arguments,
}

impl Kind {
    /// The name of the events that carry a piece.
    pub open spec fn delta_name(self) -> Seq<char> {
        match self {
            Kind::Message => "response.output_text.delta"@,
            Kind::Reasoning => "response.reasoning_summary_text.delta"@,
            Kind::Arguments => "response.function_call_arguments.delta"@,
        }
    }

    /// The member that holds the piece.
    pub open spec fn delta_member(self) -> Seq<char> {
        match self {
            Kind::Reasoning => "text"@,
            _ => "delta"@,
        }
    }

    /// The name of the events that carry the whole.
    pub open spec fn done_name(self) -> Seq<char> {
        match self {
            Kind::Message => "response.output_text.done"@,
            Kind::Reasoning => "response.reasoning_summary_text.done"@,
            Kind::Arguments => "response.function_call_arguments.done"@,
        }
    }

    /// The member that holds the whole.
    pub open spec fn done_member(self) -> Seq<char> {
        match self {
            Kind::Arguments => "arguments"@,
            _ => "text"@,
        }
    }
}

/// The output index that an event names.
pub open spec fn place(e: EventV) -> Option<JsonV> {
    e.payload.get("output_index"@)
}

/// The pieces of that kind and at that output index, one behind the other.
pub open spec fn pieces(events: Seq<EventV>, kind: Kind, at: Option<JsonV>) -> Seq<char>
    decreases events.len(),
{
    if events.len() == 0 {
        Seq::empty()
    } else {
        let before = pieces(events.drop_last(), kind, at);
        let e = events.last();
        if e.name == kind.delta_name() && place(e) == at {
            before + text::or_text(e.payload.text_at(kind.delta_member()), Seq::empty())
        } else {
            before
        }
    }
}

/// Each event that carries a whole carries what the pieces before it make up, those of its kind
/// and at its output index.
pub open spec fn pieces_make_up_wholes(events: Seq<EventV>) -> bool {
    forall|i: int, kind: Kind|
        0 <= i < events.len() && (#[trigger] events[i]).name == #[trigger] kind.done_name()
            ==> events[i].payload.text_at(kind.done_member()) == Some(
            pieces(events.take(i), kind, place(events[i])),
        )
}

/// What a stream is handed by one call.
pub enum InputV {
    /// A line of the upstream API.
    Line { line: Seq<char>, request: JsonV, inject: bool, random: Seq<char>, time: i64 },
    /// The end of the data.
    End { request: JsonV, inject: bool },
}

impl StepV {
    /// The step after one call.
    pub open spec fn called(self, input: InputV) -> StepV {
        match input {
            InputV::Line { line, request, inject, random, time } => self.line(
                line,
                request,
                inject,
                random,
                time,
            ),
            InputV::End { request, inject } => self.completed(request, inject),
        }
    }
}

/// A new stream after the first `n` calls, and all events that the calls have given out.
pub open spec fn all_calls(inputs: Seq<InputV>, n: int) -> (StreamV, Seq<EventV>)
    decreases n,
{
    if n <= 0 {
        (StreamV::initial(), Seq::empty())
    } else {
        let (st, events) = all_calls(inputs, n - 1);
        let b = StepV::start(st).called(inputs[n - 1]);
        (b.stream, events + b.events)
    }
}

// ---------------------------------------------------------------------------------------------
// What every step keeps
// ---------------------------------------------------------------------------------------------

spec fn at(i: int) -> Option<JsonV> {
    Some(JsonV::Int(i))
}

/// The pieces of arguments that were given out for a call.
spec fn given(events: Seq<EventV>, c: CallV) -> Seq<char> {
    match c.output_index {
        Some(i) => pieces(events, Kind::Arguments, at(i as int)),
        None => Seq::empty(),
    }
}

/// A call holds the pieces that were given out for it, and `extra` behind them.
spec fn call_fits(events: Seq<EventV>, c: CallV, n: i64, extra: Seq<char>) -> bool {
    &&& c.args == given(events, c) + extra
    &&& c.output_index matches Some(i) ==> i < n
}

/// What is open holds the pieces that were given out for it, but for the call at position `lag`,
/// which holds `extra` behind them; nothing was given out for output indices to come.
spec fn fits_now(events: Seq<EventV>, st: StreamV, lag: int, extra: Seq<char>) -> bool {
    let n = st.text.current_output_index;
    let calls = st.func.calls;
    &&& 0 <= n <= events.len()
    &&& pieces_make_up_wholes(events)
    &&& forall|kind: Kind, i: int|
        i >= n ==> #[trigger] pieces(events, kind, at(i)) == Seq::<char>::empty()
    &&& st.text.in_block ==> st.text.msg_output_index < n && pieces(
        events,
        Kind::Message,
        at(st.text.msg_output_index as int),
    ) == st.text.buf
    &&& st.reasoning.active ==> st.reasoning.part_added && st.reasoning.output_index < n && pieces(
        events,
        Kind::Reasoning,
        at(st.reasoning.output_index as int),
    ) == st.reasoning.buf
    &&& !st.reasoning.active ==> st.reasoning.buf.len() == 0
    &&& forall|k: int|
        0 <= k < calls.len() ==> call_fits(
            events,
            #[trigger] calls[k],
            n,
            if k == lag {
                extra
            } else {
                Seq::empty()
            },
        )
    &&& forall|j: int, k: int|
        0 <= j < k < calls.len() && (#[trigger] calls[j]).output_index is Some
            ==> calls[j].output_index != (#[trigger] calls[k]).output_index
}

/// The same, as long as output indices have not run out.
#[verifier::opaque]
spec fn fits(events: Seq<EventV>, st: StreamV, lag: int, extra: Seq<char>) -> bool {
    events.len() <= i64::MAX ==> fits_now(events, st, lag, extra)
}

/// No call holds more than was given out.
spec fn settled(events: Seq<EventV>, st: StreamV) -> bool {
    fits(events, st, -1, Seq::empty())
}

/// The streams hold the same texts.
spec fn same_texts(a: StreamV, b: StreamV) -> bool {
    &&& a.text == b.text
    &&& a.reasoning.active == b.reasoning.active
    &&& a.reasoning.buf == b.reasoning.buf
    &&& a.reasoning.part_added == b.reasoning.part_added
    &&& a.reasoning.output_index == b.reasoning.output_index
    &&& a.func.calls == b.func.calls
}

spec fn is_delta(name: Seq<char>) -> bool {
    name == Kind::Message.delta_name() || name == Kind::Reasoning.delta_name() || name
        == Kind::Arguments.delta_name()
}

spec fn is_done(name: Seq<char>) -> bool {
    name == Kind::Message.done_name() || name == Kind::Reasoning.done_name() || name
        == Kind::Arguments.done_name()
}

spec fn is_piece(name: Seq<char>) -> bool {
    is_delta(name) || is_done(name)
}

proof fn lemma_names()
    ensures
        !is_piece("response.created"@),
        !is_piece("response.in_progress"@),
        !is_piece("response.completed"@),
        !is_piece("response.output_item.added"@),
        !is_piece("response.output_item.done"@),
        !is_piece("response.content_part.added"@),
        !is_piece("response.content_part.done"@),
        !is_piece("response.reasoning_summary_part.added"@),
        !is_piece("response.reasoning_summary_part.done"@),
        !is_done("response.output_text.delta"@),
        !is_done("response.reasoning_summary_text.delta"@),
        !is_done("response.function_call_arguments.delta"@),
        !is_delta("response.output_text.done"@),
        !is_delta("response.reasoning_summary_text.done"@),
        !is_delta("response.function_call_arguments.done"@),
        forall|a: Kind, b: Kind| (#[trigger] a.delta_name() == #[trigger] b.delta_name()) ==> a == b,
        forall|a: Kind, b: Kind| (#[trigger] a.done_name() == #[trigger] b.done_name()) ==> a == b,
{
    laws::lemma_events();
    reveal_strlit("response.created");
    reveal_strlit("response.in_progress");
    reveal_strlit("response.completed");
    reveal_strlit("response.content_part.done");
    reveal_strlit("response.output_item.done");
    reveal_strlit("response.function_call_arguments.delta");
    reveal_strlit("response.function_call_arguments.done");
    assert("response.created"@.len() == 16);
    assert("response.completed"@.len() == 18);
    assert("response.in_progress"@.len() == 20);
    assert("response.output_item.done"@.len() == 25);
    assert("response.content_part.done"@.len() == 26);
    assert("response.function_call_arguments.done"@.len() == 37);
    assert("response.function_call_arguments.delta"@.len() == 38);
}

proof fn lemma_keys()
    ensures
        "output_index"@ != "item_id"@,
        "output_index"@ != "content_index"@,
        "output_index"@ != "summary_index"@,
        "output_index"@ != "delta"@,
        "output_index"@ != "text"@,
        "output_index"@ != "logprobs"@,
        "output_index"@ != "arguments"@,
        "output_index"@ != "type"@,
        "output_index"@ != "sequence_number"@,
        "delta"@ != "logprobs"@,
        "delta"@ != "type"@,
        "delta"@ != "sequence_number"@,
        "text"@ != "logprobs"@,
        "text"@ != "type"@,
        "text"@ != "sequence_number"@,
        "arguments"@ != "type"@,
        "arguments"@ != "sequence_number"@,
{
    reveal_strlit("output_index");
    reveal_strlit("item_id");
    reveal_strlit("content_index");
    reveal_strlit("summary_index");
    reveal_strlit("delta");
    reveal_strlit("text");
    reveal_strlit("logprobs");
    reveal_strlit("arguments");
    reveal_strlit("type");
    reveal_strlit("sequence_number");
    assert("output_index"@.len() == 12);
    assert("item_id"@.len() == 7);
    assert("content_index"@.len() == 13);
    assert("summary_index"@.len() == 13);
    assert("delta"@.len() == 5);
    assert("text"@.len() == 4 && "text"@[1] == 'e');
    assert("logprobs"@.len() == 8);
    assert("arguments"@.len() == 9);
    assert("type"@.len() == 4 && "type"@[1] == 'y');
    assert("sequence_number"@.len() == 15);
}

/// One more event.
proof fn lemma_push(events: Seq<EventV>, e: EventV)
    ensures
        forall|kind: Kind, p: Option<JsonV>| #[trigger]
            pieces(events.push(e), kind, p) == (if e.name == kind.delta_name() && place(e) == p {
                pieces(events, kind, p) + text::or_text(
                    e.payload.text_at(kind.delta_member()),
                    Seq::empty(),
                )
            } else {
                pieces(events, kind, p)
            }),
        pieces_make_up_wholes(events) && (forall|kind: Kind|
            e.name == #[trigger] kind.done_name() ==> e.payload.text_at(kind.done_member())
                == Some(pieces(events, kind, place(e)))) ==> pieces_make_up_wholes(events.push(e)),
{
    let more = events.push(e);
    assert(more.drop_last() =~= events);
    assert(more.take(events.len() as int) =~= events);
    if pieces_make_up_wholes(events) && (forall|kind: Kind|
        e.name == #[trigger] kind.done_name() ==> e.payload.text_at(kind.done_member()) == Some(
            pieces(events, kind, place(e)),
        )) {
        assert forall|i: int, kind: Kind|
            0 <= i < more.len() && (#[trigger] more[i]).name == #[trigger] kind.done_name() implies
            more[i].payload.text_at(kind.done_member()) == Some(
            pieces(more.take(i), kind, place(more[i])),
        ) by {
            if i < events.len() {
                assert(more[i] == events[i]);
                assert(more.take(i) =~= events.take(i));
            }
        }
    }
}

/// A stream that holds the same texts.
proof fn lemma_same(events: Seq<EventV>, a: StreamV, b: StreamV, lag: int, extra: Seq<char>)
    requires
        fits(events, a, lag, extra),
        same_texts(a, b),
    ensures
        fits(events, b, lag, extra),
{
    reveal(fits);
}

/// An event that carries neither a piece nor a whole.
proof fn lemma_plain(
    h: Seq<EventV>,
    a: StepV,
    b: StepV,
    name: Seq<char>,
    body: JsonV,
    lag: int,
    extra: Seq<char>,
)
    requires
        fits(h + a.events, a.stream, lag, extra),
        b == a.emit(name, body),
        !is_piece(name),
    ensures
        fits(h + b.events, b.stream, lag, extra),
{
    reveal(fits);
    let events = h + a.events;
    let e = b.events.last();
    assert(h + b.events =~= events.push(e));
    lemma_push(events, e);
    if events.push(e).len() <= i64::MAX {
        assert forall|k: int| 0 <= k < b.stream.func.calls.len() implies call_fits(
            events.push(e),
            #[trigger] b.stream.func.calls[k],
            b.stream.text.current_output_index,
            if k == lag {
                extra
            } else {
                Seq::empty()
            },
        ) by {
            assert(given(events.push(e), b.stream.func.calls[k]) == given(
                events,
                a.stream.func.calls[k],
            ));
        }
    }
}

// ---------------------------------------------------------------------------------------------
// Reasoning
// ---------------------------------------------------------------------------------------------

proof fn lemma_reasoning_opened(h: Seq<EventV>, s: StepV)
    requires
        settled(h + s.events, s.stream),
    ensures
        settled(h + s.reasoning_opened().events, s.reasoning_opened().stream),
        s.reasoning_opened().stream.reasoning.active,
{
    if !s.stream.reasoning.active {
        lemma_names();
        let b = s.reasoning_opened();
        let i = s.stream.text.current_output_index;
        let r = b.stream.reasoning;
        let opened = StepV {
            stream: StreamV {
                text: TextV { current_output_index: super::following(i), ..s.stream.text },
                reasoning: r,
                ..s.stream
            },
            ..s
        };
        let item = handlers::with_item(
            i,
            handlers::reasoning_item(r.item_id, "in_progress"@, Seq::empty()),
        );
        let a = opened.emit("response.output_item.added"@, item);
        assert(settled(h + a.events, a.stream)) by {
            reveal(fits);
            let events = h + s.events;
            let e = a.events.last();
            assert(h + a.events =~= events.push(e));
            lemma_push(events, e);
            assert(pieces(events, Kind::Reasoning, at(i as int)) == pieces(
                events.push(e),
                Kind::Reasoning,
                at(i as int),
            ));
            assert forall|k: int| 0 <= k < s.stream.func.calls.len() implies given(
                events.push(e),
                #[trigger] s.stream.func.calls[k],
            ) == given(events, s.stream.func.calls[k]) by {}
        }
        lemma_plain(
            h,
            a,
            b,
            "response.reasoning_summary_part.added"@,
            handlers::in_reasoning(r).with("part"@, handlers::summary_text(Seq::empty())),
            -1,
            Seq::empty(),
        );
    }
}

proof fn lemma_reasoning_part(h: Seq<EventV>, s: StepV, t: Seq<char>)
    requires
        settled(h + s.events, s.stream),
    ensures
        settled(h + s.reasoning_part(t).events, s.reasoning_part(t).stream),
{
    lemma_reasoning_opened(h, s);
    lemma_names();
    lemma_keys();
    reveal(fits);
    let a = s.reasoning_opened();
    let b = s.reasoning_part(t);
    let events = h + a.events;
    let e = b.events.last();
    assert(h + b.events =~= events.push(e));
    lemma_push(events, e);
    assert(place(e) == at(a.stream.reasoning.output_index as int));
    assert(e.payload.text_at("text"@) == Some(t));
    assert forall|k: int| 0 <= k < a.stream.func.calls.len() implies given(
        events.push(e),
        #[trigger] a.stream.func.calls[k],
    ) == given(events, a.stream.func.calls[k]) by {}
}

proof fn lemma_reasoning_closed(h: Seq<EventV>, s: StepV)
    requires
        settled(h + s.events, s.stream),
    ensures
        settled(h + s.reasoning_closed().events, s.reasoning_closed().stream),
{
    let r = s.stream.reasoning;
    if r.active {
        lemma_names();
        lemma_keys();
        let d = s.reasoning_closed();
        let a = s.emit(
            "response.reasoning_summary_text.done"@,
            handlers::in_reasoning(r).with("text"@, JsonV::Text(r.buf)),
        );
        assert(settled(h + a.events, a.stream)) by {
            reveal(fits);
            let events = h + s.events;
            let e = a.events.last();
            assert(h + a.events =~= events.push(e));
            lemma_push(events, e);
            assert(place(e) == at(r.output_index as int));
            assert(e.payload.text_at("text"@) == Some(r.buf));
            assert forall|k: int| 0 <= k < s.stream.func.calls.len() implies given(
                events.push(e),
                #[trigger] s.stream.func.calls[k],
            ) == given(events, s.stream.func.calls[k]) by {}
        }
        let part = handlers::in_reasoning(r).with("part"@, handlers::summary_text(r.buf));
        let b = a.emit("response.reasoning_summary_part.done"@, part);
        lemma_plain(
            h,
            a,
            b,
            "response.reasoning_summary_part.done"@,
            part,
            -1,
            Seq::empty(),
        );
        let item = handlers::with_item(
            r.output_index,
            handlers::reasoning_item(
                r.item_id,
                "completed"@,
                seq![handlers::summary_text(r.buf)],
            ),
        );
        let c = b.emit("response.output_item.done"@, item);
        lemma_plain(h, b, c, "response.output_item.done"@, item, -1, Seq::empty());
        assert(d.events == c.events);
        reveal(fits);
    }
}

// ---------------------------------------------------------------------------------------------
// The message
// ---------------------------------------------------------------------------------------------

proof fn lemma_text_opened(h: Seq<EventV>, s: StepV)
    requires
        settled(h + s.events, s.stream),
    ensures
        settled(h + s.text_opened().events, s.text_opened().stream),
        s.text_opened().stream.text.in_block,
{
    if !s.stream.text.in_block {
        lemma_names();
        let b = s.text_opened();
        let i = s.stream.text.current_output_index;
        let t = b.stream.text;
        let opened = StepV { stream: StreamV { text: t, ..s.stream }, ..s };
        let a = opened.emit(
            "response.output_item.added"@,
            handlers::with_item(
                i,
                handlers::message_item(t.msg_id, "in_progress"@, Seq::empty()),
            ),
        );
        assert(settled(h + a.events, a.stream)) by {
            reveal(fits);
            let events = h + s.events;
            let e = a.events.last();
            assert(h + a.events =~= events.push(e));
            lemma_push(events, e);
            assert(pieces(events, Kind::Message, at(i as int)) == pieces(
                events.push(e),
                Kind::Message,
                at(i as int),
            ));
            assert forall|k: int| 0 <= k < s.stream.func.calls.len() implies given(
                events.push(e),
                #[trigger] s.stream.func.calls[k],
            ) == given(events, s.stream.func.calls[k]) by {}
        }
        lemma_plain(
            h,
            a,
            b,
            "response.content_part.added"@,
            handlers::in_message(t).with("part"@, handlers::output_text(Seq::empty())),
            -1,
            Seq::empty(),
        );
    }
}

proof fn lemma_content_part(h: Seq<EventV>, s: StepV, t: Seq<char>)
    requires
        settled(h + s.events, s.stream),
    ensures
        settled(h + s.content_part(t).events, s.content_part(t).stream),
{
    lemma_text_opened(h, s);
    lemma_names();
    lemma_keys();
    reveal(fits);
    let a = s.text_opened();
    let b = s.content_part(t);
    let events = h + a.events;
    let e = b.events.last();
    assert(h + b.events =~= events.push(e));
    lemma_push(events, e);
    assert(place(e) == at(a.stream.text.msg_output_index as int));
    assert(e.payload.text_at("delta"@) == Some(t));
    assert forall|k: int| 0 <= k < a.stream.func.calls.len() implies given(
        events.push(e),
        #[trigger] a.stream.func.calls[k],
    ) == given(events, a.stream.func.calls[k]) by {}
}

proof fn lemma_text_closed(h: Seq<EventV>, s: StepV)
    requires
        settled(h + s.events, s.stream),
    ensures
        settled(h + s.text_closed().events, s.text_closed().stream),
{
    let t = s.stream.text;
    if t.in_block {
        lemma_names();
        lemma_keys();
        let d = s.text_closed();
        let a = s.emit(
            "response.output_text.done"@,
            handlers::in_message(t).with("text"@, JsonV::Text(t.buf)).with(
                "logprobs"@,
                JsonV::Array(Seq::empty()),
            ),
        );
        assert(settled(h + a.events, a.stream)) by {
            reveal(fits);
            let events = h + s.events;
            let e = a.events.last();
            assert(h + a.events =~= events.push(e));
            lemma_push(events, e);
            assert(place(e) == at(t.msg_output_index as int));
            assert(e.payload.text_at("text"@) == Some(t.buf));
            assert forall|k: int| 0 <= k < s.stream.func.calls.len() implies given(
                events.push(e),
                #[trigger] s.stream.func.calls[k],
            ) == given(events, s.stream.func.calls[k]) by {}
        }
        let part = handlers::in_message(t).with("part"@, handlers::output_text(t.buf));
        let b = a.emit("response.content_part.done"@, part);
        lemma_plain(h, a, b, "response.content_part.done"@, part, -1, Seq::empty());
        let item = handlers::with_item(
            t.msg_output_index,
            handlers::message_item(t.msg_id, "completed"@, handlers::message_parts(t.buf)),
        );
        let c = b.emit("response.output_item.done"@, item);
        lemma_plain(h, b, c, "response.output_item.done"@, item, -1, Seq::empty());
        assert(d.events == c.events);
        reveal(fits);
    }
}

// ---------------------------------------------------------------------------------------------
// Function calls
// ---------------------------------------------------------------------------------------------

proof fn lemma_call_announced(h: Seq<EventV>, s: StepV, k: int, lag: int, extra: Seq<char>)
    requires
        fits(h + s.events, s.stream, lag, extra),
        0 <= k < s.stream.func.calls.len(),
        s.stream.func.calls[k].output_index is None,
    ensures
        fits(h + s.call_announced(k).events, s.call_announced(k).stream, lag, extra),
{
    reveal(fits);
    lemma_names();
    let b = s.call_announced(k);
    let events = h + s.events;
    let e = b.events.last();
    assert(h + b.events =~= events.push(e));
    lemma_push(events, e);
    let i = s.stream.text.current_output_index;
    let calls = s.stream.func.calls;
    let new_calls = b.stream.func.calls;
    assert(pieces(events, Kind::Arguments, at(i as int)) == pieces(
        events.push(e),
        Kind::Arguments,
        at(i as int),
    ));
    if events.push(e).len() <= i64::MAX {
        assert forall|j: int| 0 <= j < new_calls.len() implies call_fits(
            events.push(e),
            #[trigger] new_calls[j],
            b.stream.text.current_output_index,
            if j == lag {
                extra
            } else {
                Seq::empty()
            },
        ) by {
            let more = if j == lag {
                extra
            } else {
                Seq::empty()
            };
            assert(call_fits(events, calls[j], i, more));
            assert(given(events.push(e), new_calls[j]) == given(events, calls[j]));
        }
        assert forall|x: int, y: int|
            0 <= x < y < new_calls.len() && (#[trigger] new_calls[x]).output_index is Some implies
            new_calls[x].output_index != (#[trigger] new_calls[y]).output_index by {
            assert(call_fits(
                events,
                calls[x],
                i,
                if x == lag {
                    extra
                } else {
                    Seq::empty()
                },
            ));
            assert(call_fits(
                events,
                calls[y],
                i,
                if y == lag {
                    extra
                } else {
                    Seq::empty()
                },
            ));
        }
    }
}

/// Room for a call changes nothing.
proof fn lemma_with_call(events: Seq<EventV>, s: StepV, index: i64)
    requires
        settled(events, s.stream),
    ensures
        settled(events, s.with_calls(handlers::with_call(s.stream.func.calls, index)).stream),
{
    reveal(fits);
    let calls = s.stream.func.calls;
    let new_calls = handlers::with_call(calls, index);
    let n = s.stream.text.current_output_index;
    handlers::lemma_slot(calls, index, 0);
    let k = handlers::slot(calls, index);
    if !(k < calls.len() && calls[k].index == index) && events.len() <= i64::MAX {
        assert forall|j: int| 0 <= j < new_calls.len() implies call_fits(
            events,
            #[trigger] new_calls[j],
            n,
            Seq::empty(),
        ) by {
            if j == k {
                assert(new_calls[j].args =~= given(events, new_calls[j]) + Seq::<char>::empty());
            } else {
                let x = if j < k {
                    j
                } else {
                    j - 1
                };
                assert(new_calls[j] == calls[x]);
            }
        }
        assert forall|x: int, y: int|
            0 <= x < y < new_calls.len() && (#[trigger] new_calls[x]).output_index is Some implies
            new_calls[x].output_index != (#[trigger] new_calls[y]).output_index by {
            let a = if x < k {
                x
            } else {
                x - 1
            };
            let b = if y < k {
                y
            } else {
                y - 1
            };
            assert(x != k);
            assert(new_calls[x] == calls[a]);
            if y != k {
                assert(new_calls[y] == calls[b]);
            }
        }
    }
}

/// A call that takes in a piece holds it behind what was given out.
proof fn lemma_grown(events: Seq<EventV>, s: StepV, k: int, d: ToolCallDeltaV)
    requires
        settled(events, s.stream),
        0 <= k < s.stream.func.calls.len(),
    ensures
        fits(
            events,
            s.with_calls(
                s.stream.func.calls.update(k, handlers::grown_call(s.stream.func.calls[k], d)),
            ).stream,
            k,
            text::or_text(d.arguments, Seq::empty()),
        ),
{
    reveal(fits);
    let calls = s.stream.func.calls;
    let args = text::or_text(d.arguments, Seq::empty());
    let c = handlers::grown_call(calls[k], d);
    let new_calls = calls.update(k, c);
    let n = s.stream.text.current_output_index;
    if events.len() <= i64::MAX {
        assert forall|j: int| 0 <= j < new_calls.len() implies call_fits(
            events,
            #[trigger] new_calls[j],
            n,
            if j == k {
                args
            } else {
                Seq::empty()
            },
        ) by {
            assert(call_fits(events, calls[j], n, Seq::empty()));
            if j == k {
                assert(given(events, c) == given(events, calls[k]));
                assert(c.args =~= given(events, c) + args);
            }
        }
        assert forall|x: int, y: int|
            0 <= x < y < new_calls.len() && (#[trigger] new_calls[x]).output_index is Some implies
            new_calls[x].output_index != (#[trigger] new_calls[y]).output_index by {
            assert(new_calls[x].output_index == calls[x].output_index);
            assert(new_calls[y].output_index == calls[y].output_index);
        }
    }
}

proof fn lemma_call_entered(h: Seq<EventV>, s: StepV, d: ToolCallDeltaV)
    requires
        settled(h + s.events, s.stream),
    ensures
        ({
            let b = s.call_entered(d);
            let k = handlers::slot(b.stream.func.calls, d.index);
            &&& 0 <= k < b.stream.func.calls.len()
            &&& fits(
                h + b.events,
                b.stream,
                k,
                text::or_text(d.arguments, Seq::empty()),
            )
        }),
{
    let args = text::or_text(d.arguments, Seq::empty());
    let calls = handlers::with_call(s.stream.func.calls, d.index);
    handlers::lemma_with_call(s.stream.func.calls, d.index);
    let k = handlers::slot(calls, d.index);
    let c = handlers::grown_call(calls[k], d);
    let events = h + s.events;
    let m = s.with_calls(calls);
    lemma_with_call(events, s, d.index);
    lemma_grown(events, m, k, d);
    let a = s.with_calls(calls.update(k, c));
    assert(m.with_calls(calls.update(k, c)) == a);
    let b = s.call_entered(d);
    if handlers::announceable(c) {
        let ready = StepV {
            stream: StreamV {
                session: SessionV { fc_id: c.call_id, ..a.stream.session },
                func: FuncV { in_block: true, ..a.stream.func },
                ..a.stream
            },
            ..a
        };
        lemma_same(events, a.stream, ready.stream, k, args);
        lemma_call_announced(h, ready, k, k, args);
    }
    assert forall|i: int| 0 <= i < calls.len() implies (#[trigger] calls[i]).index
        == b.stream.func.calls[i].index by {}
    handlers::lemma_same_slot(calls, b.stream.func.calls, d.index, 0);
}

proof fn lemma_call_args(h: Seq<EventV>, s: StepV, k: int, args: Seq<char>)
    requires
        fits(h + s.events, s.stream, k, args),
        0 <= k < s.stream.func.calls.len(),
    ensures
        settled(h + s.call_args(k, args).events, s.call_args(k, args).stream),
{
    let m = if s.stream.func.calls[k].output_index is None {
        s.call_announced(k)
    } else {
        s
    };
    if s.stream.func.calls[k].output_index is None {
        lemma_call_announced(h, s, k, k, args);
    }
    lemma_names();
    lemma_keys();
    reveal(fits);
    let b = s.call_args(k, args);
    let events = h + m.events;
    let e = b.events.last();
    assert(h + b.events =~= events.push(e));
    lemma_push(events, e);
    let calls = m.stream.func.calls;
    let n = m.stream.text.current_output_index;
    assert(place(e) == at(calls[k].output_index->0 as int));
    assert(e.payload.text_at("delta"@) == Some(args));
    if events.push(e).len() <= i64::MAX {
        assert forall|j: int| 0 <= j < calls.len() implies call_fits(
            events.push(e),
            #[trigger] calls[j],
            n,
            Seq::empty(),
        ) by {
            let more = if j == k {
                args
            } else {
                Seq::empty()
            };
            assert(call_fits(events, calls[j], n, more));
            if j == k {
                assert(given(events.push(e), calls[k]) == given(events, calls[k]) + args);
                assert(given(events.push(e), calls[k]) + Seq::<char>::empty() =~= given(
                    events.push(e),
                    calls[k],
                ));
            } else {
                if j < k {
                    assert(calls[j].output_index is Some ==> calls[j].output_index
                        != calls[k].output_index);
                } else {
                    assert(calls[k].output_index != calls[j].output_index);
                }
                assert(given(events.push(e), calls[j]) == given(events, calls[j]));
            }
        }
    }
}

proof fn lemma_call_parts(h: Seq<EventV>, s: StepV, calls: Seq<ToolCallDeltaV>, n: int)
    requires
        settled(h + s.events, s.stream),
    ensures
        settled(h + s.call_parts(calls, n).events, s.call_parts(calls, n).stream),
    decreases n,
{
    if n > 0 {
        lemma_call_parts(h, s, calls, n - 1);
        let a = s.call_parts(calls, n - 1);
        let d = calls[n - 1];
        lemma_call_entered(h, a, d);
        let b = a.call_entered(d);
        let k = handlers::slot(b.stream.func.calls, d.index);
        let args = text::or_text(d.arguments, Seq::empty());
        if args.len() > 0 {
            lemma_call_args(h, b, k, args);
        } else {
            assert(args =~= Seq::empty());
            reveal(fits);
        }
    }
}

proof fn lemma_call_closed(
    h: Seq<EventV>,
    s: StepV,
    k: int,
    reasoning: Option<Seq<char>>,
)
    requires
        settled(h + s.events, s.stream),
        0 <= k < s.stream.func.calls.len(),
    ensures
        ({
            let b = s.call_closed(s.stream.func.calls[k], reasoning);
            &&& settled(h + b.events, b.stream)
            &&& b.stream.func.calls == s.stream.func.calls
        }),
{
    let calls = s.stream.func.calls;
    let c = calls[k];
    if let Some(i) = c.output_index {
        lemma_names();
        lemma_keys();
        let b = s.call_closed(c, reasoning);
        let m = StepV { saves: b.saves, ..s };
        let done = JsonV::object().with(
            "item_id"@,
            JsonV::Text(handlers::call_item_id(c.call_id)),
        ).with("output_index"@, JsonV::Int(i as int)).with("arguments"@, JsonV::Text(c.args));
        let a = m.emit("response.function_call_arguments.done"@, done);
        assert(settled(h + a.events, a.stream)) by {
            reveal(fits);
            let events = h + s.events;
            let e = a.events.last();
            assert(h + a.events =~= events.push(e));
            lemma_push(events, e);
            assert(place(e) == at(i as int));
            assert(e.payload.text_at("arguments"@) == Some(c.args));
            if events.push(e).len() <= i64::MAX {
                assert(call_fits(events, c, s.stream.text.current_output_index, Seq::empty()));
                assert(c.args =~= pieces(events, Kind::Arguments, at(i as int)));
            }
            assert forall|j: int| 0 <= j < calls.len() implies given(
                events.push(e),
                #[trigger] calls[j],
            ) == given(events, calls[j]) by {}
        }
        let item = handlers::with_item(
            i,
            handlers::call_item(c.call_id, c.name, "completed"@, c.args),
        );
        assert(b == a.emit("response.output_item.done"@, item));
        lemma_plain(h, a, b, "response.output_item.done"@, item, -1, Seq::empty());
    }
}

proof fn lemma_calls_closed(
    h: Seq<EventV>,
    s: StepV,
    reasoning: Option<Seq<char>>,
    n: int,
)
    requires
        settled(h + s.events, s.stream),
        n <= s.stream.func.calls.len(),
    ensures
        ({
            let b = s.calls_closed(s.stream.func.calls, reasoning, n);
            &&& settled(h + b.events, b.stream)
            &&& b.stream.func.calls == s.stream.func.calls
        }),
    decreases n,
{
    if n > 0 {
        lemma_calls_closed(h, s, reasoning, n - 1);
        let a = s.calls_closed(s.stream.func.calls, reasoning, n - 1);
        lemma_call_closed(h, a, n - 1, reasoning);
    }
}

proof fn lemma_funcs_closed(h: Seq<EventV>, s: StepV)
    requires
        settled(h + s.events, s.stream),
    ensures
        settled(h + s.funcs_closed().events, s.funcs_closed().stream),
{
    let calls = s.stream.func.calls;
    let reasoning = s.stream.reasoning.for_func_calls;
    let taken = StepV {
        stream: StreamV {
            reasoning: ReasoningV { for_func_calls: None, ..s.stream.reasoning },
            ..s.stream
        },
        ..s
    };
    lemma_same(h + s.events, s.stream, taken.stream, -1, Seq::empty());
    lemma_calls_closed(h, taken, reasoning, calls.len() as int);
    let a = taken.calls_closed(calls, reasoning, calls.len() as int);
    lemma_same(h + a.events, a.stream, s.funcs_closed().stream, -1, Seq::empty());
}

// ---------------------------------------------------------------------------------------------
// Whole streams
// ---------------------------------------------------------------------------------------------

proof fn lemma_all_closed(h: Seq<EventV>, s: StepV)
    requires
        settled(h + s.events, s.stream),
    ensures
        settled(h + s.all_closed().events, s.all_closed().stream),
{
    reveal(StepV::all_closed);
    lemma_reasoning_closed(h, s);
    let a = s.reasoning_closed();
    lemma_text_closed(h, a);
    let b = a.text_closed();
    if b.stream.func.in_block {
        lemma_funcs_closed(h, b);
    }
}

proof fn lemma_thoughts(h: Seq<EventV>, s: StepV, parts: Seq<Seq<char>>, n: int)
    requires
        settled(h + s.events, s.stream),
    ensures
        settled(h + s.thoughts(parts, n).events, s.thoughts(parts, n).stream),
    decreases n,
{
    if n > 0 {
        lemma_thoughts(h, s, parts, n - 1);
        let a = s.thoughts(parts, n - 1);
        lemma_reasoning_closed(h, a);
        lemma_reasoning_part(h, a.reasoning_closed(), parts[n - 1]);
    }
}

proof fn lemma_contents(h: Seq<EventV>, s: StepV, parts: Seq<Seq<char>>, n: int)
    requires
        settled(h + s.events, s.stream),
    ensures
        settled(h + s.contents(parts, n).events, s.contents(parts, n).stream),
    decreases n,
{
    if n > 0 {
        lemma_contents(h, s, parts, n - 1);
        let a = s.contents(parts, n - 1);
        lemma_reasoning_closed(h, a);
        lemma_content_part(h, a.reasoning_closed(), parts[n - 1]);
    }
}

proof fn lemma_text_part(h: Seq<EventV>, s: StepV, t: Seq<char>)
    requires
        settled(h + s.events, s.stream),
    ensures
        settled(h + s.text_part(t).events, s.text_part(t).stream),
{
    reveal(StepV::text_part);
    let f = super::fed(s.stream.think, t);
    let a = StepV { stream: StreamV { think: f.think, ..s.stream }, ..s };
    lemma_same(h + s.events, s.stream, a.stream, -1, Seq::empty());
    lemma_thoughts(h, a, f.reasoning, f.reasoning.len() as int);
    let b = a.thoughts(f.reasoning, f.reasoning.len() as int);
    lemma_contents(h, b, f.content, f.content.len() as int);
}

proof fn lemma_delta(h: Seq<EventV>, s: StepV, d: DeltaV)
    requires
        settled(h + s.events, s.stream),
    ensures
        settled(h + s.delta(d).events, s.delta(d).stream),
{
    reveal(StepV::delta);
    let a = match d.reasoning_content {
        Some(t) => if t.len() > 0 {
            s.reasoning_part(t)
        } else {
            s
        },
        None => s,
    };
    if d.reasoning_content is Some {
        lemma_reasoning_part(h, s, d.reasoning_content->0);
    }
    let b = match d.content {
        Some(t) => if t.len() > 0 {
            a.text_part(t)
        } else {
            a
        },
        None => a,
    };
    if d.content is Some {
        lemma_text_part(h, a, d.content->0);
    }
    if let Some(calls) = d.tool_calls {
        lemma_reasoning_closed(h, b);
        lemma_text_closed(h, b.reasoning_closed());
        lemma_call_parts(h, b.reasoning_closed().text_closed(), calls, calls.len() as int);
    }
}

proof fn lemma_ended(h: Seq<EventV>, s: StepV, reason: Option<Seq<char>>)
    requires
        settled(h + s.events, s.stream),
    ensures
        settled(h + s.ended(reason).events, s.ended(reason).stream),
{
    reveal(StepV::ended);
    reveal(StepV::flushed);
    if super::conversion::is_finish(reason) {
        let a = StepV {
            stream: StreamV {
                session: SessionV { finish_reason: reason, ..s.stream.session },
                ..s.stream
            },
            ..s
        };
        let t = a.stream.think;
        let b = StepV { stream: StreamV { think: super::flushed_think(t), ..a.stream }, ..a };
        lemma_same(h + s.events, s.stream, b.stream, -1, Seq::empty());
        lemma_reasoning_part(h, b, super::flushed_text(t));
        lemma_content_part(h, b, super::flushed_text(t));
        lemma_all_closed(h, a.flushed());
    }
}

proof fn lemma_choices(h: Seq<EventV>, s: StepV, choices: Seq<StreamChoiceV>, n: int)
    requires
        settled(h + s.events, s.stream),
    ensures
        settled(h + s.choices(choices, n).events, s.choices(choices, n).stream),
    decreases n,
{
    if n > 0 {
        reveal(StepV::choice);
        lemma_choices(h, s, choices, n - 1);
        let a = s.choices(choices, n - 1);
        let c = choices[n - 1];
        if c.delta is Some {
            lemma_delta(h, a, c.delta->0);
            lemma_ended(h, a.delta(c.delta->0), c.finish_reason);
        } else {
            lemma_ended(h, a, c.finish_reason);
        }
    }
}

proof fn lemma_started(h: Seq<EventV>, s: StepV, c: ChunkV, random: Seq<char>, time: i64)
    requires
        settled(h + s.events, s.stream),
    ensures
        settled(h + s.started(c, random, time).events, s.started(c, random, time).stream),
{
    if s.stream.session.first_chunk {
        lemma_names();
        let b = s.started(c, random, time);
        let id = b.stream.session.response_id;
        let created_at = b.stream.session.created_at;
        let response = super::conversion::started_response(id, created_at);
        let m = StepV {
            stream: StreamV {
                session: SessionV {
                    seq: 0,
                    response_id: id,
                    created_at,
                    first_chunk: false,
                    ..s.stream.session
                },
                ..s.stream
            },
            ..s
        };
        lemma_same(h + s.events, s.stream, m.stream, -1, Seq::empty());
        let created = JsonV::object().with(
            "response"@,
            response.with("background"@, JsonV::Bool(false)).with("error"@, JsonV::Null).with(
                "instructions"@,
                JsonV::Text(Seq::empty()),
            ),
        );
        let a = m.emit("response.created"@, created);
        lemma_plain(h, m, a, "response.created"@, created, -1, Seq::empty());
        let in_progress = JsonV::object().with("response"@, response);
        lemma_plain(h, a, b, "response.in_progress"@, in_progress, -1, Seq::empty());
    }
}

proof fn lemma_chunk(h: Seq<EventV>, s: StepV, c: ChunkV, random: Seq<char>, time: i64)
    requires
        settled(h + s.events, s.stream),
    ensures
        settled(h + s.chunk(c, random, time).events, s.chunk(c, random, time).stream),
{
    lemma_started(h, s, c, random, time);
    let a = s.started(c, random, time);
    let b = a.usage_counted(c.usage);
    lemma_same(h + a.events, a.stream, b.stream, -1, Seq::empty());
    if let Some(choices) = c.choices {
        lemma_choices(h, b, choices, choices.len() as int);
    }
}

proof fn lemma_completed(h: Seq<EventV>, s: StepV, request: JsonV, inject: bool)
    requires
        settled(h + s.events, s.stream),
    ensures
        settled(h + s.completed(request, inject).events, s.completed(request, inject).stream),
{
    reveal(StepV::completed);
    lemma_names();
    let a = s.synthesized();
    assert(settled(h + a.events, a.stream)) by {
        reveal(fits);
    }
    lemma_all_closed(h, a);
    let b = a.all_closed();
    lemma_plain(
        h,
        b,
        s.completed(request, inject),
        "response.completed"@,
        JsonV::object().with("response"@, laws::reported(b.stream, request, inject)),
        -1,
        Seq::empty(),
    );
}

proof fn lemma_called(h: Seq<EventV>, s: StepV, input: InputV)
    requires
        settled(h + s.events, s.stream),
    ensures
        settled(h + s.called(input).events, s.called(input).stream),
{
    match input {
        InputV::Line { line, request, inject, random, time } => {
            laws::law_lines(s, line, request, inject, random, time);
            lemma_completed(h, s, request, inject);
            if let Some(c) = laws::line_chunk(line) {
                lemma_chunk(h, s, c, random, time);
            }
        },
        InputV::End { request, inject } => {
            lemma_completed(h, s, request, inject);
        },
    }
}

proof fn lemma_all_calls(inputs: Seq<InputV>, n: int)
    ensures
        settled(all_calls(inputs, n).1, all_calls(inputs, n).0),
    decreases n,
{
    if n <= 0 {
        reveal(fits);
    } else {
        lemma_all_calls(inputs, n - 1);
        let (st, events) = all_calls(inputs, n - 1);
        let s = StepV::start(st);
        assert(events + s.events =~= events);
        lemma_called(events, s, inputs[n - 1]);
    }
}

/// In all that a new stream gives out, over as many calls as you like, each event that ends a
/// text carries what the pieces before it make up: the text of a message, of a reasoning item, and
/// the arguments of a function call. Pieces belong together by their output index. (As long as
/// the events can be counted in 64 bits: output indices begin anew behind that.)
pub proof fn law_pieces_make_up_wholes(inputs: Seq<InputV>)
    requires
        all_calls(inputs, inputs.len() as int).1.len() <= i64::MAX,
    ensures
        pieces_make_up_wholes(all_calls(inputs, inputs.len() as int).1),
{
    lemma_all_calls(inputs, inputs.len() as int);
    reveal(fits);
}

} // verus!

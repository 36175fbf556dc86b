//! What holds of every stream.

use vstd::prelude::*;
use vstd::string::*;
use vstd::utf8::*;

use super::completion;
use super::handlers;
use super::thinking;
use super::{CallV, EventV, FuncV, ReasoningV, SessionV, StepV, StreamV, TextV};
use crate::json;
use crate::json::JsonV;
use crate::text;
use crate::types;
use crate::types::{ChunkV, DeltaV, StreamChoiceV, ToolCallDeltaV};

verus! {

// ---------------------------------------------------------------------------------------------
// What a client makes of the events
// ---------------------------------------------------------------------------------------------

/// A client that puts the pieces together.
#[verifier::ext_equal]
pub struct ClientV {
    /// The number of the last event.
    pub seq: i64,
    /// The text of the last message.
    pub text: Seq<char>,
    /// The text of the reasoning that is open.
    pub reasoning: Seq<char>,
    /// The index of the next output item.
    pub index: i64,
}

impl ClientV {
    /// The client after an event.
    pub open spec fn next(self, e: EventV) -> ClientV {
        ClientV {
            seq: super::following(self.seq),
            text: if e.name == "response.content_part.added"@ {
                Seq::empty()
            } else if e.name == "response.output_text.delta"@ {
                self.text + text::or_text(e.payload.text_at("delta"@), Seq::empty())
            } else {
                self.text
            },
            reasoning: if e.name == "response.reasoning_summary_part.added"@ || e.name
                == "response.reasoning_summary_part.done"@ {
                Seq::empty()
            } else if e.name == "response.reasoning_summary_text.delta"@ {
                self.reasoning + text::or_text(e.payload.text_at("text"@), Seq::empty())
            } else {
                self.reasoning
            },
            index: if e.name == "response.output_item.added"@ {
                super::following(self.index)
            } else {
                self.index
            },
        }
    }

    /// The event is one that the client can make sense of: it carries its own name and the next
    /// number, a new output item gets the next index, and where a text ends it is the one that the
    /// client has put together.
    pub open spec fn expects(self, e: EventV) -> bool {
        &&& e.payload.get("type"@) == Some(JsonV::Text(e.name))
        &&& e.payload.get("sequence_number"@) == Some(
            JsonV::Int(super::following(self.seq) as int),
        )
        &&& e.name == "response.output_item.added"@ ==> e.payload.get("output_index"@) == Some(
            JsonV::Int(self.index as int),
        )
        &&& e.name == "response.output_text.done"@ ==> e.payload.text_at("text"@) == Some(
            self.text,
        )
        &&& e.name == "response.reasoning_summary_text.done"@ ==> e.payload.text_at("text"@)
            == Some(self.reasoning)
    }

    /// The client after the events from `from` up to `to`.
    pub open spec fn received(self, events: Seq<EventV>, from: int, to: int) -> ClientV
        decreases to - from,
    {
        if to <= from {
            self
        } else {
            self.received(events, from, to - 1).next(events[to - 1])
        }
    }
}

/// The client that has followed a stream.
pub open spec fn client_of(st: StreamV) -> ClientV {
    ClientV {
        seq: st.session.seq,
        text: st.text.buf,
        reasoning: st.reasoning.buf,
        index: st.text.current_output_index,
    }
}

/// The step `b` follows from `a`: a client that has followed the stream to `a` expects each of the
/// new events, and has followed it to `b` after them.
pub open spec fn follows(a: StepV, b: StepV) -> bool {
    let from = a.events.len() as int;
    let client = client_of(a.stream);
    &&& from <= b.events.len()
    &&& b.events.take(from) == a.events
    &&& client.received(b.events, from, b.events.len() as int) == client_of(b.stream)
    &&& forall|i: int|
        from <= i < b.events.len() ==> client.received(b.events, from, i).expects(
            #[trigger] b.events[i],
        )
}

/// The events that stand at the beginning and at the end of a response.
pub open spec fn is_bracket(name: Seq<char>) -> bool {
    name == "response.created"@ || name == "response.in_progress"@ || name
        == "response.completed"@
}

/// None of the events from `from` on stands at the beginning or at the end of a response.
pub open spec fn inside(events: Seq<EventV>, from: int) -> bool {
    forall|i: int| from <= i < events.len() ==> !is_bracket((#[trigger] events[i]).name)
}

/// The step `b` goes on from `a`: it follows from `a`, inside of the same response.
pub open spec fn goes_on(a: StepV, b: StepV) -> bool {
    &&& follows(a, b)
    &&& inside(b.events, a.events.len() as int)
    &&& b.stream.session.first_chunk == a.stream.session.first_chunk
    &&& b.stream.session.response_id == a.stream.session.response_id
    &&& b.stream.session.created_at == a.stream.session.created_at
}

proof fn lemma_received_prefix(c: ClientV, a: Seq<EventV>, b: Seq<EventV>, from: int, to: int)
    requires
        0 <= from,
        to <= a.len() <= b.len(),
        b.take(a.len() as int) == a,
    ensures
        c.received(a, from, to) == c.received(b, from, to),
    decreases to - from,
{
    if to > from {
        lemma_received_prefix(c, a, b, from, to - 1);
        assert(a[to - 1] == b.take(a.len() as int)[to - 1]);
    }
}

proof fn lemma_received_split(c: ClientV, events: Seq<EventV>, from: int, mid: int, to: int)
    requires
        from <= mid <= to,
    ensures
        c.received(events, from, to) == c.received(events, from, mid).received(events, mid, to),
    decreases to - mid,
{
    if to > mid {
        lemma_received_split(c, events, from, mid, to - 1);
    }
}

spec fn same_response(a: StepV, b: StepV) -> bool {
    &&& b.stream.session.first_chunk == a.stream.session.first_chunk
    &&& b.stream.session.response_id == a.stream.session.response_id
    &&& b.stream.session.created_at == a.stream.session.created_at
}

proof fn lemma_stays(a: StepV, b: StepV)
    requires
        a.events == b.events,
        client_of(a.stream) == client_of(b.stream),
        same_response(a, b),
    ensures
        goes_on(a, b),
{
    assert(b.events.take(a.events.len() as int) =~= a.events);
}

proof fn lemma_one_follows(a: StepV, b: StepV, e: EventV)
    requires
        b.events == a.events.push(e),
        client_of(a.stream).expects(e),
        client_of(b.stream) == client_of(a.stream).next(e),
    ensures
        follows(a, b),
{
    let from = a.events.len() as int;
    let c = client_of(a.stream);
    assert(b.events.take(from) =~= a.events);
    assert(c.received(b.events, from, from) == c);
    assert(c.received(b.events, from, from + 1) == c.next(e));
}

proof fn lemma_one(a: StepV, b: StepV, e: EventV)
    requires
        b.events == a.events.push(e),
        client_of(a.stream).expects(e),
        client_of(b.stream) == client_of(a.stream).next(e),
        !is_bracket(e.name),
        same_response(a, b),
    ensures
        goes_on(a, b),
{
    lemma_one_follows(a, b, e);
}

proof fn lemma_chain_follows(a: StepV, b: StepV, c: StepV)
    requires
        follows(a, b),
        follows(b, c),
    ensures
        follows(a, c),
{
    let from = a.events.len() as int;
    let mid = b.events.len() as int;
    let to = c.events.len() as int;
    let client = client_of(a.stream);
    assert(c.events.take(from) =~= b.events.take(from)) by {
        assert forall|i: int| 0 <= i < from implies c.events[i] == b.events[i] by {
            assert(c.events.take(mid)[i] == b.events[i]);
        }
    }
    lemma_received_prefix(client, b.events, c.events, from, mid);
    lemma_received_split(client, c.events, from, mid, to);
    assert forall|i: int| from <= i < to implies client.received(c.events, from, i).expects(
        #[trigger] c.events[i],
    ) by {
        if i < mid {
            lemma_received_prefix(client, b.events, c.events, from, i);
            assert(c.events.take(mid)[i] == b.events[i]);
        } else {
            lemma_received_split(client, c.events, from, mid, i);
        }
    }
}

proof fn lemma_chain(a: StepV, b: StepV, c: StepV)
    requires
        goes_on(a, b),
        goes_on(b, c),
    ensures
        goes_on(a, c),
{
    lemma_chain_follows(a, b, c);
    let from = a.events.len() as int;
    let mid = b.events.len() as int;
    assert forall|i: int| from <= i < c.events.len() implies !is_bracket(
        (#[trigger] c.events[i]).name,
    ) by {
        if i < mid {
            assert(c.events.take(mid)[i] == b.events[i]);
        }
    }
}

/// Names of events and members are told apart.
proof fn lemma_names()
    ensures
        "type"@ != "sequence_number"@,
        "delta"@ != "type"@,
        "delta"@ != "sequence_number"@,
        "delta"@ != "logprobs"@,
        "text"@ != "type"@,
        "text"@ != "sequence_number"@,
        "text"@ != "logprobs"@,
        "output_index"@ != "type"@,
        "output_index"@ != "sequence_number"@,
        "output_index"@ != "item"@,
        "item"@ != "type"@,
        "item"@ != "sequence_number"@,
{
    reveal_strlit("type");
    reveal_strlit("sequence_number");
    reveal_strlit("delta");
    reveal_strlit("logprobs");
    reveal_strlit("text");
    reveal_strlit("output_index");
    reveal_strlit("item");
    assert("type"@.len() == 4 && "type"@[0] == 't' && "type"@[1] == 'y');
    assert("text"@.len() == 4 && "text"@[1] == 'e');
    assert("item"@.len() == 4 && "item"@[0] == 'i');
    assert("delta"@.len() == 5);
    assert("logprobs"@.len() == 8);
    assert("output_index"@.len() == 12);
    assert("sequence_number"@.len() == 15);
}

/// The events that a client acts upon are told apart from all others.
pub open spec fn is_plain(name: Seq<char>) -> bool {
    &&& name != "response.content_part.added"@
    &&& name != "response.output_text.delta"@
    &&& name != "response.output_text.done"@
    &&& name != "response.reasoning_summary_part.added"@
    &&& name != "response.reasoning_summary_part.done"@
    &&& name != "response.reasoning_summary_text.delta"@
    &&& name != "response.reasoning_summary_text.done"@
    &&& name != "response.output_item.added"@
}

pub(super) proof fn lemma_events()
    ensures
        is_plain("response.created"@),
        is_plain("response.in_progress"@),
        is_plain("response.completed"@),
        "response.created"@ != "response.in_progress"@,
        "response.created"@ != "response.completed"@,
        "response.in_progress"@ != "response.completed"@,
        !is_bracket("response.content_part.done"@),
        !is_bracket("response.output_item.done"@),
        !is_bracket("response.function_call_arguments.delta"@),
        !is_bracket("response.function_call_arguments.done"@),
        !is_bracket("response.content_part.added"@),
        !is_bracket("response.output_text.delta"@),
        !is_bracket("response.output_text.done"@),
        !is_bracket("response.reasoning_summary_part.added"@),
        !is_bracket("response.reasoning_summary_part.done"@),
        !is_bracket("response.reasoning_summary_text.delta"@),
        !is_bracket("response.reasoning_summary_text.done"@),
        !is_bracket("response.output_item.added"@),
        is_plain("response.content_part.done"@),
        is_plain("response.output_item.done"@),
        is_plain("response.function_call_arguments.delta"@),
        is_plain("response.function_call_arguments.done"@),
        "response.content_part.added"@ != "response.output_text.delta"@,
        "response.content_part.added"@ != "response.output_text.done"@,
        "response.content_part.added"@ != "response.reasoning_summary_part.added"@,
        "response.content_part.added"@ != "response.reasoning_summary_part.done"@,
        "response.content_part.added"@ != "response.reasoning_summary_text.delta"@,
        "response.content_part.added"@ != "response.reasoning_summary_text.done"@,
        "response.content_part.added"@ != "response.output_item.added"@,
        "response.output_text.delta"@ != "response.output_text.done"@,
        "response.output_text.delta"@ != "response.reasoning_summary_part.added"@,
        "response.output_text.delta"@ != "response.reasoning_summary_part.done"@,
        "response.output_text.delta"@ != "response.reasoning_summary_text.delta"@,
        "response.output_text.delta"@ != "response.reasoning_summary_text.done"@,
        "response.output_text.delta"@ != "response.output_item.added"@,
        "response.output_text.done"@ != "response.reasoning_summary_part.added"@,
        "response.output_text.done"@ != "response.reasoning_summary_part.done"@,
        "response.output_text.done"@ != "response.reasoning_summary_text.delta"@,
        "response.output_text.done"@ != "response.reasoning_summary_text.done"@,
        "response.output_text.done"@ != "response.output_item.added"@,
        "response.reasoning_summary_part.added"@ != "response.reasoning_summary_part.done"@,
        "response.reasoning_summary_part.added"@ != "response.reasoning_summary_text.delta"@,
        "response.reasoning_summary_part.added"@ != "response.reasoning_summary_text.done"@,
        "response.reasoning_summary_part.added"@ != "response.output_item.added"@,
        "response.reasoning_summary_part.done"@ != "response.reasoning_summary_text.delta"@,
        "response.reasoning_summary_part.done"@ != "response.reasoning_summary_text.done"@,
        "response.reasoning_summary_part.done"@ != "response.output_item.added"@,
        "response.reasoning_summary_text.delta"@ != "response.reasoning_summary_text.done"@,
        "response.reasoning_summary_text.delta"@ != "response.output_item.added"@,
        "response.reasoning_summary_text.done"@ != "response.output_item.added"@,
{
    reveal_strlit("response.created");
    reveal_strlit("response.in_progress");
    reveal_strlit("response.completed");
    reveal_strlit("response.content_part.done");
    reveal_strlit("response.output_item.done");
    reveal_strlit("response.function_call_arguments.delta");
    reveal_strlit("response.function_call_arguments.done");
    reveal_strlit("response.content_part.added");
    reveal_strlit("response.output_text.delta");
    reveal_strlit("response.output_text.done");
    reveal_strlit("response.reasoning_summary_part.added");
    reveal_strlit("response.reasoning_summary_part.done");
    reveal_strlit("response.reasoning_summary_text.delta");
    reveal_strlit("response.reasoning_summary_text.done");
    reveal_strlit("response.output_item.added");
    assert("response.created"@.len() == 16);
    assert("response.completed"@.len() == 18);
    assert("response.in_progress"@.len() == 20);
    assert("response.output_item.done"@.len() == 25 && "response.output_item.done"@[16] == 'i');
    assert("response.output_text.done"@.len() == 25 && "response.output_text.done"@[16] == 't');
    assert("response.content_part.done"@.len() == 26 && "response.content_part.done"@[9] == 'c');
    assert("response.output_text.delta"@.len() == 26 && "response.output_text.delta"@[9] == 'o');
    assert("response.output_text.delta"@[16] == 't');
    assert("response.output_item.added"@.len() == 26 && "response.output_item.added"@[9] == 'o');
    assert("response.output_item.added"@[16] == 'i');
    assert("response.content_part.added"@.len() == 27);
    assert("response.reasoning_summary_part.done"@.len() == 36);
    assert("response.reasoning_summary_part.done"@[27] == 'p');
    assert("response.reasoning_summary_text.done"@.len() == 36);
    assert("response.reasoning_summary_text.done"@[27] == 't');
    assert("response.function_call_arguments.done"@.len() == 37);
    assert("response.function_call_arguments.done"@[9] == 'f');
    assert("response.reasoning_summary_part.added"@.len() == 37);
    assert("response.reasoning_summary_part.added"@[9] == 'r');
    assert("response.reasoning_summary_part.added"@[27] == 'p');
    assert("response.reasoning_summary_text.delta"@.len() == 37);
    assert("response.reasoning_summary_text.delta"@[9] == 'r');
    assert("response.reasoning_summary_text.delta"@[27] == 't');
    assert("response.function_call_arguments.delta"@.len() == 38);
}

// ---------------------------------------------------------------------------------------------
// Streams in order
// ---------------------------------------------------------------------------------------------

impl StreamV {
    /// The stream is in order: reasoning is held only while a reasoning item is open, an item that
    /// is open was announced, the function calls stand in the order of their indices, and so is
    /// the search for a thinking section.
    pub open spec fn wf(self) -> bool {
        &&& !self.reasoning.active ==> self.reasoning.buf.len() == 0
        &&& self.reasoning.active ==> self.reasoning.part_added
        &&& self.text.in_block ==> self.text.msg_id.len() > 0
        &&& calls_in_order(self.func.calls)
        &&& self.think.wf()
    }
}

/// The calls stand in the order of their indices, one for each.
pub open spec fn calls_in_order(calls: Seq<CallV>) -> bool {
    forall|i: int, j: int|
        0 <= i < j < calls.len() ==> (#[trigger] calls[i]).index < (#[trigger] calls[j]).index
}

/// A stream that is in order has no message to make up.
pub proof fn law_no_message_is_made_up(st: StreamV)
    requires
        st.wf(),
    ensures
        !st.synthesizes(),
{
}

/// A new stream is in order.
pub proof fn law_new_stream_in_order()
    ensures
        StreamV::initial().wf(),
{
}

/// An event whose name asks nothing of the client but to count it.
proof fn lemma_emit_follows(a: StepV, b: StepV, name: Seq<char>, body: JsonV)
    requires
        body is Object,
        is_plain(name),
        b == a.emit(name, body),
    ensures
        follows(a, b),
{
    lemma_names();
    lemma_one_follows(a, b, b.events.last());
}

proof fn lemma_emit(a: StepV, b: StepV, name: Seq<char>, body: JsonV)
    requires
        body is Object,
        is_plain(name),
        !is_bracket(name),
        b == a.emit(name, body),
    ensures
        goes_on(a, b),
{
    lemma_emit_follows(a, b, name, body);
}

proof fn lemma_reasoning_opened(s: StepV)
    requires
        s.stream.wf(),
    ensures
        goes_on(s, s.reasoning_opened()),
        s.reasoning_opened().stream.wf(),
        s.reasoning_opened().stream.reasoning.active,
{
    let b = s.reasoning_opened();
    if s.stream.reasoning.active {
        lemma_stays(s, b);
    } else {
        lemma_names();
        lemma_events();
        let i = s.stream.text.current_output_index;
        let r = b.stream.reasoning;
        let opened = StepV {
            stream: StreamV {
                text: TextV { current_output_index: super::following(i), ..s.stream.text },
                reasoning: r,
                ..s.stream
            },
            ..s
        };
        let item = handlers::with_item(
            i,
            handlers::reasoning_item(r.item_id, "in_progress"@, Seq::empty()),
        );
        let a = opened.emit("response.output_item.added"@, item);
        assert(b == a.emit(
            "response.reasoning_summary_part.added"@,
            handlers::in_reasoning(r).with("part"@, handlers::summary_text(Seq::empty())),
        ));
        assert(s.stream.reasoning.buf =~= r.buf);
        assert(client_of(a.stream) =~= client_of(s.stream).next(a.events.last()));
        lemma_one(s, a, a.events.last());
        assert(client_of(b.stream) =~= client_of(a.stream).next(b.events.last()));
        lemma_one(a, b, b.events.last());
        lemma_chain(s, a, b);
    }
}

proof fn lemma_reasoning_part(s: StepV, t: Seq<char>)
    requires
        s.stream.wf(),
    ensures
        goes_on(s, s.reasoning_part(t)),
        s.reasoning_part(t).stream.wf(),
{
    let a = s.reasoning_opened();
    let b = s.reasoning_part(t);
    lemma_reasoning_opened(s);
    lemma_names();
    lemma_events();
    assert(client_of(b.stream) =~= client_of(a.stream).next(b.events.last()));
    lemma_one(a, b, b.events.last());
    lemma_chain(s, a, b);
}

proof fn lemma_reasoning_closed(s: StepV)
    requires
        s.stream.wf(),
    ensures
        goes_on(s, s.reasoning_closed()),
        s.reasoning_closed().stream.wf(),
        !s.reasoning_closed().stream.reasoning.active,
{
    let r = s.stream.reasoning;
    let d = s.reasoning_closed();
    if !r.active {
        lemma_stays(s, d);
    } else {
        lemma_names();
        lemma_events();
        let a = s.emit(
            "response.reasoning_summary_text.done"@,
            handlers::in_reasoning(r).with("text"@, JsonV::Text(r.buf)),
        );
        let b0 = a.emit(
            "response.reasoning_summary_part.done"@,
            handlers::in_reasoning(r).with("part"@, handlers::summary_text(r.buf)),
        );
        let b = StepV {
            stream: StreamV {
                reasoning: ReasoningV { buf: Seq::empty(), ..b0.stream.reasoning },
                ..b0.stream
            },
            ..b0
        };
        assert(client_of(a.stream) =~= client_of(s.stream).next(a.events.last()));
        lemma_one(s, a, a.events.last());
        assert(client_of(b.stream) =~= client_of(a.stream).next(b.events.last()));
        lemma_one(a, b, b.events.last());
        assert(client_of(d.stream) =~= client_of(b.stream).next(d.events.last()));
        assert(d.events =~= b.events.push(d.events.last()));
        lemma_one(b, d, d.events.last());
        lemma_chain(s, a, b);
        lemma_chain(s, b, d);
    }
}

proof fn lemma_text_opened(s: StepV)
    requires
        s.stream.wf(),
    ensures
        goes_on(s, s.text_opened()),
        s.text_opened().stream.wf(),
        s.text_opened().stream.text.in_block,
{
    let b = s.text_opened();
    if s.stream.text.in_block {
        lemma_stays(s, b);
    } else {
        lemma_names();
        lemma_events();
        reveal_strlit("msg_");
        let i = s.stream.text.current_output_index;
        let t = b.stream.text;
        let opened = StepV {
            stream: StreamV { text: TextV { buf: s.stream.text.buf, ..t }, ..s.stream },
            ..s
        };
        let a = opened.emit(
            "response.output_item.added"@,
            handlers::with_item(
                i,
                handlers::message_item(t.msg_id, "in_progress"@, Seq::empty()),
            ),
        );
        assert(client_of(a.stream) =~= client_of(s.stream).next(a.events.last()));
        lemma_one(s, a, a.events.last());
        assert(client_of(b.stream) =~= client_of(a.stream).next(b.events.last()));
        assert(b.events =~= a.events.push(b.events.last()));
        lemma_one(a, b, b.events.last());
        lemma_chain(s, a, b);
    }
}

proof fn lemma_content_part(s: StepV, t: Seq<char>)
    requires
        s.stream.wf(),
    ensures
        goes_on(s, s.content_part(t)),
        s.content_part(t).stream.wf(),
{
    let a = s.text_opened();
    let b = s.content_part(t);
    lemma_text_opened(s);
    lemma_names();
    lemma_events();
    assert(client_of(b.stream) =~= client_of(a.stream).next(b.events.last()));
    lemma_one(a, b, b.events.last());
    lemma_chain(s, a, b);
}

proof fn lemma_text_closed(s: StepV)
    requires
        s.stream.wf(),
    ensures
        goes_on(s, s.text_closed()),
        s.text_closed().stream.wf(),
        !s.text_closed().stream.text.in_block,
        s.text_closed().stream.reasoning == s.stream.reasoning,
{
    let t = s.stream.text;
    let d = s.text_closed();
    if !t.in_block {
        lemma_stays(s, d);
    } else {
        lemma_names();
        lemma_events();
        let a = s.emit(
            "response.output_text.done"@,
            handlers::in_message(t).with("text"@, JsonV::Text(t.buf)).with(
                "logprobs"@,
                JsonV::Array(Seq::empty()),
            ),
        );
        let part = handlers::in_message(t).with("part"@, handlers::output_text(t.buf));
        let b = a.emit("response.content_part.done"@, part);
        assert(client_of(a.stream) =~= client_of(s.stream).next(a.events.last()));
        lemma_one(s, a, a.events.last());
        lemma_emit(a, b, "response.content_part.done"@, part);
        assert(client_of(d.stream) =~= client_of(b.stream).next(d.events.last()));
        assert(d.events =~= b.events.push(d.events.last()));
        lemma_one(b, d, d.events.last());
        lemma_chain(s, a, b);
        lemma_chain(s, b, d);
    }
}

proof fn lemma_with_call_in_order(calls: Seq<CallV>, index: i64)
    requires
        calls_in_order(calls),
    ensures
        calls_in_order(handlers::with_call(calls, index)),
{
    handlers::lemma_slot(calls, index, 0);
    let k = handlers::slot(calls, index);
    let b = handlers::with_call(calls, index);
    if !(k < calls.len() && calls[k].index == index) {
        assert forall|i: int, j: int| 0 <= i < j < b.len() implies (#[trigger] b[i]).index < (
        #[trigger] b[j]).index by {
            let x = if i < k {
                i
            } else {
                i - 1
            };
            let y = if j < k {
                j
            } else {
                j - 1
            };
            if i != k {
                assert(b[i] == calls[x]);
            }
            if j != k {
                assert(b[j] == calls[y]);
            }
            if i == k {
                assert(calls[k].index <= calls[y].index);
            }
        }
    }
}

proof fn lemma_call_announced(s: StepV, k: int)
    requires
        s.stream.wf(),
        0 <= k < s.stream.func.calls.len(),
    ensures
        goes_on(s, s.call_announced(k)),
        s.call_announced(k).stream.wf(),
        s.call_announced(k).stream.func.calls.len() == s.stream.func.calls.len(),
{
    let b = s.call_announced(k);
    lemma_names();
    lemma_events();
    assert(client_of(b.stream) =~= client_of(s.stream).next(b.events.last()));
    assert(b.events =~= s.events.push(b.events.last()));
    lemma_one(s, b, b.events.last());
}

proof fn lemma_call_entered(s: StepV, d: ToolCallDeltaV)
    requires
        s.stream.wf(),
    ensures
        goes_on(s, s.call_entered(d)),
        s.call_entered(d).stream.wf(),
        0 <= handlers::slot(s.call_entered(d).stream.func.calls, d.index) < s.call_entered(
            d,
        ).stream.func.calls.len(),
{
    let calls = handlers::with_call(s.stream.func.calls, d.index);
    lemma_with_call_in_order(s.stream.func.calls, d.index);
    handlers::lemma_with_call(s.stream.func.calls, d.index);
    let k = handlers::slot(calls, d.index);
    let c = handlers::grown_call(calls[k], d);
    let a = s.with_calls(calls.update(k, c));
    lemma_stays(s, a);
    let b = s.call_entered(d);
    if handlers::announceable(c) {
        let m = StepV {
            stream: StreamV {
                session: SessionV { fc_id: c.call_id, ..a.stream.session },
                func: FuncV { in_block: true, ..a.stream.func },
                ..a.stream
            },
            ..a
        };
        lemma_stays(s, m);
        lemma_call_announced(m, k);
        lemma_chain(s, m, b);
    }
    assert forall|i: int| 0 <= i < calls.len() implies (#[trigger] calls[i]).index
        == b.stream.func.calls[i].index by {}
    handlers::lemma_same_slot(calls, b.stream.func.calls, d.index, 0);
}

proof fn lemma_call_part(s: StepV, d: ToolCallDeltaV)
    requires
        s.stream.wf(),
    ensures
        goes_on(s, s.call_part(d)),
        s.call_part(d).stream.wf(),
{
    let a = s.call_entered(d);
    lemma_call_entered(s, d);
    let args = text::or_text(d.arguments, Seq::empty());
    if args.len() > 0 {
        let k = handlers::slot(a.stream.func.calls, d.index);
        let b = a.call_args(k, args);
        let m = if a.stream.func.calls[k].output_index is None {
            a.call_announced(k)
        } else {
            a
        };
        if a.stream.func.calls[k].output_index is None {
            lemma_call_announced(a, k);
        } else {
            lemma_stays(a, m);
        }
        lemma_events();
        let c = m.stream.func.calls[k];
        lemma_emit(
            m,
            b,
            "response.function_call_arguments.delta"@,
            JsonV::object().with(
                "item_id"@,
                JsonV::Text(handlers::call_item_id(c.call_id)),
            ).with("output_index"@, JsonV::Int(c.output_index->0 as int)).with(
                "delta"@,
                JsonV::Text(args),
            ),
        );
        lemma_chain(a, m, b);
        lemma_chain(s, a, b);
    }
}

proof fn lemma_call_parts(s: StepV, calls: Seq<ToolCallDeltaV>, n: int)
    requires
        s.stream.wf(),
    ensures
        goes_on(s, s.call_parts(calls, n)),
        s.call_parts(calls, n).stream.wf(),
    decreases n,
{
    if n <= 0 {
        lemma_stays(s, s);
    } else {
        lemma_call_parts(s, calls, n - 1);
        let a = s.call_parts(calls, n - 1);
        lemma_call_part(a, calls[n - 1]);
        lemma_chain(s, a, s.call_parts(calls, n));
    }
}

proof fn lemma_call_closed(s: StepV, c: CallV, reasoning: Option<Seq<char>>)
    requires
        s.stream.wf(),
    ensures
        goes_on(s, s.call_closed(c, reasoning)),
        s.call_closed(c, reasoning).stream.wf(),
        s.call_closed(c, reasoning).stream == (StreamV {
            session: s.call_closed(c, reasoning).stream.session,
            ..s.stream
        }),
{
    if let Some(i) = c.output_index {
        lemma_events();
        let b = s.call_closed(c, reasoning);
        let m = StepV { saves: b.saves, ..s };
        lemma_stays(s, m);
        let done = JsonV::object().with(
            "item_id"@,
            JsonV::Text(handlers::call_item_id(c.call_id)),
        ).with("output_index"@, JsonV::Int(i as int)).with("arguments"@, JsonV::Text(c.args));
        let item = handlers::with_item(
            i,
            handlers::call_item(c.call_id, c.name, "completed"@, c.args),
        );
        let a = m.emit("response.function_call_arguments.done"@, done);
        lemma_emit(m, a, "response.function_call_arguments.done"@, done);
        lemma_emit(a, b, "response.output_item.done"@, item);
        lemma_chain(s, m, a);
        lemma_chain(s, a, b);
    } else {
        lemma_stays(s, s);
    }
}

proof fn lemma_calls_closed(
    s: StepV,
    calls: Seq<CallV>,
    reasoning: Option<Seq<char>>,
    n: int,
)
    requires
        s.stream.wf(),
    ensures
        goes_on(s, s.calls_closed(calls, reasoning, n)),
        s.calls_closed(calls, reasoning, n).stream.wf(),
        s.calls_closed(calls, reasoning, n).stream == (StreamV {
            session: s.calls_closed(calls, reasoning, n).stream.session,
            ..s.stream
        }),
    decreases n,
{
    if n <= 0 {
        lemma_stays(s, s);
    } else {
        lemma_calls_closed(s, calls, reasoning, n - 1);
        let a = s.calls_closed(calls, reasoning, n - 1);
        lemma_call_closed(a, calls[n - 1], reasoning);
        lemma_chain(s, a, s.calls_closed(calls, reasoning, n));
    }
}

proof fn lemma_funcs_closed(s: StepV)
    requires
        s.stream.wf(),
    ensures
        goes_on(s, s.funcs_closed()),
        s.funcs_closed().stream.wf(),
        !s.funcs_closed().stream.func.in_block,
        s.funcs_closed().stream.text == s.stream.text,
        s.funcs_closed().stream.reasoning.active == s.stream.reasoning.active,
{
    let calls = s.stream.func.calls;
    let reasoning = s.stream.reasoning.for_func_calls;
    let taken = StepV {
        stream: StreamV {
            reasoning: ReasoningV { for_func_calls: None, ..s.stream.reasoning },
            ..s.stream
        },
        ..s
    };
    lemma_stays(s, taken);
    let a = taken.calls_closed(calls, reasoning, calls.len() as int);
    lemma_calls_closed(taken, calls, reasoning, calls.len() as int);
    lemma_stays(a, s.funcs_closed());
    lemma_chain(s, taken, a);
    lemma_chain(s, a, s.funcs_closed());
}

proof fn lemma_all_closed(s: StepV)
    requires
        s.stream.wf(),
    ensures
        goes_on(s, s.all_closed()),
        s.all_closed().stream.wf(),
        !s.all_closed().stream.reasoning.active,
        !s.all_closed().stream.text.in_block,
        !s.all_closed().stream.func.in_block,
{
    reveal(StepV::all_closed);
    let a = s.reasoning_closed();
    let b = a.text_closed();
    lemma_reasoning_closed(s);
    lemma_text_closed(a);
    lemma_chain(s, a, b);
    if b.stream.func.in_block {
        lemma_funcs_closed(b);
        lemma_chain(s, b, b.funcs_closed());
    }
}

proof fn lemma_thoughts(s: StepV, parts: Seq<Seq<char>>, n: int)
    requires
        s.stream.wf(),
    ensures
        goes_on(s, s.thoughts(parts, n)),
        s.thoughts(parts, n).stream.wf(),
    decreases n,
{
    if n <= 0 {
        lemma_stays(s, s);
    } else {
        let a = s.thoughts(parts, n - 1);
        lemma_thoughts(s, parts, n - 1);
        lemma_reasoning_closed(a);
        lemma_reasoning_part(a.reasoning_closed(), parts[n - 1]);
        lemma_chain(s, a, a.reasoning_closed());
        lemma_chain(s, a.reasoning_closed(), s.thoughts(parts, n));
    }
}

proof fn lemma_contents(s: StepV, parts: Seq<Seq<char>>, n: int)
    requires
        s.stream.wf(),
    ensures
        goes_on(s, s.contents(parts, n)),
        s.contents(parts, n).stream.wf(),
    decreases n,
{
    if n <= 0 {
        lemma_stays(s, s);
    } else {
        let a = s.contents(parts, n - 1);
        lemma_contents(s, parts, n - 1);
        lemma_reasoning_closed(a);
        lemma_content_part(a.reasoning_closed(), parts[n - 1]);
        lemma_chain(s, a, a.reasoning_closed());
        lemma_chain(s, a.reasoning_closed(), s.contents(parts, n));
    }
}

proof fn lemma_text_part(s: StepV, t: Seq<char>)
    requires
        s.stream.wf(),
    ensures
        goes_on(s, s.text_part(t)),
        s.text_part(t).stream.wf(),
{
    reveal(StepV::text_part);
    let f = super::fed(s.stream.think, t);
    let a = StepV { stream: StreamV { think: f.think, ..s.stream }, ..s };
    thinking::law_search_in_order(s.stream.think, t);
    lemma_stays(s, a);
    let b = a.thoughts(f.reasoning, f.reasoning.len() as int);
    lemma_thoughts(a, f.reasoning, f.reasoning.len() as int);
    lemma_contents(b, f.content, f.content.len() as int);
    lemma_chain(s, a, b);
    lemma_chain(s, b, s.text_part(t));
}

proof fn lemma_delta(s: StepV, d: DeltaV)
    requires
        s.stream.wf(),
    ensures
        goes_on(s, s.delta(d)),
        s.delta(d).stream.wf(),
{
    reveal(StepV::delta);
    let a = match d.reasoning_content {
        Some(t) => if t.len() > 0 {
            s.reasoning_part(t)
        } else {
            s
        },
        None => s,
    };
    lemma_stays(s, s);
    if d.reasoning_content is Some {
        lemma_reasoning_part(s, d.reasoning_content->0);
    }
    let b = match d.content {
        Some(t) => if t.len() > 0 {
            a.text_part(t)
        } else {
            a
        },
        None => a,
    };
    lemma_stays(a, a);
    if d.content is Some {
        lemma_text_part(a, d.content->0);
    }
    lemma_chain(s, a, b);
    if let Some(calls) = d.tool_calls {
        let c = b.reasoning_closed();
        let e = c.text_closed();
        lemma_reasoning_closed(b);
        lemma_text_closed(c);
        lemma_call_parts(e, calls, calls.len() as int);
        lemma_chain(s, b, c);
        lemma_chain(s, c, e);
        lemma_chain(s, e, s.delta(d));
    }
}

proof fn lemma_flushed(s: StepV)
    requires
        s.stream.wf(),
    ensures
        goes_on(s, s.flushed()),
        s.flushed().stream.wf(),
{
    reveal(StepV::flushed);
    let t = s.stream.think;
    let a = StepV { stream: StreamV { think: super::flushed_think(t), ..s.stream }, ..s };
    thinking::law_search_in_order(t, Seq::empty());
    lemma_stays(s, a);
    lemma_reasoning_part(a, super::flushed_text(t));
    lemma_content_part(a, super::flushed_text(t));
    if super::flushed_text(t).len() > 0 {
        lemma_chain(s, a, s.flushed());
    }
}

proof fn lemma_ended(s: StepV, reason: Option<Seq<char>>)
    requires
        s.stream.wf(),
    ensures
        goes_on(s, s.ended(reason)),
        s.ended(reason).stream.wf(),
{
    reveal(StepV::ended);
    if super::conversion::is_finish(reason) {
        let a = StepV {
            stream: StreamV {
                session: SessionV { finish_reason: reason, ..s.stream.session },
                ..s.stream
            },
            ..s
        };
        lemma_stays(s, a);
        lemma_flushed(a);
        lemma_all_closed(a.flushed());
        lemma_chain(s, a, a.flushed());
        lemma_chain(s, a.flushed(), s.ended(reason));
    } else {
        lemma_stays(s, s);
    }
}

proof fn lemma_choices(s: StepV, choices: Seq<StreamChoiceV>, n: int)
    requires
        s.stream.wf(),
    ensures
        goes_on(s, s.choices(choices, n)),
        s.choices(choices, n).stream.wf(),
    decreases n,
{
    if n <= 0 {
        lemma_stays(s, s);
    } else {
        reveal(StepV::choice);
        lemma_choices(s, choices, n - 1);
        let a = s.choices(choices, n - 1);
        let c = choices[n - 1];
        let b = match c.delta {
            Some(d) => a.delta(d),
            None => a,
        };
        if c.delta is Some {
            lemma_delta(a, c.delta->0);
        } else {
            lemma_stays(a, b);
        }
        lemma_ended(b, c.finish_reason);
        lemma_chain(s, a, b);
        lemma_chain(s, b, s.choices(choices, n));
    }
}

proof fn lemma_started(s: StepV, c: ChunkV, random: Seq<char>, time: i64)
    requires
        s.stream.wf(),
        s.stream.session.first_chunk,
        s.stream.session.seq == 0,
    ensures
        ({
            let b = s.started(c, random, time);
            let n = s.events.len() as int;
            &&& follows(s, b)
            &&& b.stream.wf()
            &&& !b.stream.session.first_chunk
            &&& b.events.len() == n + 2
            &&& b.events[n].name == "response.created"@
            &&& b.events[n + 1].name == "response.in_progress"@
        }),
{
    let b = s.started(c, random, time);
    lemma_events();
    let id = b.stream.session.response_id;
    let created_at = b.stream.session.created_at;
    let response = super::conversion::started_response(id, created_at);
    let m = StepV {
        stream: StreamV {
            session: SessionV {
                seq: 0,
                response_id: id,
                created_at,
                first_chunk: false,
                ..s.stream.session
            },
            ..s.stream
        },
        ..s
    };
    assert(m.events.take(s.events.len() as int) =~= s.events);
    assert(follows(s, m));
    let created = JsonV::object().with(
        "response"@,
        response.with("background"@, JsonV::Bool(false)).with("error"@, JsonV::Null).with(
            "instructions"@,
            JsonV::Text(Seq::empty()),
        ),
    );
    let a = m.emit("response.created"@, created);
    lemma_emit_follows(m, a, "response.created"@, created);
    lemma_emit_follows(
        a,
        b,
        "response.in_progress"@,
        JsonV::object().with("response"@, response),
    );
    lemma_chain_follows(s, m, a);
    lemma_chain_follows(s, a, b);
}

/// A chunk after the first.
proof fn lemma_later_chunk(s: StepV, c: ChunkV, random: Seq<char>, time: i64)
    requires
        s.stream.wf(),
        !s.stream.session.first_chunk,
    ensures
        goes_on(s, s.chunk(c, random, time)),
        s.chunk(c, random, time).stream.wf(),
{
    let b = s.usage_counted(c.usage);
    lemma_stays(s, b);
    if let Some(choices) = c.choices {
        lemma_choices(b, choices, choices.len() as int);
        lemma_chain(s, b, s.chunk(c, random, time));
    }
}

proof fn lemma_first_chunk(s: StepV, c: ChunkV, random: Seq<char>, time: i64)
    requires
        s.stream.wf(),
        s.stream.session.first_chunk,
        s.stream.session.seq == 0,
    ensures
        ({
            let a = s.started(c, random, time);
            let b = s.chunk(c, random, time);
            &&& follows(s, b)
            &&& goes_on(a, b)
            &&& b.stream.wf()
        }),
{
    let a = s.started(c, random, time);
    let b = a.usage_counted(c.usage);
    lemma_started(s, c, random, time);
    lemma_stays(a, b);
    if let Some(choices) = c.choices {
        lemma_choices(b, choices, choices.len() as int);
        lemma_chain(a, b, s.chunk(c, random, time));
    }
    lemma_chain_follows(s, a, s.chunk(c, random, time));
}

proof fn lemma_completed(s: StepV, request: JsonV, inject: bool)
    requires
        s.stream.wf(),
    ensures
        goes_on(s, s.all_closed()),
        follows(s, s.completed(request, inject)),
        s.completed(request, inject).stream.wf(),
        s.completed(request, inject).events.drop_last() == s.all_closed().events,
        s.completed(request, inject).events.last().name == "response.completed"@,
        s.completed(request, inject).stream == (StreamV {
            session: s.completed(request, inject).stream.session,
            ..s.all_closed().stream
        }),
{
    reveal(StepV::completed);
    assert(s.synthesized() == s);
    let a = s.all_closed();
    let b = s.completed(request, inject);
    lemma_all_closed(s);
    lemma_events();
    let response = completion::completed_response(a.stream, request);
    lemma_emit_follows(
        a,
        b,
        "response.completed"@,
        JsonV::object().with(
            "response"@,
            if inject {
                completion::usage_injected(response, a.stream)
            } else {
                response
            },
        ),
    );
    lemma_chain_follows(s, a, b);
    assert(b.events.drop_last() =~= a.events);
}

/// The chunk that a line holds.
pub open spec fn line_chunk(line: Seq<char>) -> Option<ChunkV> {
    match text::behind(text::trimmed(line), "data:"@) {
        None => None,
        Some(rest) => if text::trimmed(rest) == "[DONE]"@ {
            None
        } else {
            match json::parsed_json(encode_utf8(text::trimmed(rest))) {
                None => None,
                Some(v) => types::chunk_of(v),
            }
        },
    }
}

/// The line announces the end of the stream.
pub open spec fn is_end_marker(line: Seq<char>) -> bool {
    text::behind(text::trimmed(line), "data:"@) matches Some(rest) && text::trimmed(rest)
        == "[DONE]"@
}

/// A line is a chunk, the end marker, or nothing at all.
pub proof fn law_lines(
    s: StepV,
    line: Seq<char>,
    request: JsonV,
    inject: bool,
    random: Seq<char>,
    time: i64,
)
    ensures
        s.line(line, request, inject, random, time) == (if is_end_marker(line) {
            s.completed(request, inject)
        } else {
            match line_chunk(line) {
                Some(c) => s.chunk(c, random, time),
                None => s,
            }
        }),
{
}

/// A line keeps a stream in order.
pub proof fn law_line_keeps_order(
    st: StreamV,
    line: Seq<char>,
    request: JsonV,
    inject: bool,
    random: Seq<char>,
    time: i64,
)
    requires
        st.wf(),
    ensures
        StepV::start(st).line(line, request, inject, random, time).stream.wf(),
{
    let s = StepV::start(st);
    law_lines(s, line, request, inject, random, time);
    lemma_completed(s, request, inject);
    if let Some(c) = line_chunk(line) {
        let b = s.started(c, random, time).usage_counted(c.usage);
        if let Some(choices) = c.choices {
            lemma_choices(b, choices, choices.len() as int);
        }
    }
}

/// A stream waits for its first chunk until a line holds a chunk.
pub proof fn law_first_chunk_comes_once(
    st: StreamV,
    line: Seq<char>,
    request: JsonV,
    inject: bool,
    random: Seq<char>,
    time: i64,
)
    requires
        st.wf(),
    ensures
        StepV::start(st).line(line, request, inject, random, time).stream.session.first_chunk == (
        st.session.first_chunk && line_chunk(line) is None),
{
    let s = StepV::start(st);
    law_lines(s, line, request, inject, random, time);
    if is_end_marker(line) {
        lemma_completed(s, request, inject);
        reveal(StepV::completed);
        assert(s.synthesized() == s);
    } else if let Some(c) = line_chunk(line) {
        let b = s.started(c, random, time).usage_counted(c.usage);
        if let Some(choices) = c.choices {
            lemma_choices(b, choices, choices.len() as int);
        }
    }
}

/// The chunk, where there is one, has an identifier and a time.
pub open spec fn is_named(c: Option<ChunkV>) -> bool {
    c matches Some(x) ==> x.id is Some && x.created is Some
}

/// The random text and the time that a line is converted with matter only where the first chunk
/// has no identifier or no time.
pub proof fn law_chance_matters_only_without_name(
    s: StepV,
    line: Seq<char>,
    request: JsonV,
    inject: bool,
    random: Seq<char>,
    time: i64,
    other_random: Seq<char>,
    other_time: i64,
)
    requires
        s.stream.session.first_chunk ==> is_named(line_chunk(line)),
    ensures
        s.line(line, request, inject, random, time) == s.line(
            line,
            request,
            inject,
            other_random,
            other_time,
        ),
{
}

/// A client that has followed a stream expects each of the events of a line and follows them:
/// event numbers and output indices run on without a gap, the pieces of a text make up the text
/// that ends it, and what the client has put together is what the stream holds. (A
/// stream that was completed before its first chunk is left out: it counts anew.)
pub proof fn law_client_follows(
    st: StreamV,
    line: Seq<char>,
    request: JsonV,
    inject: bool,
    random: Seq<char>,
    time: i64,
)
    requires
        st.wf(),
        st.session.first_chunk ==> st.session.seq == 0,
    ensures
        follows(
            StepV::start(st),
            StepV::start(st).line(line, request, inject, random, time),
        ),
{
    let s = StepV::start(st);
    law_lines(s, line, request, inject, random, time);
    lemma_stays(s, s);
    lemma_completed(s, request, inject);
    if let Some(c) = line_chunk(line) {
        if st.session.first_chunk {
            lemma_first_chunk(s, c, random, time);
        } else {
            lemma_later_chunk(s, c, random, time);
        }
    }
}

/// The end of a stream keeps the stream in order, and a client that has followed the stream
/// follows its events.
pub proof fn law_client_follows_completion(st: StreamV, request: JsonV, inject: bool)
    requires
        st.wf(),
    ensures
        follows(StepV::start(st), StepV::start(st).completed(request, inject)),
        StepV::start(st).completed(request, inject).stream.wf(),
{
    lemma_completed(StepV::start(st), request, inject);
}

/// A response is announced with the first chunk, by the first two events, and with no other line.
pub proof fn law_announced_once(
    st: StreamV,
    line: Seq<char>,
    request: JsonV,
    inject: bool,
    random: Seq<char>,
    time: i64,
)
    requires
        st.wf(),
        st.session.first_chunk ==> st.session.seq == 0,
    ensures
        ({
            let b = StepV::start(st).line(line, request, inject, random, time);
            if st.session.first_chunk && line_chunk(line) is Some {
                &&& !b.stream.session.first_chunk
                &&& b.events.len() >= 2
                &&& b.events[0].name == "response.created"@
                &&& b.events[1].name == "response.in_progress"@
                &&& inside(b.events, 2)
            } else {
                &&& b.stream.session.first_chunk == st.session.first_chunk
                &&& forall|i: int|
                    0 <= i < b.events.len() ==> (#[trigger] b.events[i]).name
                        != "response.created"@ && b.events[i].name != "response.in_progress"@
            }
        }),
{
    let s = StepV::start(st);
    let b = s.line(line, request, inject, random, time);
    law_lines(s, line, request, inject, random, time);
    lemma_events();
    if is_end_marker(line) {
        lemma_completed(s, request, inject);
        reveal(StepV::completed);
        assert forall|i: int| 0 <= i < b.events.len() implies (#[trigger] b.events[i]).name
            != "response.created"@ && b.events[i].name != "response.in_progress"@ by {
            if i < b.events.len() - 1 {
                assert(b.events.drop_last()[i] == b.events[i]);
            }
        }
    } else if let Some(c) = line_chunk(line) {
        if st.session.first_chunk {
            lemma_started(s, c, random, time);
            lemma_first_chunk(s, c, random, time);
            let a = s.started(c, random, time);
            assert(b.events.take(2)[0] == a.events[0]);
            assert(b.events.take(2)[1] == a.events[1]);
        } else {
            lemma_later_chunk(s, c, random, time);
        }
    }
}

/// A line other than the end marker does not complete the response.
pub proof fn law_only_the_end_completes(
    st: StreamV,
    line: Seq<char>,
    request: JsonV,
    inject: bool,
    random: Seq<char>,
    time: i64,
    i: int,
)
    requires
        st.wf(),
        st.session.first_chunk ==> st.session.seq == 0,
        !is_end_marker(line),
        0 <= i < StepV::start(st).line(line, request, inject, random, time).events.len(),
    ensures
        StepV::start(st).line(line, request, inject, random, time).events[i].name
            != "response.completed"@,
{
    law_announced_once(st, line, request, inject, random, time);
    lemma_events();
    let s = StepV::start(st);
    let b = s.line(line, request, inject, random, time);
    if let Some(c) = line_chunk(line) {
        if st.session.first_chunk {
        } else {
            lemma_later_chunk(s, c, random, time);
        }
    }
}

/// The response that the end of a stream reports.
pub open spec fn reported(st: StreamV, request: JsonV, inject: bool) -> JsonV {
    let response = completion::completed_response(st, request);
    if inject {
        completion::usage_injected(response, st)
    } else {
        response
    }
}

/// The end of a stream completes the response, by its last event and no other, and leaves nothing
/// open. The event reports what the stream has come to.
pub proof fn law_completion_comes_last(st: StreamV, request: JsonV, inject: bool)
    requires
        st.wf(),
    ensures
        ({
            let b = StepV::start(st).completed(request, inject);
            &&& b.events.len() > 0
            &&& b.events.last().name == "response.completed"@
            &&& inside(b.events.drop_last(), 0)
            &&& b.events.last().payload.get("response"@) == Some(
                reported(StepV::start(st).all_closed().stream, request, inject),
            )
            &&& !b.stream.reasoning.active
            &&& !b.stream.text.in_block
            &&& !b.stream.func.in_block
        }),
{
    let s = StepV::start(st);
    reveal(StepV::completed);
    lemma_completed(s, request, inject);
    lemma_all_closed(s);
    assert(s.synthesized() == s);
    reveal_strlit("response");
    reveal_strlit("type");
    reveal_strlit("sequence_number");
    assert("response"@.len() == 8);
    assert("type"@.len() == 4);
    assert("sequence_number"@.len() == 15);
}

proof fn lemma_received_seq(c: ClientV, events: Seq<EventV>, from: int, to: int)
    requires
        0 <= from <= to,
        c.seq + (to - from) <= i64::MAX,
    ensures
        c.received(events, from, to).seq == c.seq + (to - from),
    decreases to - from,
{
    if to > from {
        lemma_received_seq(c, events, from, to - 1);
    }
}

/// The events of a line carry the numbers that follow the last one, one by one, as long as there
/// are such numbers.
pub proof fn law_events_are_numbered(
    st: StreamV,
    line: Seq<char>,
    request: JsonV,
    inject: bool,
    random: Seq<char>,
    time: i64,
    i: int,
)
    requires
        st.wf(),
        st.session.first_chunk ==> st.session.seq == 0,
        0 <= i < StepV::start(st).line(line, request, inject, random, time).events.len(),
        st.session.seq + i + 1 <= i64::MAX,
    ensures
        ({
            let e = StepV::start(st).line(line, request, inject, random, time).events[i];
            &&& e.payload.get("sequence_number"@) == Some(JsonV::Int(st.session.seq + i + 1))
            &&& e.payload.get("type"@) == Some(JsonV::Text(e.name))
        }),
{
    law_client_follows(st, line, request, inject, random, time);
    let b = StepV::start(st).line(line, request, inject, random, time);
    let c = client_of(st);
    lemma_received_seq(c, b.events, 0, i);
    assert(c.received(b.events, 0, i).expects(b.events[i]));
}

// ---------------------------------------------------------------------------------------------
// The completed response
// ---------------------------------------------------------------------------------------------

proof fn lemma_members()
    ensures
        "status"@ != "usage"@,
        "status"@ != "output"@,
        "status"@ != "error"@,
        "status"@ != "background"@,
        "status"@ != "incomplete_details"@,
        "status"@ != "instructions"@,
        "status"@ != "model"@,
        "status"@ != "max_output_tokens"@,
        "status"@ != "parallel_tool_calls"@,
        "status"@ != "previous_response_id"@,
        "status"@ != "temperature"@,
        "status"@ != "tool_choice"@,
        "status"@ != "tools"@,
        "status"@ != "top_p"@,
        "status"@ != "reasoning"@,
        "status"@ != "metadata"@,
        "output"@ != "usage"@,
        "output_tokens"@ != "total_tokens"@,
        "output_tokens"@ != "input_tokens_details"@,
        "output_tokens"@ != "output_tokens_details"@,
        "output_tokens"@ != "cache_read_input_tokens"@,
        "incomplete"@ != "completed"@,
{
    reveal_strlit("status");
    reveal_strlit("usage");
    reveal_strlit("output");
    reveal_strlit("error");
    reveal_strlit("background");
    reveal_strlit("incomplete_details");
    reveal_strlit("instructions");
    reveal_strlit("model");
    reveal_strlit("max_output_tokens");
    reveal_strlit("parallel_tool_calls");
    reveal_strlit("previous_response_id");
    reveal_strlit("temperature");
    reveal_strlit("tool_choice");
    reveal_strlit("tools");
    reveal_strlit("top_p");
    reveal_strlit("reasoning");
    reveal_strlit("metadata");
    reveal_strlit("output_tokens");
    reveal_strlit("total_tokens");
    reveal_strlit("input_tokens_details");
    reveal_strlit("output_tokens_details");
    reveal_strlit("cache_read_input_tokens");
    reveal_strlit("incomplete");
    reveal_strlit("completed");
    assert("status"@.len() == 6 && "status"@[0] == 's');
    assert("output"@.len() == 6 && "output"@[0] == 'o');
    assert("usage"@.len() == 5);
    assert("error"@.len() == 5);
    assert("model"@.len() == 5);
    assert("tools"@.len() == 5);
    assert("top_p"@.len() == 5);
    assert("background"@.len() == 10);
    assert("incomplete_details"@.len() == 18);
    assert("instructions"@.len() == 12);
    assert("max_output_tokens"@.len() == 17);
    assert("parallel_tool_calls"@.len() == 19);
    assert("previous_response_id"@.len() == 20);
    assert("temperature"@.len() == 11);
    assert("tool_choice"@.len() == 11);
    assert("reasoning"@.len() == 9);
    assert("metadata"@.len() == 8);
    assert("output_tokens"@.len() == 13);
    assert("total_tokens"@.len() == 12);
    assert("input_tokens_details"@.len() == 20);
    assert("output_tokens_details"@.len() == 21);
    assert("cache_read_input_tokens"@.len() == 23);
    assert("incomplete"@.len() == 10);
    assert("completed"@.len() == 9);
}

/// A member does not change by setting another.
proof fn lemma_other_member(v: JsonV, key: Seq<char>, value: Option<JsonV>, other: Seq<char>)
    requires
        key != other,
    ensures
        v.with_some(key, value).get(other) == v.get(other),
{
}

/// What the request asked for does not hide the status.
proof fn lemma_echo(v: JsonV, request: JsonV)
    ensures
        completion::echoing(v, request).get("status"@) == v.get("status"@),
{
    lemma_members();
    let k = "status"@;
    let instructions = completion::text_value(request, "instructions"@);
    lemma_other_member(v, "instructions"@, instructions, k);
    let a = v.with_some("instructions"@, instructions);
    lemma_other_member(a, "model"@, request.get("model"@), k);
    let b = a.with_some("model"@, request.get("model"@));
    lemma_other_member(b, "max_output_tokens"@, request.get("max_output_tokens"@), k);
    let c = b.with_some("max_output_tokens"@, request.get("max_output_tokens"@));
    lemma_other_member(c, "parallel_tool_calls"@, request.get("parallel_tool_calls"@), k);
    let d = c.with_some("parallel_tool_calls"@, request.get("parallel_tool_calls"@));
    lemma_other_member(d, "previous_response_id"@, request.get("previous_response_id"@), k);
    let e = d.with_some("previous_response_id"@, request.get("previous_response_id"@));
    lemma_other_member(e, "temperature"@, request.get("temperature"@), k);
    let f = e.with_some("temperature"@, request.get("temperature"@));
    lemma_other_member(f, "tool_choice"@, request.get("tool_choice"@), k);
    let g = f.with_some("tool_choice"@, request.get("tool_choice"@));
    lemma_other_member(g, "tools"@, request.get("tools"@), k);
    let h = g.with_some("tools"@, request.get("tools"@));
    lemma_other_member(h, "top_p"@, request.get("top_p"@), k);
    let i = h.with_some("top_p"@, request.get("top_p"@));
    lemma_other_member(i, "reasoning"@, request.get("reasoning"@), k);
    let j = i.with_some("reasoning"@, request.get("reasoning"@));
    lemma_other_member(j, "metadata"@, request.get("metadata"@), k);
}

/// What a response begins with, before what the request asked for.
spec fn response_head(st: StreamV) -> JsonV {
    JsonV::object().with("id"@, JsonV::Text(st.session.response_id)).with(
        "object"@,
        JsonV::Text("response"@),
    ).with("created_at"@, JsonV::Int(st.session.created_at as int)).with(
        "status"@,
        JsonV::Text(
            if completion::cut_short(st) {
                "incomplete"@
            } else {
                "completed"@
            },
        ),
    ).with("background"@, JsonV::Bool(false)).with("error"@, JsonV::Null).with_some(
        "incomplete_details"@,
        if completion::cut_short(st) {
            Some(JsonV::object().with("reason"@, JsonV::Text("max_output_tokens"@)))
        } else {
            None
        },
    )
}

/// A response is reported as incomplete if and only if the choice ended because the output was as
/// long as allowed.
pub proof fn law_incomplete_if_cut_short(st: StreamV, request: JsonV)
    ensures
        completion::completed_response(st, request).text_at("status"@) == Some("incomplete"@)
            <==> st.session.finish_reason == Some("length"@),
        completion::completed_response(st, request).text_at("status"@) == Some("completed"@)
            <==> st.session.finish_reason != Some("length"@),
{
    lemma_members();
    let head = response_head(st);
    let echoed = completion::echoing(head, request);
    lemma_echo(head, request);
    let output = if completion::output_items(st).len() > 0 {
        Some(JsonV::Array(completion::output_items(st)))
    } else {
        None
    };
    lemma_other_member(echoed, "output"@, output, "status"@);
    lemma_other_member(
        echoed.with_some("output"@, output),
        "usage"@,
        Some(completion::usage_json(st)),
        "status"@,
    );
    assert(completion::completed_response(st, request) == echoed.with_some(
        "output"@,
        output,
    ).with("usage"@, completion::usage_json(st)));
}

/// The response reports the output items and the usage of the stream, whatever was asked for.
pub proof fn law_response_reports_stream(st: StreamV, request: JsonV)
    ensures
        completion::completed_response(st, request).get("usage"@) == Some(
            completion::usage_json(st),
        ),
        completion::output_items(st).len() > 0 ==> completion::completed_response(
            st,
            request,
        ).get("output"@) == Some(JsonV::Array(completion::output_items(st))),
{
    lemma_members();
}

/// With estimates in place, a response reports at least one output token, and what the upstream
/// API reported where it did.
pub proof fn law_injected_usage_counts_output(st: StreamV, request: JsonV)
    requires
        completion::estimated_output(st) <= i64::MAX,
    ensures
        ({
            let response = completion::usage_injected(
                completion::completed_response(st, request),
                st,
            );
            &&& response.get("usage"@) matches Some(usage)
            &&& usage.get("output_tokens"@) matches Some(JsonV::Int(n))
            &&& n >= 1
            &&& st.usage.output > 0 ==> n == st.usage.output
        }),
{
    lemma_members();
    law_response_reports_stream(st, request);
}

/// Where a cache took part, or no total was reported, the total is the sum of the parts: no token
/// is counted twice or left out.
pub proof fn law_total_adds_up(u: super::Counts)
    requires
        0 <= u.cached <= u.input,
        0 <= u.output,
        u.input + u.output <= i64::MAX,
        u.total == 0 || u.cached > 0,
    ensures
        completion::total_tokens(u) == u.input + u.output,
        completion::actual_input(u) + u.cached == u.input,
{
}

// ---------------------------------------------------------------------------------------------
// Function calls
// ---------------------------------------------------------------------------------------------

/// The arguments that were gathered for the call of that index.
pub open spec fn gathered_args(calls: Seq<CallV>, index: i64) -> Seq<char> {
    let k = handlers::slot(calls, index);
    if k < calls.len() && calls[k].index == index {
        calls[k].args
    } else {
        Seq::empty()
    }
}

/// A piece of arguments is given out as it came, for an output item that was announced, and the
/// call holds all the pieces so far.
pub proof fn law_arguments_come_in_pieces(s: StepV, d: ToolCallDeltaV, args: Seq<char>)
    requires
        s.stream.wf(),
        d.arguments == Some(args),
        args.len() > 0,
    ensures
        ({
            let b = s.call_part(d);
            let k = handlers::slot(b.stream.func.calls, d.index);
            let c = b.stream.func.calls[k];
            let e = b.events.last();
            &&& 0 <= k < b.stream.func.calls.len()
            &&& c.index == d.index
            &&& c.args == gathered_args(s.stream.func.calls, d.index) + args
            &&& c.output_index is Some
            &&& b.events.len() > s.events.len()
            &&& e.name == "response.function_call_arguments.delta"@
            &&& e.payload.text_at("delta"@) == Some(args)
            &&& e.payload.get("output_index"@) == Some(JsonV::Int(c.output_index->0 as int))
        }),
{
    lemma_call_entered(s, d);
    lemma_names();
    reveal_strlit("item_id");
    reveal_strlit("delta");
    reveal_strlit("output_index");
    assert("item_id"@.len() == 7);
    assert("delta"@.len() == 5);
    assert("output_index"@.len() == 12);
    let calls = handlers::with_call(s.stream.func.calls, d.index);
    handlers::lemma_with_call(s.stream.func.calls, d.index);
    handlers::lemma_slot(s.stream.func.calls, d.index, 0);
    let a = s.call_entered(d);
    let k = handlers::slot(calls, d.index);
    handlers::lemma_same_slot(calls, a.stream.func.calls, d.index, 0);
    let b = s.call_part(d);
    handlers::lemma_same_slot(a.stream.func.calls, b.stream.func.calls, d.index, 0);
    assert(calls[k].args == gathered_args(s.stream.func.calls, d.index));
}

proof fn lemma_call_closed_events(s: StepV, c: CallV, reasoning: Option<Seq<char>>)
    requires
        c.output_index is Some,
    ensures
        ({
            let b = s.call_closed(c, reasoning);
            let n = s.events.len() as int;
            &&& b.events.len() == n + 2
            &&& b.events.take(n) == s.events
            &&& b.events[n].name == "response.function_call_arguments.done"@
            &&& b.events[n].payload.text_at("arguments"@) == Some(c.args)
            &&& b.events[n].payload.get("output_index"@) == Some(
                JsonV::Int(c.output_index->0 as int),
            )
        }),
{
    lemma_names();
    reveal_strlit("arguments");
    reveal_strlit("output_index");
    reveal_strlit("type");
    reveal_strlit("sequence_number");
    assert("arguments"@.len() == 9);
    assert("output_index"@.len() == 12);
    assert("type"@.len() == 4);
    assert("sequence_number"@.len() == 15);
    let b = s.call_closed(c, reasoning);
    assert(b.events.take(s.events.len() as int) =~= s.events);
}

/// An event that ends the arguments of that call.
pub open spec fn ends_arguments(e: EventV, c: CallV) -> bool {
    &&& e.name == "response.function_call_arguments.done"@
    &&& e.payload.text_at("arguments"@) == Some(c.args)
    &&& e.payload.get("output_index"@) == Some(JsonV::Int(c.output_index->0 as int))
}

proof fn lemma_calls_closed_events(
    s: StepV,
    calls: Seq<CallV>,
    reasoning: Option<Seq<char>>,
    n: int,
    k: int,
) -> (x: int)
    requires
        0 <= k < n <= calls.len(),
        calls[k].output_index is Some,
    ensures
        s.events.len() <= x < s.calls_closed(calls, reasoning, n).events.len(),
        ends_arguments(s.calls_closed(calls, reasoning, n).events[x], calls[k]),
    decreases n,
{
    let a = s.calls_closed(calls, reasoning, n - 1);
    let b = s.calls_closed(calls, reasoning, n);
    lemma_calls_closed_grow(s, calls, reasoning, n - 1);
    if k == n - 1 {
        lemma_call_closed_events(a, calls[k], reasoning);
        a.events.len() as int
    } else {
        let x = lemma_calls_closed_events(s, calls, reasoning, n - 1, k);
        if calls[n - 1].output_index is Some {
            lemma_call_closed_events(a, calls[n - 1], reasoning);
            assert(b.events.take(a.events.len() as int)[x] == a.events[x]);
        }
        x
    }
}

proof fn lemma_calls_closed_grow(
    s: StepV,
    calls: Seq<CallV>,
    reasoning: Option<Seq<char>>,
    n: int,
)
    ensures
        s.calls_closed(calls, reasoning, n).events.len() >= s.events.len(),
    decreases n,
{
    if n > 0 {
        lemma_calls_closed_grow(s, calls, reasoning, n - 1);
    }
}

/// When the function calls are closed, the arguments of each announced call are given out whole.
pub proof fn law_closed_calls_repeat_arguments(s: StepV, k: int)
    requires
        0 <= k < s.stream.func.calls.len(),
        s.stream.func.calls[k].output_index is Some,
    ensures
        exists|x: int|
            s.events.len() <= x < s.funcs_closed().events.len() && ends_arguments(
                #[trigger] s.funcs_closed().events[x],
                s.stream.func.calls[k],
            ),
{
    let calls = s.stream.func.calls;
    let taken = StepV {
        stream: StreamV {
            reasoning: ReasoningV { for_func_calls: None, ..s.stream.reasoning },
            ..s.stream
        },
        ..s
    };
    let x = lemma_calls_closed_events(
        taken,
        calls,
        s.stream.reasoning.for_func_calls,
        calls.len() as int,
        k,
    );
    assert(ends_arguments(s.funcs_closed().events[x], calls[k]));
}

// ---------------------------------------------------------------------------------------------
// The wire
// ---------------------------------------------------------------------------------------------

/// An event whose payload stands on one line is told apart from what stands around it: its text is
/// a line with the name, a line with the payload, and an empty line.
pub proof fn law_events_stand_alone(name: Seq<char>, payload: Seq<char>)
    requires
        json::one_line(name),
        json::one_line(payload),
    ensures
        text::lines(super::sse_text(name, payload)) == seq![
            "event: "@ + name,
            "data: "@ + payload,
            Seq::empty(),
        ],
{
    let s = super::sse_text(name, payload);
    let nl = seq!['\n'];
    reveal_strlit("event: ");
    reveal_strlit("\ndata: ");
    reveal_strlit("\n\n");
    reveal_strlit("data: ");
    let first = "event: "@ + name;
    let second = "data: "@ + payload;
    let p = first.len() as int;
    let q = p + 1 + second.len();
    assert(s =~= first + nl + second + nl + nl);
    assert(first =~= s.subrange(0, p));
    assert(second =~= s.subrange(p + 1, q));
    lemma_line_ends(s, 0, p);
    lemma_line_ends(s, p + 1, q);
    lemma_line_ends(s, q + 1, q + 1);
    assert(s.subrange(q + 1, q + 1) =~= Seq::empty());
    assert(text::lines_from(s, q + 2) =~= Seq::empty());
    assert(text::lines(s) =~= seq![first] + (seq![second] + (seq![Seq::<char>::empty()]
        + Seq::<Seq<char>>::empty())));
}

/// The line that ends with the first end of a line.
proof fn lemma_line_ends(s: Seq<char>, i: int, p: int)
    requires
        0 <= i <= p < s.len(),
        s[p] == '\n',
        forall|k: int| i <= k < p ==> #[trigger] s[k] != '\n' && s[k] != '\r',
    ensures
        text::lines_from(s, i) == seq![s.subrange(i, p)] + text::lines_from(s, p + 1),
{
    let nl = seq!['\n'];
    text::lemma_found_from(s, nl, i);
    assert(s.subrange(p, p + 1) =~= nl);
    assert(text::occurs_at(s, nl, p));
    if let Some(x) = text::found_from(s, nl, i) {
        assert(s.subrange(x, x + 1)[0] == '\n');
        assert(s[x] == '\n');
    }
    let line = s.subrange(i, p);
    if line.len() > 0 {
        assert(line.last() == s[p - 1]);
    }
    assert(text::chomped(line) == line);
}

} // verus!

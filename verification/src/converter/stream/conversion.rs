//! The chunks of a stream, line by line.

use vstd::prelude::*;
use vstd::string::*;
use vstd::utf8::*;

use super::completion;
use super::completion::{close_all, generate_completed_events, keep_all};
use super::handlers::{
    close_reasoning_block, close_text_block, handle_content_part, handle_reasoning_part,
    handle_tool_call_part,
};
use super::{Counts, Outbox, SessionV, StepV, StreamState, StreamV};
use crate::converter::{Entries, ReasoningStore};
use crate::json;
use crate::json::{Json, JsonV};
use crate::text;
use crate::text::{same, strip_prefix, trim};
use crate::types;
use crate::types::{ChatStreamChunk, Delta, StreamChoice, Usage};
use crate::types::{ChunkV, DeltaV, StreamChoiceV, ToolCallDeltaV};

verus! {

/// A digit of a number in base sixteen, in lower case.
pub open spec fn is_hex_digit(c: char) -> bool {
    '0' <= c <= '9' || 'a' <= c <= 'f'
}

/// A text of the form that random identifiers have.
pub open spec fn is_random_id(s: Seq<char>) -> bool {
    s.len() == 32 && forall|i: int| 0 <= i < s.len() ==> is_hex_digit(#[trigger] s[i])
}

/// `Uuid::new_v4`, printed by `Uuid::simple`: 32 digits of base sixteen, in lower case. Nothing is
/// claimed of which they are.
#[verifier::external_body]
pub(crate) fn random_id() -> (r: String)
    ensures
        is_random_id(r@),
{
    uuid::Uuid::new_v4().simple().to_string()
}

/// `Utc::now`, as seconds by `DateTime::timestamp`. Nothing is claimed of the clock.
#[verifier::external_body]
pub(crate) fn unix_time() -> (secs: i64) {
    chrono::Utc::now().timestamp()
}

// ---------------------------------------------------------------------------------------------
// The steps of a stream
// ---------------------------------------------------------------------------------------------

/// The number, where there is one, in place of the old one.
pub open spec fn updated(old_count: i64, n: Option<i64>) -> i64 {
    match n {
        Some(i) => i,
        None => old_count,
    }
}

/// The token counts after a report.
pub open spec fn counted(c: Counts, usage: Option<Usage>) -> Counts {
    match usage {
        Some(u) => Counts {
            seen: true,
            input: updated(c.input, u.prompt_tokens),
            output: updated(c.output, u.completion_tokens),
            total: updated(c.total, u.total_tokens),
            cached: updated(c.cached, u.cached_tokens),
            reasoning: updated(c.reasoning, u.reasoning_tokens),
        },
        None => c,
    }
}

/// A response in progress.
pub open spec fn started_response(id: Seq<char>, created_at: i64) -> JsonV {
    JsonV::object().with("id"@, JsonV::Text(id)).with("object"@, JsonV::Text("response"@)).with(
        "created_at"@,
        JsonV::Int(created_at as int),
    ).with("status"@, JsonV::Text("in_progress"@))
}

/// Whether the choice has ended.
pub open spec fn is_finish(reason: Option<Seq<char>>) -> bool {
    reason matches Some(r) && r.len() > 0 && r != "null"@
}

impl StepV {
    /// The step after the first chunk was seen. Where the chunk has no identifier or time, they
    /// are made from `random` and `time`.
    pub open spec fn started(self, c: ChunkV, random: Seq<char>, time: i64) -> StepV {
        if !self.stream.session.first_chunk {
            self
        } else {
            let id = text::or_text(c.id, "resp_"@ + random);
            let created_at = updated(time, c.created);
            let response = started_response(id, created_at);
            StepV {
                stream: StreamV {
                    session: SessionV {
                        seq: 0,
                        response_id: id,
                        created_at,
                        first_chunk: false,
                        ..self.stream.session
                    },
                    ..self.stream
                },
                ..self
            }.emit(
                "response.created"@,
                JsonV::object().with(
                    "response"@,
                    response.with("background"@, JsonV::Bool(false)).with(
                        "error"@,
                        JsonV::Null,
                    ).with("instructions"@, JsonV::Text(Seq::empty())),
                ),
            ).emit("response.in_progress"@, JsonV::object().with("response"@, response))
        }
    }

    /// The step after a report of token counts.
    pub open spec fn usage_counted(self, usage: Option<Usage>) -> StepV {
        StepV {
            stream: StreamV { usage: counted(self.stream.usage, usage), ..self.stream },
            ..self
        }
    }

    /// The step after the first `n` pieces of reasoning out of a thinking section.
    pub open spec fn thoughts(self, parts: Seq<Seq<char>>, n: int) -> StepV
        decreases n,
    {
        if n <= 0 {
            self
        } else {
            self.thoughts(parts, n - 1).reasoning_closed().reasoning_part(parts[n - 1])
        }
    }

    /// The step after the first `n` pieces of content.
    pub open spec fn contents(self, parts: Seq<Seq<char>>, n: int) -> StepV
        decreases n,
    {
        if n <= 0 {
            self
        } else {
            self.contents(parts, n - 1).reasoning_closed().content_part(parts[n - 1])
        }
    }

    /// The step after a piece of text, in which there may be a thinking section.
    #[verifier::opaque]
    pub open spec fn text_part(self, s: Seq<char>) -> StepV {
        let f = super::fed(self.stream.think, s);
        StepV { stream: StreamV { think: f.think, ..self.stream }, ..self }.thoughts(
            f.reasoning,
            f.reasoning.len() as int,
        ).contents(f.content, f.content.len() as int)
    }

    /// The step after the first `n` pieces of function calls.
    pub open spec fn call_parts(self, calls: Seq<ToolCallDeltaV>, n: int) -> StepV
        decreases n,
    {
        if n <= 0 {
            self
        } else {
            self.call_parts(calls, n - 1).call_part(calls[n - 1])
        }
    }

    /// The step after a piece of a choice.
    #[verifier::opaque]
    pub open spec fn delta(self, d: DeltaV) -> StepV {
        let a = match d.reasoning_content {
            Some(s) => if s.len() > 0 {
                self.reasoning_part(s)
            } else {
                self
            },
            None => self,
        };
        let b = match d.content {
            Some(s) => if s.len() > 0 {
                a.text_part(s)
            } else {
                a
            },
            None => a,
        };
        match d.tool_calls {
            Some(calls) => b.reasoning_closed().text_closed().call_parts(
                calls,
                calls.len() as int,
            ),
            None => b,
        }
    }

    /// The step after the text that was held back was given out.
    #[verifier::opaque]
    pub open spec fn flushed(self) -> StepV {
        let t = self.stream.think;
        let s = StepV {
            stream: StreamV { think: super::flushed_think(t), ..self.stream },
            ..self
        };
        if super::flushed_text(t).len() == 0 {
            s
        } else if super::flushed_is_reasoning(t) {
            s.reasoning_part(super::flushed_text(t))
        } else {
            s.content_part(super::flushed_text(t))
        }
    }

    /// The step after the end of a choice.
    #[verifier::opaque]
    pub open spec fn ended(self, reason: Option<Seq<char>>) -> StepV {
        if is_finish(reason) {
            StepV {
                stream: StreamV {
                    session: SessionV { finish_reason: reason, ..self.stream.session },
                    ..self.stream
                },
                ..self
            }.flushed().all_closed()
        } else {
            self
        }
    }

    /// The step after a choice.
    #[verifier::opaque]
    pub open spec fn choice(self, c: StreamChoiceV) -> StepV {
        match c.delta {
            Some(d) => self.delta(d),
            None => self,
        }.ended(c.finish_reason)
    }

    /// The step after the first `n` choices.
    pub open spec fn choices(self, choices: Seq<StreamChoiceV>, n: int) -> StepV
        decreases n,
    {
        if n <= 0 {
            self
        } else {
            self.choices(choices, n - 1).choice(choices[n - 1])
        }
    }

    /// The step after a chunk.
    pub open spec fn chunk(self, c: ChunkV, random: Seq<char>, time: i64) -> StepV {
        let s = self.started(c, random, time).usage_counted(c.usage);
        match c.choices {
            Some(choices) => s.choices(choices, choices.len() as int),
            None => s,
        }
    }

    /// The step after a line of the upstream API. With `inject`, estimates take the place of token
    /// counts that were not reported.
    pub open spec fn line(
        self,
        line: Seq<char>,
        request: JsonV,
        inject: bool,
        random: Seq<char>,
        time: i64,
    ) -> StepV {
        match text::behind(text::trimmed(line), "data:"@) {
            None => self,
            Some(rest) => {
                let data = text::trimmed(rest);
                if data == "[DONE]"@ {
                    self.completed(request, inject)
                } else {
                    match json::parsed_json(encode_utf8(data)) {
                        None => self,
                        Some(v) => match types::chunk_of(v) {
                            None => self,
                            Some(c) => self.chunk(c, random, time),
                        },
                    }
                }
            },
        }
    }
}

// ---------------------------------------------------------------------------------------------
// The conversion
// ---------------------------------------------------------------------------------------------

fn make_started_response(st: &StreamState) -> (r: Json)
    ensures
        r@ == started_response(st@.session.response_id, st@.session.created_at),
{
    Json::object().with("id", Json::text(st.session.response_id.as_str())).with(
        "object",
        Json::text("response"),
    ).with("created_at", Json::Int(st.session.created_at)).with(
        "status",
        Json::text("in_progress"),
    )
}

/// Announces the response, with the first chunk.
fn start(st: &mut StreamState, out: &mut Outbox, c: &ChatStreamChunk, random: &str, time: i64)
    requires
        old(out).wf(),
    ensures
        final(out).wf(),
        super::step_of(*final(st), *final(out)) == super::step_of(*old(st), *old(out)).started(
            c@,
            random@,
            time,
        ),
{
    if !st.session.first_chunk {
        return;
    }
    st.session.first_chunk = false;
    st.session.response_id = match &c.id {
        Some(id) => id.clone(),
        None => {
            let mut id = String::new();
            id.append("resp_");
            id.append(random);
            assert(id@ =~= "resp_"@ + random@);
            id
        },
    };
    st.session.created_at = match c.created {
        Some(t) => t,
        None => time,
    };
    st.session.seq = 0;
    proof {
        reveal_strlit("");
        assert(""@ =~= Seq::empty());
    }
    let created = make_started_response(st).with("background", Json::Bool(false)).with(
        "error",
        Json::Null,
    ).with("instructions", Json::text(""));
    st.emit(out, "response.created", Json::object().with("response", created));
    let in_progress = make_started_response(st);
    st.emit(out, "response.in_progress", Json::object().with("response", in_progress));
}

fn update(count: &mut i64, n: Option<i64>)
    ensures
        *final(count) == updated(*old(count), n),
{
    if let Some(i) = n {
        *count = i;
    }
}

/// Takes in a report of token counts.
fn count_usage(c: &mut Counts, usage: &Option<Usage>)
    ensures
        *final(c) == counted(*old(c), *usage),
{
    if let Some(u) = usage {
        c.seen = true;
        update(&mut c.input, u.prompt_tokens);
        update(&mut c.output, u.completion_tokens);
        update(&mut c.total, u.total_tokens);
        update(&mut c.cached, u.cached_tokens);
        update(&mut c.reasoning, u.reasoning_tokens);
    }
}

/// Takes in a piece of text, in which there may be a thinking section.
fn handle_text(st: &mut StreamState, out: &mut Outbox, s: &str)
    requires
        old(out).wf(),
    ensures
        final(out).wf(),
        super::step_of(*final(st), *final(out)) == super::step_of(*old(st), *old(out)).text_part(
            s@,
        ),
{
    proof {
        reveal(StepV::text_part);
    }
    let ghost f = super::fed(st@.think, s@);
    let (reasoning_parts, content_parts) = st.feed_think_tag(s);
    let ghost fed = super::step_of(*st, *out);
    let mut i: usize = 0;
    while i < reasoning_parts.len()
        invariant
            i <= reasoning_parts@.len(),
            out.wf(),
            text::strings(reasoning_parts@) == f.reasoning,
            super::step_of(*st, *out) == fed.thoughts(f.reasoning, i as int),
        decreases reasoning_parts@.len() - i,
    {
        close_reasoning_block(st, out);
        handle_reasoning_part(st, out, reasoning_parts[i].as_str());
        assert(f.reasoning[i as int] == reasoning_parts@[i as int]@);
        i += 1;
    }
    let ghost thought = super::step_of(*st, *out);
    let mut j: usize = 0;
    while j < content_parts.len()
        invariant
            j <= content_parts@.len(),
            out.wf(),
            text::strings(content_parts@) == f.content,
            super::step_of(*st, *out) == thought.contents(f.content, j as int),
        decreases content_parts@.len() - j,
    {
        close_reasoning_block(st, out);
        handle_content_part(st, out, content_parts[j].as_str());
        assert(f.content[j as int] == content_parts@[j as int]@);
        j += 1;
    }
}

/// Takes in a piece of a choice.
fn handle_delta(st: &mut StreamState, out: &mut Outbox, d: &Delta)
    requires
        old(out).wf(),
    ensures
        final(out).wf(),
        super::step_of(*final(st), *final(out)) == super::step_of(*old(st), *old(out)).delta(d@),
{
    proof {
        reveal(StepV::delta);
    }
    if let Some(reasoning) = &d.reasoning_content {
        if !reasoning.as_str().is_empty() {
            handle_reasoning_part(st, out, reasoning.as_str());
        }
    }
    if let Some(content) = &d.content {
        if !content.as_str().is_empty() {
            handle_text(st, out, content.as_str());
        }
    }
    if let Some(calls) = &d.tool_calls {
        let ghost all = types::tool_deltas(calls@);
        close_reasoning_block(st, out);
        close_text_block(st, out);
        let ghost closed = super::step_of(*st, *out);
        let mut i: usize = 0;
        while i < calls.len()
            invariant
                i <= calls@.len(),
                out.wf(),
                all == types::tool_deltas(calls@),
                super::step_of(*st, *out) == closed.call_parts(all, i as int),
            decreases calls@.len() - i,
        {
            handle_tool_call_part(st, out, &calls[i]);
            assert(all[i as int] == calls@[i as int]@);
            i += 1;
        }
    }
}

/// Gives out the text that is held back.
fn flush_text(st: &mut StreamState, out: &mut Outbox)
    requires
        old(out).wf(),
    ensures
        final(out).wf(),
        super::step_of(*final(st), *final(out)) == super::step_of(*old(st), *old(out)).flushed(),
{
    proof {
        reveal(StepV::flushed);
    }
    let (remaining, is_reasoning) = st.flush_think_buf();
    if !remaining.as_str().is_empty() {
        if is_reasoning {
            handle_reasoning_part(st, out, remaining.as_str());
        } else {
            handle_content_part(st, out, remaining.as_str());
        }
    }
}

/// Ends a choice.
fn finish(st: &mut StreamState, out: &mut Outbox, reason: &Option<String>)
    requires
        old(out).wf(),
    ensures
        final(out).wf(),
        super::step_of(*final(st), *final(out)) == super::step_of(*old(st), *old(out)).ended(
            text::maybe(*reason),
        ),
{
    proof {
        reveal(StepV::ended);
    }
    if let Some(r) = reason {
        if !same(r.as_str(), "null") && !r.as_str().is_empty() {
            st.session.finish_reason = Some(r.clone());
            flush_text(st, out);
            close_all(st, out);
        }
    }
}

/// Takes in a choice.
fn handle_choice(st: &mut StreamState, out: &mut Outbox, c: &StreamChoice)
    requires
        old(out).wf(),
    ensures
        final(out).wf(),
        super::step_of(*final(st), *final(out)) == super::step_of(*old(st), *old(out)).choice(c@),
{
    proof {
        reveal(StepV::choice);
    }
    if let Some(d) = &c.delta {
        handle_delta(st, out, d);
    }
    finish(st, out, &c.finish_reason);
}

/// Takes in a chunk.
fn handle_chunk(
    st: &mut StreamState,
    out: &mut Outbox,
    c: &ChatStreamChunk,
    random: &str,
    time: i64,
)
    requires
        old(out).wf(),
    ensures
        final(out).wf(),
        super::step_of(*final(st), *final(out)) == super::step_of(*old(st), *old(out)).chunk(
            c@,
            random@,
            time,
        ),
{
    start(st, out, c, random, time);
    count_usage(&mut st.usage, &c.usage);
    if let Some(choices) = &c.choices {
        let ghost all = types::choice_views(choices@);
        let ghost counted = super::step_of(*st, *out);
        let mut i: usize = 0;
        while i < choices.len()
            invariant
                i <= choices@.len(),
                out.wf(),
                all == types::choice_views(choices@),
                super::step_of(*st, *out) == counted.choices(all, i as int),
            decreases choices@.len() - i,
        {
            handle_choice(st, out, &choices[i]);
            assert(all[i as int] == choices@[i as int]@);
            i += 1;
        }
    }
}

/// What a chunk comes to: the stream and the store after it, and the events for the client. Where
/// the first chunk has no identifier or time, they are made from `random` and `time`; `now` is the
/// time for the store.
pub open spec fn converts_chunk(
    before: (StreamV, Entries),
    chunk: ChunkV,
    random: Seq<char>,
    time: i64,
    now: u128,
    after: (StreamV, Entries),
    events: Seq<Seq<char>>,
) -> bool {
    let step = StepV::start(before.0).chunk(chunk, random, time);
    &&& after.0 == step.stream
    &&& after.1 == completion::kept(before.1, step.saves, now)
    &&& events == super::wire(step.events)
    &&& super::on_one_line(step.events)
}

/// Converts a chunk to the events for the client. Where the first chunk has no identifier or time,
/// they are made from `random` and `time`. The reasoning texts of function calls go to the store,
/// at the time `now`.
pub fn convert_chunk_at(
    chunk: &ChatStreamChunk,
    state: &mut StreamState,
    store: &mut ReasoningStore,
    random: &str,
    time: i64,
    now: u128,
) -> (r: Vec<String>)
    ensures
        converts_chunk(
            (old(state)@, old(store)@),
            chunk@,
            random@,
            time,
            now,
            (final(state)@, final(store)@),
            text::strings(r@),
        ),
{
    let mut out = Outbox::new();
    handle_chunk(state, &mut out, chunk, random, time);
    keep_all(store, &out.saves, now);
    out.texts
}

/// What a line comes to: the stream and the store after it, and the events for the client. Where
/// the first chunk has no identifier or time, they are made from `random` and `time`; `now` is the
/// time for the store.
pub open spec fn converts_line(
    before: (StreamV, Entries),
    line: Seq<char>,
    request: JsonV,
    inject: bool,
    random: Seq<char>,
    time: i64,
    now: u128,
    after: (StreamV, Entries),
    events: Seq<Seq<char>>,
) -> bool {
    let step = StepV::start(before.0).line(line, request, inject, random, time);
    &&& after.0 == step.stream
    &&& after.1 == completion::kept(before.1, step.saves, now)
    &&& events == super::wire(step.events)
    &&& super::on_one_line(step.events)
}

/// Converts a line of the upstream API to the events for the client. Where the first chunk has no
/// identifier or time, they are made from `random` and `time`. With `inject`, estimates take the
/// place of token counts that were not reported. The reasoning texts of function calls go to the
/// store, at the time `now`.
pub fn convert_chat_stream_line_at(
    line: &str,
    state: &mut StreamState,
    original_request: &Json,
    store: &mut ReasoningStore,
    inject: bool,
    random: &str,
    time: i64,
    now: u128,
) -> (r: Vec<String>)
    ensures
        converts_line(
            (old(state)@, old(store)@),
            line@,
            original_request@,
            inject,
            random@,
            time,
            now,
            (final(state)@, final(store)@),
            text::strings(r@),
        ),
{
    let mut out = Outbox::new();
    if let Some(rest) = strip_prefix(trim(line).as_str(), "data:") {
        let data = trim(rest.as_str());
        if same(data.as_str(), "[DONE]") {
            generate_completed_events(state, &mut out, original_request, inject);
        } else if let Ok(v) = Json::parse(data.as_str().as_bytes()) {
            if let Some(chunk) = ChatStreamChunk::from_json(&v) {
                return convert_chunk_at(&chunk, state, store, random, time, now);
            }
        }
    }
    keep_all(store, &out.saves, now);
    out.texts
}

/// Converts a line of the upstream API to the events for the client. Where the first chunk has no
/// identifier or time, a random identifier and the time of the call take their place. The
/// reasoning texts of function calls go to the store, at the time of the call.
pub fn convert_chat_stream_line(
    line: &str,
    state: &mut StreamState,
    original_request: &Json,
    store: &mut ReasoningStore,
) -> (r: Vec<String>)
    ensures
        exists|random: Seq<char>, time: i64, now: u128|
            #[trigger] converts_line(
                (old(state)@, old(store)@),
                line@,
                original_request@,
                false,
                random,
                time,
                now,
                (final(state)@, final(store)@),
                text::strings(r@),
            ) && (old(state)@.session.first_chunk ==> is_random_id(random)),
{
    let first = state.session.first_chunk;
    let random = if first {
        random_id()
    } else {
        String::new()
    };
    let time: i64 = if first {
        unix_time()
    } else {
        0
    };
    let now: u128 = store.now();
    convert_chat_stream_line_at(
        line,
        state,
        original_request,
        store,
        false,
        random.as_str(),
        time,
        now,
    )
}

} // verus!

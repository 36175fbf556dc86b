//! Streams: from the chunks of a chat completion to the events of a response.

use vstd::prelude::*;
use vstd::string::*;

use crate::json;
use crate::json::{Json, JsonV};
use crate::text;
use crate::text::{byte_count, chars_of, find_chars, tail, text_of};

pub mod completion;
pub mod conversion;
pub mod ending;
pub mod events;
pub mod handlers;
pub mod image_laws;
pub mod images;
pub mod laws;
pub mod pieces;
pub mod steps;
pub mod thinking;

pub use completion::generate_completed_events_fallback;
pub use conversion::convert_chat_stream_line;

verus! {

// ---------------------------------------------------------------------------------------------
// The model of a stream
// ---------------------------------------------------------------------------------------------

/// Where a stream stands with regard to a thinking section at its start.
#[derive(Debug, Clone, Copy, PartialEq, Eq, Structural)]
pub enum ThinkTagState {
    Before,
    Inside,
    Done,
}

/// The model of the session of a stream.
#[verifier::ext_equal]
pub struct SessionV {
    /// The number of the last event.
    pub seq: i64,
    pub response_id: Seq<char>,
    pub created_at: i64,
    /// The identifier of the last function call that was announced.
    pub fc_id: Seq<char>,
    pub first_chunk: bool,
    pub finish_reason: Option<Seq<char>>,
}

/// The model of the message of a stream.
#[verifier::ext_equal]
pub struct TextV {
    pub in_block: bool,
    pub buf: Seq<char>,
    pub msg_id: Seq<char>,
    pub msg_output_index: i64,
    /// The index that the next output item gets.
    pub current_output_index: i64,
}

/// The model of the reasoning of a stream.
#[verifier::ext_equal]
pub struct ReasoningV {
    pub active: bool,
    pub item_id: Seq<char>,
    pub buf: Seq<char>,
    pub part_added: bool,
    pub output_index: i64,
    pub sequence: i64,
    /// The last reasoning text, kept for the function calls that follow it.
    pub for_func_calls: Option<Seq<char>>,
}

/// The model of one function call of a stream.
#[verifier::ext_equal]
pub struct CallV {
    pub index: i64,
    pub args: Seq<char>,
    pub name: Seq<char>,
    pub call_id: Seq<char>,
    /// The index of its output item, once it was announced.
    pub output_index: Option<i64>,
}

/// The model of the function calls of a stream, in the order of their indices.
#[verifier::ext_equal]
pub struct FuncV {
    pub in_block: bool,
    pub calls: Seq<CallV>,
}

/// The token counts of a stream.
#[derive(Clone, Copy)]
pub struct Counts {
    pub seen: bool,
    pub input: i64,
    pub output: i64,
    pub total: i64,
    pub cached: i64,
    pub reasoning: i64,
}

/// The model of the search for a thinking section.
#[verifier::ext_equal]
pub struct ThinkV {
    pub buf: Seq<char>,
    pub in_tag: bool,
    pub state: ThinkTagState,
    pub can_start: bool,
    pub leading_ws: Seq<char>,
}

/// The model of a stream.
#[verifier::ext_equal]
pub struct StreamV {
    pub session: SessionV,
    pub text: TextV,
    pub reasoning: ReasoningV,
    pub func: FuncV,
    pub usage: Counts,
    pub think: ThinkV,
}

impl StreamV {
    /// A stream before its first chunk.
    pub open spec fn initial() -> StreamV {
        StreamV {
            session: SessionV {
                seq: 0,
                response_id: Seq::empty(),
                created_at: 0,
                fc_id: Seq::empty(),
                first_chunk: true,
                finish_reason: None,
            },
            text: TextV {
                in_block: false,
                buf: Seq::empty(),
                msg_id: Seq::empty(),
                msg_output_index: 0,
                current_output_index: 0,
            },
            reasoning: ReasoningV {
                active: false,
                item_id: Seq::empty(),
                buf: Seq::empty(),
                part_added: false,
                output_index: 0,
                sequence: 0,
                for_func_calls: None,
            },
            func: FuncV { in_block: false, calls: Seq::empty() },
            usage: Counts { seen: false, input: 0, output: 0, total: 0, cached: 0, reasoning: 0 },
            think: ThinkV {
                buf: Seq::empty(),
                in_tag: false,
                state: ThinkTagState::Before,
                can_start: true,
                leading_ws: Seq::empty(),
            },
        }
    }

    /// Whether the message is to be made up from the reasoning.
    pub open spec fn synthesizes(self) -> bool {
        self.text.buf.len() == 0 && self.text.msg_id.len() == 0 && self.reasoning.buf.len() > 0
            && !self.reasoning.part_added
    }
}

/// The number behind `i`, in 64 bits that wrap around.
pub open spec fn following(i: i64) -> i64 {
    if i == i64::MAX {
        i64::MIN
    } else {
        (i + 1) as i64
    }
}

// ---------------------------------------------------------------------------------------------
// The thinking section
// ---------------------------------------------------------------------------------------------

/// What opens a thinking section.
pub const THINK_OPEN_TAG: &'static str = "<thinking>";

/// What closes a thinking section.
pub const THINK_CLOSE_TAG: &'static str = "</thinking>";

/// The white space that may stand before a thinking section.
pub open spec fn is_blank(c: char) -> bool {
    c == ' ' || c == '\t' || c == '\r' || c == '\n'
}

/// The first position at or behind `i` that holds no such white space.
pub open spec fn blank_end(s: Seq<char>, i: int) -> int
    decreases s.len() - i,
{
    if 0 <= i < s.len() && is_blank(s[i]) {
        blank_end(s, i + 1)
    } else {
        i
    }
}

/// The text is held back: it may still begin with `full`, or is at least as long.
pub open spec fn held_back(full: Seq<char>, s: Seq<char>) -> bool {
    s.len() == 0 || text::byte_len(s) >= text::byte_len(full) || text::begins(full, s)
}

/// The largest number up to `k` of characters at the end of `s` that `tag` begins with.
pub open spec fn overlap_from(s: Seq<char>, tag: Seq<char>, k: int) -> int
    decreases k,
{
    if k <= 0 {
        0
    } else if s.skip(s.len() - k) == tag.take(k) {
        k
    } else {
        overlap_from(s, tag, k - 1)
    }
}

/// The number of characters at the end of `s` that a `tag` which goes on may begin with.
pub open spec fn overlap(s: Seq<char>, tag: Seq<char>) -> int {
    overlap_from(
        s,
        tag,
        if s.len() < tag.len() - 1 {
            s.len() as int
        } else {
            tag.len() - 1
        },
    )
}

/// What a piece of content comes to: parts of reasoning, parts of content, and the search for a
/// thinking section after it.
#[verifier::ext_equal]
pub struct FedV {
    pub think: ThinkV,
    pub reasoning: Seq<Seq<char>>,
    pub content: Seq<Seq<char>>,
}

/// The text with the white space that was held back before it.
pub open spec fn released(ws: Seq<char>, s: Seq<char>) -> Seq<Seq<char>> {
    if ws.len() > 0 {
        seq![ws, s]
    } else {
        seq![s]
    }
}

/// Content behind a thinking section.
pub open spec fn fed_done(t: ThinkV, p: Seq<char>) -> FedV {
    FedV {
        think: t,
        reasoning: Seq::empty(),
        content: if p.len() > 0 {
            seq![p]
        } else {
            Seq::empty()
        },
    }
}

/// Content inside a thinking section.
pub open spec fn fed_inside(t: ThinkV, p: Seq<char>) -> FedV {
    if p.len() == 0 {
        FedV { think: t, reasoning: Seq::empty(), content: Seq::empty() }
    } else {
        match text::found(p, THINK_CLOSE_TAG@) {
            Some(i) => FedV {
                reasoning: if i > 0 {
                    seq![p.take(i)]
                } else {
                    Seq::empty()
                },
                ..fed_done(
                    ThinkV { state: ThinkTagState::Done, ..t },
                    p.skip(i + THINK_CLOSE_TAG@.len()),
                )
            },
            None => {
                let keep = overlap(p, THINK_CLOSE_TAG@);
                FedV {
                    think: ThinkV {
                        buf: if keep > 0 {
                            p.skip(p.len() - keep)
                        } else {
                            t.buf
                        },
                        ..t
                    },
                    reasoning: if p.len() > keep {
                        seq![p.take(p.len() - keep)]
                    } else {
                        Seq::empty()
                    },
                    content: Seq::empty(),
                }
            },
        }
    }
}

/// Content before a thinking section.
pub open spec fn fed_before(t: ThinkV, p: Seq<char>) -> FedV {
    if !t.can_start {
        FedV { think: t, reasoning: Seq::empty(), content: seq![p] }
    } else {
        let n = blank_end(p, 0);
        let ws = t.leading_ws + p.take(n);
        let rest = p.skip(n);
        let closed = FedV {
            think: ThinkV { leading_ws: Seq::empty(), can_start: false, ..t },
            reasoning: Seq::empty(),
            content: released(ws, rest),
        };
        if rest.len() == 0 {
            FedV {
                think: ThinkV { leading_ws: ws, ..t },
                reasoning: Seq::empty(),
                content: Seq::empty(),
            }
        } else {
            match text::found(rest, THINK_OPEN_TAG@) {
                Some(i) => if i > 0 {
                    closed
                } else {
                    fed_inside(
                        ThinkV { leading_ws: Seq::empty(), state: ThinkTagState::Inside, ..t },
                        rest.skip(THINK_OPEN_TAG@.len() as int),
                    )
                },
                None => if held_back(THINK_OPEN_TAG@, rest) {
                    FedV {
                        think: ThinkV { leading_ws: ws, buf: rest, ..t },
                        reasoning: Seq::empty(),
                        content: Seq::empty(),
                    }
                } else {
                    closed
                },
            }
        }
    }
}

/// What a piece of content comes to.
pub open spec fn fed(t: ThinkV, s: Seq<char>) -> FedV {
    if s.len() == 0 {
        FedV { think: t, reasoning: Seq::empty(), content: Seq::empty() }
    } else {
        let u = ThinkV { buf: Seq::empty(), ..t };
        match t.state {
            ThinkTagState::Before => fed_before(u, t.buf + s),
            ThinkTagState::Inside => fed_inside(u, t.buf + s),
            ThinkTagState::Done => fed_done(u, t.buf + s),
        }
    }
}

/// The text that is still held back, at the end of a choice.
pub open spec fn flushed_text(t: ThinkV) -> Seq<char> {
    match t.state {
        ThinkTagState::Before => t.leading_ws + t.buf,
        _ => t.buf,
    }
}

/// Whether that text is reasoning.
pub open spec fn flushed_is_reasoning(t: ThinkV) -> bool {
    t.state == ThinkTagState::Inside
}

/// The search for a thinking section after that.
pub open spec fn flushed_think(t: ThinkV) -> ThinkV {
    if t.buf.len() == 0 && t.state == ThinkTagState::Before && t.leading_ws.len() == 0 {
        t
    } else {
        ThinkV {
            buf: Seq::empty(),
            leading_ws: if t.state == ThinkTagState::Before {
                Seq::empty()
            } else {
                t.leading_ws
            },
            state: ThinkTagState::Before,
            in_tag: false,
            can_start: t.can_start,
        }
    }
}

// ---------------------------------------------------------------------------------------------
// Events
// ---------------------------------------------------------------------------------------------

/// An event for the client.
#[verifier::ext_equal]
pub struct EventV {
    pub name: Seq<char>,
    pub payload: JsonV,
}

/// A server-sent event as it goes over the wire.
pub open spec fn sse_text(name: Seq<char>, payload: Seq<char>) -> Seq<char> {
    "event: "@ + name + "\ndata: "@ + payload + "\n\n"@
}

/// The events as they go over the wire.
pub open spec fn wire(events: Seq<EventV>) -> Seq<Seq<char>> {
    Seq::new(
        events.len(),
        |i: int| sse_text(events[i].name, json::json_text(events[i].payload)),
    )
}

/// The payload of each event stands on one line.
pub open spec fn on_one_line(events: Seq<EventV>) -> bool {
    forall|i: int|
        0 <= i < events.len() ==> json::one_line(json::json_text((#[trigger] events[i]).payload))
}

/// A stream, the events that it has given out in this step, and the reasoning texts that it has
/// kept in this step, by call identifier.
#[verifier::ext_equal]
pub struct StepV {
    pub stream: StreamV,
    pub events: Seq<EventV>,
    pub saves: Seq<(Seq<char>, Seq<char>)>,
}

impl StepV {
    /// A step before its first event.
    pub open spec fn start(stream: StreamV) -> StepV {
        StepV { stream, events: Seq::empty(), saves: Seq::empty() }
    }

    /// The step after an event: its payload is `body` with the type and the next number.
    pub open spec fn emit(self, name: Seq<char>, body: JsonV) -> StepV {
        let n = following(self.stream.session.seq);
        StepV {
            stream: StreamV {
                session: SessionV { seq: n, ..self.stream.session },
                ..self.stream
            },
            events: self.events.push(
                EventV {
                    name,
                    payload: body.with("type"@, JsonV::Text(name)).with(
                        "sequence_number"@,
                        JsonV::Int(n as int),
                    ),
                },
            ),
            saves: self.saves,
        }
    }
}

/// The server-sent event of that name and payload.
pub(crate) fn emit_sse_event(event: &str, payload: &str) -> (r: String)
    ensures
        r@ == sse_text(event@, payload@),
{
    let mut r = String::new();
    r.append("event: ");
    r.append(event);
    r.append("\ndata: ");
    r.append(payload);
    r.append("\n\n");
    assert(r@ =~= sse_text(event@, payload@));
    r
}

/// What a step gives out: texts for the wire, and reasoning texts to keep.
pub(crate) struct Outbox {
    texts: Vec<String>,
    saves: Vec<(String, String)>,
    events: Ghost<Seq<EventV>>,
}

/// The models of the pairs.
pub open spec fn pairs(v: Seq<(String, String)>) -> Seq<(Seq<char>, Seq<char>)> {
    Seq::new(v.len(), |i: int| (v[i].0@, v[i].1@))
}

impl Outbox {
    /// The texts are those of the events, whose payloads stand on one line each.
    spec fn wf(self) -> bool {
        &&& text::strings(self.texts@) == wire(self.events@)
        &&& on_one_line(self.events@)
    }

    fn new() -> (r: Outbox)
        ensures
            r.wf(),
            r.events@ == Seq::<EventV>::empty(),
            pairs(r.saves@) == Seq::<(Seq<char>, Seq<char>)>::empty(),
    {
        let r = Outbox { texts: Vec::new(), saves: Vec::new(), events: Ghost(Seq::empty()) };
        assert(text::strings(r.texts@) =~= wire(r.events@));
        assert(pairs(r.saves@) =~= Seq::<(Seq<char>, Seq<char>)>::empty());
        r
    }

    fn save(&mut self, call_id: String, reasoning: String)
        requires
            old(self).wf(),
        ensures
            final(self).wf(),
            final(self).events == old(self).events,
            pairs(final(self).saves@) == pairs(old(self).saves@).push((call_id@, reasoning@)),
    {
        self.saves.push((call_id, reasoning));
        assert(pairs(self.saves@) =~= pairs(old(self).saves@).push((call_id@, reasoning@)));
    }
}

/// The step that a stream and its outbox have come to.
spec fn step_of(st: StreamState, out: Outbox) -> StepV {
    StepV { stream: st@, events: out.events@, saves: pairs(out.saves@) }
}

// ---------------------------------------------------------------------------------------------
// The state of a stream
// ---------------------------------------------------------------------------------------------

struct Session {
    seq: i64,
    response_id: String,
    created_at: i64,
    fc_id: String,
    first_chunk: bool,
    finish_reason: Option<String>,
}

impl Session {
    spec fn model(self) -> SessionV {
        SessionV {
            seq: self.seq,
            response_id: self.response_id@,
            created_at: self.created_at,
            fc_id: self.fc_id@,
            first_chunk: self.first_chunk,
            finish_reason: text::maybe(self.finish_reason),
        }
    }
}

struct TextBlock {
    in_block: bool,
    buf: String,
    msg_id: String,
    msg_output_index: i64,
    current_output_index: i64,
}

impl TextBlock {
    spec fn model(self) -> TextV {
        TextV {
            in_block: self.in_block,
            buf: self.buf@,
            msg_id: self.msg_id@,
            msg_output_index: self.msg_output_index,
            current_output_index: self.current_output_index,
        }
    }
}

struct ReasoningBlock {
    active: bool,
    item_id: String,
    buf: String,
    part_added: bool,
    output_index: i64,
    sequence: i64,
    for_func_calls: Option<String>,
}

impl ReasoningBlock {
    spec fn model(self) -> ReasoningV {
        ReasoningV {
            active: self.active,
            item_id: self.item_id@,
            buf: self.buf@,
            part_added: self.part_added,
            output_index: self.output_index,
            sequence: self.sequence,
            for_func_calls: text::maybe(self.for_func_calls),
        }
    }
}

struct Call {
    index: i64,
    args: String,
    name: String,
    call_id: String,
    output_index: Option<i64>,
}

impl Call {
    spec fn model(self) -> CallV {
        CallV {
            index: self.index,
            args: self.args@,
            name: self.name@,
            call_id: self.call_id@,
            output_index: self.output_index,
        }
    }
}

spec fn call_models(v: Seq<Call>) -> Seq<CallV> {
    Seq::new(v.len(), |i: int| v[i].model())
}

struct FuncBlock {
    in_block: bool,
    calls: Vec<Call>,
}

impl FuncBlock {
    spec fn model(self) -> FuncV {
        FuncV { in_block: self.in_block, calls: call_models(self.calls@) }
    }
}

struct Think {
    buf: String,
    in_tag: bool,
    state: ThinkTagState,
    can_start: bool,
    leading_ws: String,
}

impl Think {
    spec fn model(self) -> ThinkV {
        ThinkV {
            buf: self.buf@,
            in_tag: self.in_tag,
            state: self.state,
            can_start: self.can_start,
            leading_ws: self.leading_ws@,
        }
    }
}

/// The state of a stream: what was announced, what is open, and what was gathered so far.
pub struct StreamState {
    session: Session,
    text: TextBlock,
    reasoning: ReasoningBlock,
    func: FuncBlock,
    usage: Counts,
    think: Think,
}

impl View for StreamState {
    type V = StreamV;

    closed spec fn view(&self) -> StreamV {
        StreamV {
            session: self.session.model(),
            text: self.text.model(),
            reasoning: self.reasoning.model(),
            func: self.func.model(),
            usage: self.usage,
            think: self.think.model(),
        }
    }
}

impl StreamState {
    /// The state of a stream before its first chunk.
    pub fn new() -> (r: StreamState)
        ensures
            r@ == StreamV::initial(),
    {
        let r = StreamState {
            session: Session {
                seq: 0,
                response_id: String::new(),
                created_at: 0,
                fc_id: String::new(),
                first_chunk: true,
                finish_reason: None,
            },
            text: TextBlock {
                in_block: false,
                buf: String::new(),
                msg_id: String::new(),
                msg_output_index: 0,
                current_output_index: 0,
            },
            reasoning: ReasoningBlock {
                active: false,
                item_id: String::new(),
                buf: String::new(),
                part_added: false,
                output_index: 0,
                sequence: 0,
                for_func_calls: None,
            },
            func: FuncBlock { in_block: false, calls: Vec::new() },
            usage: Counts { seen: false, input: 0, output: 0, total: 0, cached: 0, reasoning: 0 },
            think: Think {
                buf: String::new(),
                in_tag: false,
                state: ThinkTagState::Before,
                can_start: true,
                leading_ws: String::new(),
            },
        };
        assert(r@.func.calls =~= Seq::empty());
        r
    }

    /// The number of the next event.
    fn next_seq(&mut self) -> (r: i64)
        ensures
            r == following(old(self)@.session.seq),
            final(self)@ == (StreamV {
                session: SessionV { seq: r, ..old(self)@.session },
                ..old(self)@
            }),
    {
        self.session.seq = self.session.seq.wrapping_add(1);
        self.session.seq
    }

    /// Gives out an event: `body` with the type and the next number.
    fn emit(&mut self, out: &mut Outbox, name: &str, body: Json)
        requires
            old(out).wf(),
        ensures
            final(out).wf(),
            step_of(*final(self), *final(out)) == step_of(*old(self), *old(out)).emit(
                name@,
                body@,
            ),
    {
        let n = self.next_seq();
        let payload = body.with("type", Json::text(name)).with("sequence_number", Json::Int(n));
        let ghost event = EventV { name: name@, payload: payload@ };
        let printed = payload.print();
        out.texts.push(emit_sse_event(name, printed.as_str()));
        proof {
            out.events@ = out.events@.push(event);
        }
        assert(wire(out.events@) =~= wire(old(out).events@).push(
            sse_text(name@, json::json_text(payload@)),
        ));
        assert(text::strings(out.texts@) =~= text::strings(old(out).texts@).push(
            sse_text(name@, json::json_text(payload@)),
        ));
    }

    /// The length of the message so far, in bytes.
    pub fn get_text_len(&self) -> (n: usize)
        ensures
            n == text::byte_len(self@.text.buf),
    {
        byte_count(self.text.buf.as_str())
    }

    /// The length of the reasoning so far, in bytes.
    pub fn get_reasoning_len(&self) -> (n: usize)
        ensures
            n == text::byte_len(self@.reasoning.buf),
    {
        byte_count(self.reasoning.buf.as_str())
    }

    /// The number of input tokens that the upstream API reported.
    pub fn get_input_tokens(&self) -> (n: i64)
        ensures
            n == self@.usage.input,
    {
        self.usage.input
    }

    /// Whether no chunk has come yet.
    pub(crate) fn awaits_first_chunk(&self) -> (r: bool)
        ensures
            r == self@.session.first_chunk,
    {
        self.session.first_chunk
    }

    /// Whether the message is to be made up from the reasoning.
    pub fn should_synthesize_message_from_reasoning(&self) -> (r: bool)
        ensures
            r == self@.synthesizes(),
    {
        self.text.buf.as_str().is_empty() && self.text.msg_id.as_str().is_empty()
            && !self.reasoning.buf.as_str().is_empty() && !self.reasoning.part_added
    }

    /// Whether the text is to be held back until it is known whether it begins with `full`.
    pub fn is_strict_prefix(full: &str, s: &str) -> (r: bool)
        ensures
            r == held_back(full@, s@),
    {
        s.is_empty() || byte_count(s) >= byte_count(full) || text::starts_with(full, s)
    }
}

/// The number of characters at the end of `s` that a `tag` which goes on may begin with.
fn overlap_len(s: &Vec<char>, tag: &Vec<char>) -> (r: usize)
    requires
        tag@.len() > 0,
    ensures
        r == overlap(s@, tag@),
        r <= s@.len(),
        r < tag@.len(),
{
    let mut k: usize = if s.len() < tag.len() - 1 {
        s.len()
    } else {
        tag.len() - 1
    };
    while k > 0
        invariant
            k <= s@.len(),
            k < tag@.len(),
            overlap(s@, tag@) == overlap_from(s@, tag@, k as int),
        decreases k,
    {
        let mut j: usize = 0;
        while j < k && s[s.len() - k + j] == tag[j]
            invariant
                j <= k <= s@.len(),
                k < tag@.len(),
                forall|m: int| 0 <= m < j ==> s@[s@.len() - k + m] == tag@[m],
            decreases k - j,
        {
            j += 1;
        }
        if j == k {
            assert(s@.skip(s@.len() - k) =~= tag@.take(k as int));
            return k;
        }
        assert(s@.skip(s@.len() - k)[j as int] != tag@.take(k as int)[j as int]);
        k -= 1;
    }
    0
}

impl StreamState {
    /// The number of bytes at the end of `s` that a `tag` which goes on may begin with.
    pub fn suffix_that_could_be_prefix(s: &str, tag: &str) -> (r: usize)
        requires
            tag@.len() > 0,
        ensures
            r == text::byte_len(tag@.take(overlap(s@, tag@))),
    {
        let v = chars_of(s);
        let t = chars_of(tag);
        let k = overlap_len(&v, &t);
        let part = text_of(&t, 0, k);
        assert(part@ =~= tag@.take(k as int));
        byte_count(part.as_str())
    }

    /// Takes in a piece of content, and tells reasoning from content: a thinking section counts if
    /// it opens the stream, behind white space at most.
    pub fn feed_think_tag(&mut self, s: &str) -> (r: (Vec<String>, Vec<String>))
        ensures
            text::strings(r.0@) == fed(old(self)@.think, s@).reasoning,
            text::strings(r.1@) == fed(old(self)@.think, s@).content,
            final(self)@ == (StreamV { think: fed(old(self)@.think, s@).think, ..old(self)@ }),
    {
        self.think.feed(s)
    }

    /// Gives out the text that is still held back, and whether it is reasoning.
    pub fn flush_think_buf(&mut self) -> (r: (String, bool))
        ensures
            r.0@ == flushed_text(old(self)@.think),
            r.1 == flushed_is_reasoning(old(self)@.think),
            final(self)@ == (StreamV { think: flushed_think(old(self)@.think), ..old(self)@ }),
    {
        self.think.flush()
    }
}

impl Think {
    fn flush(&mut self) -> (r: (String, bool))
        ensures
            r.0@ == flushed_text(old(self).model()),
            r.1 == flushed_is_reasoning(old(self).model()),
            final(self).model() == flushed_think(old(self).model()),
    {
        let ghost before = self.model();
        if self.buf.as_str().is_empty() && self.state == ThinkTagState::Before
            && self.leading_ws.as_str().is_empty() {
            let r = String::new();
            assert(r@ =~= flushed_text(before));
            return (r, false);
        }
        let is_reasoning = self.state == ThinkTagState::Inside;
        let mut out = String::new();
        if self.state == ThinkTagState::Before {
            out.append(self.leading_ws.as_str());
            self.leading_ws = String::new();
        }
        out.append(self.buf.as_str());
        assert(out@ =~= flushed_text(before));
        self.buf = String::new();
        self.state = ThinkTagState::Before;
        self.in_tag = false;
        (out, is_reasoning)
    }

    fn feed(&mut self, s: &str) -> (r: (Vec<String>, Vec<String>))
        ensures
            text::strings(r.0@) == fed(old(self).model(), s@).reasoning,
            text::strings(r.1@) == fed(old(self).model(), s@).content,
            final(self).model() == fed(old(self).model(), s@).think,
    {
        let mut reasoning: Vec<String> = Vec::new();
        let mut content: Vec<String> = Vec::new();
        assert(text::strings(reasoning@) =~= Seq::empty());
        assert(text::strings(content@) =~= Seq::empty());
        if s.is_empty() {
            return (reasoning, content);
        }
        let mut joined = self.buf.clone();
        joined.append(s);
        let pending = chars_of(joined.as_str());
        self.buf = String::new();
        match self.state {
            ThinkTagState::Before => self.feed_before(&pending),
            ThinkTagState::Inside => self.feed_inside(&pending),
            ThinkTagState::Done => {
                content.push(text_of(&pending, 0, pending.len()));
                assert(pending@.subrange(0, pending@.len() as int) =~= pending@);
                assert(text::strings(content@) =~= seq![pending@]);
                (reasoning, content)
            },
        }
    }

    fn feed_before(&mut self, pending: &Vec<char>) -> (r: (Vec<String>, Vec<String>))
        requires
            old(self).model().state == ThinkTagState::Before,
        ensures
            text::strings(r.0@) == fed_before(old(self).model(), pending@).reasoning,
            text::strings(r.1@) == fed_before(old(self).model(), pending@).content,
            final(self).model() == fed_before(old(self).model(), pending@).think,
    {
        let mut reasoning: Vec<String> = Vec::new();
        let mut content: Vec<String> = Vec::new();
        assert(text::strings(reasoning@) =~= Seq::empty());
        assert(text::strings(content@) =~= Seq::empty());
        if !self.can_start {
            content.push(text_of(pending, 0, pending.len()));
            assert(pending@.subrange(0, pending@.len() as int) =~= pending@);
            assert(text::strings(content@) =~= seq![pending@]);
            return (reasoning, content);
        }
        let mut n: usize = 0;
        while n < pending.len() && (pending[n] == ' ' || pending[n] == '\t' || pending[n] == '\r'
            || pending[n] == '\n')
            invariant
                n <= pending@.len(),
                blank_end(pending@, 0) == blank_end(pending@, n as int),
            decreases pending@.len() - n,
        {
            n += 1;
        }
        let ghost before = self.model();
        let ghost ws = before.leading_ws + pending@.take(n as int);
        self.leading_ws.append(text_of(pending, 0, n).as_str());
        assert(self.leading_ws@ =~= ws);
        let rest = tail(pending, n);
        if rest.len() == 0 {
            return (reasoning, content);
        }
        let open = chars_of(THINK_OPEN_TAG);
        match find_chars(&rest, &open, 0) {
            Some(i) => {
                proof {
                    text::lemma_found_from(rest@, open@, 0);
                }
                if i == 0 {
                    self.leading_ws = String::new();
                    self.state = ThinkTagState::Inside;
                    return self.feed_inside(&tail(&rest, open.len()));
                }
            },
            None => {
                let held = text_of(&rest, 0, rest.len());
                assert(held@ =~= rest@);
                if StreamState::is_strict_prefix(THINK_OPEN_TAG, held.as_str()) {
                    self.buf = held;
                    return (reasoning, content);
                }
            },
        }
        if !self.leading_ws.as_str().is_empty() {
            content.push(self.leading_ws.clone());
            self.leading_ws = String::new();
        }
        let all = text_of(&rest, 0, rest.len());
        assert(all@ =~= rest@);
        content.push(all);
        self.can_start = false;
        assert(self.leading_ws@ =~= Seq::empty());
        assert(text::strings(content@) =~= released(ws, rest@));
        (reasoning, content)
    }

    fn feed_inside(&mut self, pending: &Vec<char>) -> (r: (Vec<String>, Vec<String>))
        ensures
            text::strings(r.0@) == fed_inside(old(self).model(), pending@).reasoning,
            text::strings(r.1@) == fed_inside(old(self).model(), pending@).content,
            final(self).model() == fed_inside(old(self).model(), pending@).think,
    {
        let mut reasoning: Vec<String> = Vec::new();
        let mut content: Vec<String> = Vec::new();
        assert(text::strings(reasoning@) =~= Seq::empty());
        assert(text::strings(content@) =~= Seq::empty());
        if pending.len() == 0 {
            return (reasoning, content);
        }
        let close = chars_of(THINK_CLOSE_TAG);
        proof {
            text::lemma_found_from(pending@, close@, 0);
        }
        match find_chars(pending, &close, 0) {
            Some(i) => {
                if i > 0 {
                    reasoning.push(text_of(pending, 0, i));
                    assert(text::strings(reasoning@) =~= seq![pending@.take(i as int)]);
                }
                self.state = ThinkTagState::Done;
                let end: usize = i + close.len();
                if end < pending.len() {
                    content.push(text_of(pending, end, pending.len()));
                    assert(text::strings(content@) =~= seq![pending@.skip(end as int)]);
                }
                (reasoning, content)
            },
            None => {
                proof {
                    reveal_strlit("</thinking>");
                }
                let keep = overlap_len(pending, &close);
                let cut: usize = pending.len() - keep;
                if cut > 0 {
                    reasoning.push(text_of(pending, 0, cut));
                    assert(text::strings(reasoning@) =~= seq![pending@.take(cut as int)]);
                }
                if keep > 0 {
                    self.buf = text_of(pending, cut, pending.len());
                    assert(self.buf@ =~= pending@.skip(cut as int));
                }
                (reasoning, content)
            },
        }
    }
}

} // verus!

//! How a step of a stream is made up of smaller steps.

use vstd::prelude::*;
use vstd::string::*;

use super::conversion;
use super::events;
use super::events::goes_by;
use super::{StepV, StreamV, ThinkTagState, ThinkV};
use crate::json::JsonV;
use crate::names;
use crate::types::{ChunkV, DeltaV, StreamChoiceV, ToolCallDeltaV, Usage};

verus! {

/// The event is about a response with that identifier and time, which is in progress.
pub open spec fn about_start(v: JsonV, id: Seq<char>, created_at: i64) -> bool {
    &&& v.text_at("id"@) == Some(id)
    &&& v.text_at("object"@) == Some("response"@)
    &&& v.get("created_at"@) == Some(JsonV::Int(created_at as int))
    &&& v.text_at("status"@) == Some("in_progress"@)
}

/// The first chunk announces the response, with the identifier and the time of the chunk.
pub proof fn law_first_chunk_announces(s: StepV, c: ChunkV, random: Seq<char>, time: i64)
    ensures
        ({
            let b = s.started(c, random, time);
            let n = s.events.len() as int;
            let id = if c.id is Some {
                c.id->0
            } else {
                seq!['r', 'e', 's', 'p', '_'] + random
            };
            let created_at = if c.created is Some {
                c.created->0
            } else {
                time
            };
            &&& !s.stream.session.first_chunk ==> b == s
            &&& s.stream.session.first_chunk ==> {
                &&& events::more_events(s, b, 2)
                &&& goes_by(b.events[n], "response.created"@)
                &&& b.events[n].payload.get("response"@) matches Some(r)
                &&& about_start(r, id, created_at)
                &&& r.get("background"@) == Some(JsonV::Bool(false))
                &&& r.get("error"@) == Some(JsonV::Null)
                &&& r.text_at("instructions"@) == Some(Seq::<char>::empty())
                &&& goes_by(b.events[n + 1], "response.in_progress"@)
                &&& b.events[n + 1].payload.get("response"@) matches Some(q)
                &&& about_start(q, id, created_at)
                &&& b.stream.session.response_id == id
                &&& b.stream.session.created_at == created_at
                &&& !b.stream.session.first_chunk
                &&& b.stream.session.finish_reason == s.stream.session.finish_reason
            }
            &&& b.stream == (StreamV { session: b.stream.session, ..s.stream })
            &&& b.saves == s.saves
        }),
{
    names::lemma_names();
    reveal_strlit("resp_");
    assert("resp_"@ =~= seq!['r', 'e', 's', 'p', '_']);
    let b = s.started(c, random, time);
    assert(b.events.take(s.events.len() as int) =~= s.events);
}

/// The number, or else the old one.
pub open spec fn newer(old_count: i64, n: Option<i64>) -> i64 {
    if n is Some {
        n->0
    } else {
        old_count
    }
}

/// A report of token counts takes the place of the counts that it names.
pub proof fn law_counts_are_taken_over(s: StepV, usage: Option<Usage>)
    ensures
        ({
            let b = s.usage_counted(usage);
            let c = s.stream.usage;
            let d = b.stream.usage;
            &&& usage is None ==> b == s
            &&& usage matches Some(u) ==> {
                &&& d.seen
                &&& d.input == newer(c.input, u.prompt_tokens)
                &&& d.output == newer(c.output, u.completion_tokens)
                &&& d.total == newer(c.total, u.total_tokens)
                &&& d.cached == newer(c.cached, u.cached_tokens)
                &&& d.reasoning == newer(c.reasoning, u.reasoning_tokens)
            }
            &&& b == (StepV { stream: StreamV { usage: d, ..s.stream }, ..s })
        }),
{
}

/// The chunk with one more choice.
pub open spec fn with_choice(c: ChunkV, x: StreamChoiceV) -> ChunkV {
    ChunkV { choices: Some(c.choices->0.push(x)), ..c }
}

proof fn lemma_choices_prefix(s: StepV, choices: Seq<StreamChoiceV>, x: StreamChoiceV, n: int)
    requires
        n <= choices.len(),
    ensures
        s.choices(choices.push(x), n) == s.choices(choices, n),
    decreases n,
{
    if n > 0 {
        lemma_choices_prefix(s, choices, x, n - 1);
        assert(choices.push(x)[n - 1] == choices[n - 1]);
    }
}

/// The choices of a chunk count one by one, behind its token counts and the announcement.
pub proof fn law_choices_count_one_by_one(
    s: StepV,
    c: ChunkV,
    x: StreamChoiceV,
    random: Seq<char>,
    time: i64,
)
    ensures
        c.choices is Some ==> s.chunk(with_choice(c, x), random, time) == s.chunk(
            c,
            random,
            time,
        ).choice(x),
        (c.choices matches Some(choices) ==> choices.len() == 0) ==> s.chunk(c, random, time)
            == s.started(c, random, time).usage_counted(c.usage),
{
    if let Some(choices) = c.choices {
        let a = s.started(c, random, time).usage_counted(c.usage);
        lemma_choices_prefix(a, choices, x, choices.len() as int);
        assert(choices.push(x)[choices.len() as int] == x);
    }
}

/// A choice is its piece, and then its end.
pub proof fn law_choice_goes_on_or_ends(s: StepV, c: StreamChoiceV)
    ensures
        ({
            let a = if c.delta is Some {
                s.delta(c.delta->0)
            } else {
                s
            };
            let finishes = c.finish_reason matches Some(r) && r.len() > 0 && r != "null"@;
            let noted = StepV {
                stream: StreamV {
                    session: super::SessionV {
                        finish_reason: c.finish_reason,
                        ..a.stream.session
                    },
                    ..a.stream
                },
                ..a
            };
            &&& !finishes ==> s.choice(c) == a
            &&& finishes ==> s.choice(c) == noted.flushed().all_closed()
        }),
{
    reveal(StepV::choice);
    reveal(StepV::ended);
}

/// A piece without text and without calls.
pub open spec fn says_nothing(d: DeltaV) -> bool {
    &&& !events::is_given(d.reasoning_content)
    &&& !events::is_given(d.content)
    &&& d.tool_calls is None
}

/// A piece of a choice: first its reasoning, then its content, then its function calls. Each is
/// left out where the piece does not have it.
pub proof fn law_delta_in_order(s: StepV, d: DeltaV)
    ensures
        says_nothing(d) ==> s.delta(d) == s,
        events::is_given(d.reasoning_content) ==> s.delta(d) == s.reasoning_part(
            d.reasoning_content->0,
        ).delta(DeltaV { reasoning_content: None, ..d }),
        !events::is_given(d.reasoning_content) && events::is_given(d.content) ==> s.delta(d)
            == s.text_part(d.content->0).delta(
            DeltaV { reasoning_content: None, content: None, ..d },
        ),
        (!events::is_given(d.reasoning_content) && !events::is_given(d.content)
            && d.tool_calls is Some && (d.tool_calls->0).len() == 0) ==> s.delta(d)
            == s.reasoning_closed().text_closed(),
{
    reveal(StepV::delta);
}

proof fn lemma_call_parts_prefix(
    s: StepV,
    calls: Seq<ToolCallDeltaV>,
    x: ToolCallDeltaV,
    n: int,
)
    requires
        n <= calls.len(),
    ensures
        s.call_parts(calls.push(x), n) == s.call_parts(calls, n),
    decreases n,
{
    if n > 0 {
        lemma_call_parts_prefix(s, calls, x, n - 1);
        assert(calls.push(x)[n - 1] == calls[n - 1]);
    }
}

/// The pieces of function calls count one by one.
pub proof fn law_call_pieces_count_one_by_one(
    s: StepV,
    d: DeltaV,
    calls: Seq<ToolCallDeltaV>,
    x: ToolCallDeltaV,
)
    ensures
        s.delta(DeltaV { tool_calls: Some(calls.push(x)), ..d }) == s.delta(
            DeltaV { tool_calls: Some(calls), ..d },
        ).call_part(x),
{
    reveal(StepV::delta);
    let a = s.delta(DeltaV { tool_calls: None, ..d }).reasoning_closed().text_closed();
    lemma_call_parts_prefix(a, calls, x, calls.len() as int);
    assert(calls.push(x)[calls.len() as int] == x);
}

/// Closing takes the reasoning item first, then the message, then the function calls, and leaves
/// nothing open.
pub proof fn law_all_is_closed(s: StepV)
    ensures
        ({
            let b = s.all_closed();
            &&& s.stream.reasoning.active ==> b == s.reasoning_closed().all_closed()
            &&& !s.stream.reasoning.active && s.stream.text.in_block ==> b
                == s.text_closed().all_closed()
            &&& !s.stream.reasoning.active && !s.stream.text.in_block && s.stream.func.in_block
                ==> b == s.funcs_closed()
            &&& !s.stream.reasoning.active && !s.stream.text.in_block && !s.stream.func.in_block
                ==> b == s
            &&& !b.stream.reasoning.active
            &&& !b.stream.text.in_block
            &&& !b.stream.func.in_block
        }),
{
    reveal(StepV::all_closed);
    events::law_reasoning_closes(s);
    let a = s.reasoning_closed();
    events::law_message_closes(a);
    events::law_message_closes(s);
    let b = a.text_closed();
    events::law_all_calls_close(b);
    events::law_reasoning_closes(b);
    events::law_message_closes(b);
    events::law_reasoning_closes(s.text_closed());
    events::law_message_closes(s.text_closed());
    super::events::lemma_calls_keep_rest(b);
}

/// What is held back at the end of a choice is given out: as reasoning inside a thinking section,
/// else as content.
pub proof fn law_held_text_is_given_out(s: StepV)
    ensures
        ({
            let t = s.stream.think;
            let b = s.flushed();
            let held = if t.state == ThinkTagState::Before {
                t.leading_ws + t.buf
            } else {
                t.buf
            };
            let u = b.stream.think;
            let rested = StepV { stream: StreamV { think: u, ..s.stream }, ..s };
            &&& held.len() == 0 ==> b == rested
            &&& held.len() > 0 && t.state == ThinkTagState::Inside ==> b
                == rested.reasoning_part(held)
            &&& held.len() > 0 && t.state != ThinkTagState::Inside ==> b
                == rested.content_part(held)
            &&& u.buf.len() == 0
            &&& t.state == ThinkTagState::Before ==> u.leading_ws.len() == 0
            &&& t.state != ThinkTagState::Before ==> u.leading_ws == t.leading_ws
            &&& u.can_start == t.can_start
            &&& u.state == ThinkTagState::Before
        }),
{
    reveal(StepV::flushed);
    let t = s.stream.think;
    let b = s.flushed();
    let rested = StepV {
        stream: StreamV { think: super::flushed_think(t), ..s.stream },
        ..s
    };
    events::law_reasoning_goes_on(rested, super::flushed_text(t));
    events::law_message_goes_on(rested, super::flushed_text(t));
    assert(b.stream.think == super::flushed_think(t));
}

proof fn lemma_thoughts_one(s: StepV, p: Seq<char>)
    ensures
        s.thoughts(seq![p], 1) == s.reasoning_closed().reasoning_part(p),
        s.thoughts(Seq::empty(), 0) == s,
        s.contents(seq![p], 1) == s.reasoning_closed().content_part(p),
        s.contents(Seq::empty(), 0) == s,
{
    assert(s.thoughts(seq![p], 0) == s);
    assert(s.contents(seq![p], 0) == s);
    assert(seq![p][0] == p);
}

/// Text behind a thinking section is content, as it came: the reasoning is closed first.
pub proof fn law_text_behind_section_is_content(s: StepV, p: Seq<char>)
    requires
        s.stream.think.state == ThinkTagState::Done,
        s.stream.think.buf.len() == 0,
        p.len() > 0,
    ensures
        s.text_part(p) == s.reasoning_closed().content_part(p),
{
    reveal(StepV::text_part);
    let t = s.stream.think;
    assert(t.buf + p =~= p);
    let u = ThinkV { buf: Seq::empty(), ..t };
    assert(u =~= t);
    lemma_thoughts_one(s, p);
}

/// Text where no thinking section can start any more is content, as it came.
pub proof fn law_plain_text_is_content(s: StepV, p: Seq<char>)
    requires
        s.stream.think.state == ThinkTagState::Before,
        !s.stream.think.can_start,
        s.stream.think.buf.len() == 0,
        p.len() > 0,
    ensures
        s.text_part(p) == s.reasoning_closed().content_part(p),
{
    reveal(StepV::text_part);
    let t = s.stream.think;
    assert(t.buf + p =~= p);
    let u = ThinkV { buf: Seq::empty(), ..t };
    assert(u =~= t);
    lemma_thoughts_one(s, p);
}

proof fn lemma_thoughts_prefix(s: StepV, parts: Seq<Seq<char>>, x: Seq<char>, n: int)
    requires
        n <= parts.len(),
    ensures
        s.thoughts(parts.push(x), n) == s.thoughts(parts, n),
        s.contents(parts.push(x), n) == s.contents(parts, n),
    decreases n,
{
    if n > 0 {
        lemma_thoughts_prefix(s, parts, x, n - 1);
        assert(parts.push(x)[n - 1] == parts[n - 1]);
    }
}

/// The pieces of reasoning and of content that come out of a text count one by one: an open
/// reasoning item is closed before each of them.
pub proof fn law_texts_count_one_by_one(s: StepV, parts: Seq<Seq<char>>, x: Seq<char>)
    ensures
        s.thoughts(parts.push(x), parts.len() + 1int) == s.thoughts(
            parts,
            parts.len() as int,
        ).reasoning_closed().reasoning_part(x),
        s.contents(parts.push(x), parts.len() + 1int) == s.contents(
            parts,
            parts.len() as int,
        ).reasoning_closed().content_part(x),
        s.thoughts(parts, 0) == s,
        s.contents(parts, 0) == s,
{
    lemma_thoughts_prefix(s, parts, x, parts.len() as int);
    assert(parts.push(x)[parts.len() as int] == x);
}

/// A text is sorted into reasoning and content, and first the reasoning comes out of it, then the
/// content.
pub proof fn law_text_is_sorted(s: StepV, p: Seq<char>)
    ensures
        ({
            let f = super::fed(s.stream.think, p);
            s.text_part(p) == (StepV {
                stream: StreamV { think: f.think, ..s.stream },
                ..s
            }).thoughts(f.reasoning, f.reasoning.len() as int).contents(
                f.content,
                f.content.len() as int,
            )
        }),
{
    reveal(StepV::text_part);
}

/// The text is made of the white space that may stand before a thinking section.
pub open spec fn is_indent(s: Seq<char>) -> bool {
    forall|i: int|
        0 <= i < s.len() ==> #[trigger] s[i] == ' ' || s[i] == '\t' || s[i] == '\r' || s[i] == '\n'
}

proof fn lemma_indent_end(s: Seq<char>, n: int, i: int)
    requires
        0 <= i <= n <= s.len(),
        is_indent(s.take(n)),
        n < s.len() ==> !is_indent(seq![s[n]]),
    ensures
        super::blank_end(s, i) == n,
    decreases n - i,
{
    if i < n {
        assert(s.take(n)[i] == s[i]);
        lemma_indent_end(s, n, i + 1);
    } else if n < s.len() {
        assert(!super::is_blank(s[n]));
    }
}

/// At the start of a stream, what stands between the tags of a thinking section is reasoning, and
/// what stands behind it is content, however the text comes in pieces; white space before the
/// section is dropped. A text that begins otherwise is content, all of it.
pub proof fn law_thinking_tags(
    pieces: Seq<Seq<char>>,
    indent: Seq<char>,
    thought: Seq<char>,
    content: Seq<char>,
    other: Seq<char>,
)
    requires
        is_indent(indent),
    ensures
        ({
            let all = crate::text::concatenated(pieces);
            let r = super::thinking::sorted(StreamV::initial().think, pieces);
            let close = "</thinking>"@;
            &&& all == indent + "<thinking>"@ + thought + close + content && crate::text::found(
                thought + close + content,
                close,
            ) == Some(thought.len() as int) ==> r.reasoning == thought && r.content == content
            &&& all == indent + "<thinking>"@ + thought && !crate::text::has_text(thought, close)
                ==> r.reasoning == thought && r.content.len() == 0
            &&& all == indent + other && (other.len() > 0 ==> !is_indent(seq![other[0]]))
                && !crate::text::begins(other, "<thinking>"@) ==> r.reasoning.len() == 0
                && r.content == all
        }),
{
    let all = crate::text::concatenated(pieces);
    super::thinking::law_thinking_sections(pieces);
    let open = "<thinking>"@;
    let close = "</thinking>"@;
    reveal_strlit("<thinking>");
    reveal_strlit("</thinking>");
    let n = indent.len() as int;
    if all == indent + open + thought + close + content && crate::text::found(
        thought + close + content,
        close,
    ) == Some(thought.len() as int) {
        let inner = thought + close + content;
        assert(all.take(n) =~= indent);
        assert(all[n] == '<');
        assert(!is_indent(seq![all[n]])) by {
            assert(seq![all[n]][0] == '<');
        }
        lemma_indent_end(all, n, 0);
        assert(all.skip(n) =~= open + inner);
        crate::text_laws::law_begins_and_ends(open, inner, inner);
        assert((open + inner).skip(open.len() as int) =~= inner);
        assert(inner.take(thought.len() as int) =~= thought);
        assert(inner.skip(thought.len() as int + close.len()) =~= content);
    } else if all == indent + open + thought && !crate::text::has_text(thought, close) {
        assert(all.take(n) =~= indent);
        assert(all[n] == '<');
        assert(!is_indent(seq![all[n]])) by {
            assert(seq![all[n]][0] == '<');
        }
        lemma_indent_end(all, n, 0);
        assert(all.skip(n) =~= open + thought);
        crate::text_laws::law_begins_and_ends(open, thought, thought);
        assert((open + thought).skip(open.len() as int) =~= thought);
        crate::text_laws::law_found(thought, close);
    }
    if all == indent + other && (other.len() > 0 ==> !is_indent(seq![other[0]]))
        && !crate::text::begins(other, open) {
        assert(all.take(n) =~= indent);
        if other.len() > 0 {
            assert(all[n] == other[0]);
        }
        lemma_indent_end(all, n, 0);
        assert(all.skip(n) =~= other);
    }
}

/// A new stream has nothing: no event was counted, no item is open, and a thinking section may
/// start.
pub proof fn law_new_stream()
    ensures
        ({
            let st = StreamV::initial();
            &&& st.session.first_chunk && st.session.seq == 0 && st.session.finish_reason is None
            &&& !st.text.in_block && st.text.buf.len() == 0 && st.text.msg_id.len() == 0
            &&& st.text.current_output_index == 0
            &&& !st.reasoning.active && st.reasoning.buf.len() == 0 && !st.reasoning.part_added
            &&& st.reasoning.for_func_calls is None && st.reasoning.sequence == 0
            &&& !st.func.in_block && st.func.calls.len() == 0
            &&& st.usage.input == 0 && st.usage.output == 0 && st.usage.total == 0
            &&& st.usage.cached == 0 && st.usage.reasoning == 0
            &&& st.think.state == ThinkTagState::Before && st.think.can_start
            &&& st.think.buf.len() == 0 && st.think.leading_ws.len() == 0
        }),
{
}

/// What a line or a chunk comes to: the stream and its reasoning texts go on, and the client gets
/// each event of the step.
pub proof fn law_conversions(
    before: (StreamV, crate::converter::Entries),
    line: Seq<char>,
    chunk: ChunkV,
    request: JsonV,
    inject: bool,
    random: Seq<char>,
    time: i64,
    now: u128,
    after: (StreamV, crate::converter::Entries),
    out: Seq<Seq<char>>,
)
    ensures
        ({
            let step = StepV::start(before.0).line(line, request, inject, random, time);
            conversion::converts_line(
                before,
                line,
                request,
                inject,
                random,
                time,
                now,
                after,
                out,
            ) ==> {
                &&& after.0 == step.stream
                &&& after.1 == super::completion::kept(before.1, step.saves, now)
                &&& out.len() == step.events.len()
                &&& forall|i: int|
                    0 <= i < out.len() ==> #[trigger] out[i] == super::sse_text(
                        step.events[i].name,
                        crate::json::json_text(step.events[i].payload),
                    )
            }
        }),
        ({
            let step = StepV::start(before.0).chunk(chunk, random, time);
            conversion::converts_chunk(before, chunk, random, time, now, after, out) ==> {
                &&& after.0 == step.stream
                &&& after.1 == super::completion::kept(before.1, step.saves, now)
                &&& out.len() == step.events.len()
                &&& forall|i: int|
                    0 <= i < out.len() ==> #[trigger] out[i] == super::sse_text(
                        step.events[i].name,
                        crate::json::json_text(step.events[i].payload),
                    )
            }
        }),
        StepV::start(before.0).events.len() == 0,
        StepV::start(before.0).saves.len() == 0,
        StepV::start(before.0).stream == before.0,
{
}

proof fn lemma_overlap_is_prefix(s: Seq<char>, tag: Seq<char>, k: int)
    requires
        0 <= k <= s.len(),
        k <= tag.len(),
    ensures
        ({
            let m = super::overlap_from(s, tag, k);
            0 <= m <= k && s.skip(s.len() - m) == tag.take(m)
        }),
    decreases k,
{
    if k <= 0 {
        assert(s.skip(s.len() as int) =~= tag.take(0));
    } else if s.skip(s.len() - k) != tag.take(k) {
        lemma_overlap_is_prefix(s, tag, k - 1);
    }
}

/// Inside a thinking section all text is given out as reasoning but for as much of its end as the
/// closing tag may begin with; where the tag has come, all of it is, and what stands behind the
/// tag is content.
pub proof fn law_reasoning_is_not_held_back(t: ThinkV, s: Seq<char>)
    requires
        t.state == ThinkTagState::Inside,
        s.len() > 0,
    ensures
        ({
            let p = t.buf + s;
            let f = super::fed(t, s);
            let close = "</thinking>"@;
            let held = f.think.buf;
            &&& !crate::text::has_text(p, close) ==> {
                &&& f.think.state == ThinkTagState::Inside
                &&& f.content.len() == 0
                &&& crate::text::concatenated(f.reasoning) + held == p
                &&& held.len() < close.len()
                &&& held == close.take(held.len() as int)
                &&& forall|m: int|
                    held.len() < m <= p.len() && m < close.len() ==> p.skip(p.len() - m)
                        != #[trigger] close.take(m)
            }
            &&& crate::text::found(p, close) matches Some(i) ==> {
                &&& f.think.state == ThinkTagState::Done
                &&& held.len() == 0
                &&& crate::text::concatenated(f.reasoning) == p.take(i)
                &&& crate::text::concatenated(f.content) == p.skip(i + 11)
            }
        }),
{
    let p = t.buf + s;
    let f = super::fed(t, s);
    let close = "</thinking>"@;
    reveal_strlit("</thinking>");
    crate::text_laws::law_found(p, close);
    super::thinking::lemma_one(Seq::empty());
    let u = ThinkV { buf: Seq::empty(), ..t };
    assert(f == super::fed_inside(u, p));
    match crate::text::found(p, close) {
        Some(i) => {
            let rest = p.skip(i + close.len());
            super::thinking::lemma_one(p.take(i));
            super::thinking::lemma_one(rest);
            if i == 0 {
                assert(p.take(i) =~= Seq::<char>::empty());
            }
            if rest.len() == 0 {
                assert(rest =~= Seq::<char>::empty());
            }
        },
        None => {
            let most: int = if p.len() < close.len() - 1 {
                p.len() as int
            } else {
                close.len() - 1
            };
            let keep = super::overlap(p, close);
            assert(keep == super::overlap_from(p, close, most));
            lemma_overlap_is_prefix(p, close, most);
            assert forall|m: int| keep < m <= p.len() && m < close.len() implies p.skip(
                p.len() - m,
            ) != #[trigger] close.take(m) by {
                super::thinking::lemma_overlap(p, close, most, m);
            }
            super::thinking::lemma_one(p.take(p.len() - keep));
            assert(p.take(p.len() - keep) + p.skip(p.len() - keep) =~= p);
            if keep == 0 {
                assert(f.think.buf =~= close.take(0));
                assert(p.take(p.len() as int) =~= p);
            }
            if p.len() == keep {
                assert(p.skip(0) =~= p);
            }
        },
    }
}

/// Before a thinking section text waits while it may still begin one; where it cannot, it is given
/// out as content with the white space before it, and no section can start any more.
pub proof fn law_content_waits_for_section(
    t: ThinkV,
    s: Seq<char>,
    indent: Seq<char>,
    rest: Seq<char>,
)
    requires
        t.state == ThinkTagState::Before,
        t.can_start,
        s.len() > 0,
        t.buf + s == indent + rest,
        is_indent(indent),
        rest.len() > 0,
        !is_indent(seq![rest[0]]),
        !crate::text::begins(rest, "<thinking>"@),
    ensures
        ({
            let f = super::fed(t, s);
            let open = "<thinking>"@;
            let waits = !crate::text::has_text(rest, open) && (crate::text::byte_len(rest)
                >= crate::text::byte_len(open) || crate::text::begins(open, rest));
            &&& f.reasoning.len() == 0
            &&& f.think.state == ThinkTagState::Before
            &&& waits ==> {
                &&& f.content.len() == 0
                &&& f.think.buf == rest
                &&& f.think.leading_ws == t.leading_ws + indent
                &&& f.think.can_start
            }
            &&& !waits ==> {
                &&& crate::text::concatenated(f.content) == t.leading_ws + indent + rest
                &&& f.think.buf.len() == 0
                &&& f.think.leading_ws.len() == 0
                &&& !f.think.can_start
            }
        }),
{
    let p = t.buf + s;
    let open = "<thinking>"@;
    let n = indent.len() as int;
    let u = ThinkV { buf: Seq::empty(), ..t };
    assert(p.take(n) =~= indent);
    assert(p[n] == rest[0]);
    lemma_indent_end(p, n, 0);
    assert(p.skip(n) =~= rest);
    assert(super::fed(t, s) == super::fed_before(u, p));
    crate::text_laws::law_found(rest, open);
    super::thinking::lemma_released(t.leading_ws + indent, rest);
}

} // verus!

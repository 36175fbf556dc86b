//! What the client is told.

use vstd::prelude::*;
use vstd::string::*;
use vstd::utf8::*;

use super::{PreflightEvent, PreflightV, ProgressV, Surroundings};
use crate::config;
use crate::converter::response;
use crate::converter::stream;
use crate::converter::stream::completion;
use crate::converter::stream::StepV;
use crate::json;
use crate::json::JsonV;
use crate::names;
use crate::text;
use crate::text_laws;
use crate::types::chat;

verus! {

// ---------------------------------------------------------------------------------------------
// Requests and replies
// ---------------------------------------------------------------------------------------------

/// An error names its type and what went wrong.
pub proof fn law_error_document(message: Seq<char>)
    ensures
        ({
            &&& super::error_json(message).get("error"@) matches Some(e)
            &&& e.text_at("type"@) == Some("api_error"@)
            &&& e.text_at("message"@) == Some(message)
        }),
{
    names::lemma_names();
}

/// A stream is asked for where the request says so, and only there.
pub proof fn law_stream_is_asked_for(request: JsonV)
    ensures
        super::asks_stream(request) <==> request.get("stream"@) == Some(JsonV::Bool(true)),
{
}

/// A model goes by the name that is set for it, or else by its own.
pub proof fn law_model_is_mapped(request: JsonV, mapping: Map<Seq<char>, Seq<char>>)
    ensures
        ({
            let r = super::asked_model(request, mapping);
            let model = if request.text_at("model"@) is Some {
                request.text_at("model"@)->0
            } else {
                Seq::empty()
            };
            &&& mapping.contains_key(model) ==> r == mapping[model]
            &&& !mapping.contains_key(model) ==> r == model
            &&& r == config::mapped(mapping, model)
        }),
{
}

/// A request is refused for one of two reasons.
pub proof fn law_refusal(body: Seq<u8>, complaint: Seq<char>)
    ensures
        body.len() == 0 ==> super::refusal(body) == "Request body cannot be empty"@,
        body.len() > 0 && json::json_read(body) == Err::<JsonV, Seq<char>>(complaint)
            ==> super::refusal(body) == "Invalid request JSON: "@ + complaint,
{
}

/// Which statuses report an error.
pub proof fn law_error_statuses(status: u16)
    ensures
        status < 400 ==> !super::reports_error(status),
        400 <= status <= 599 ==> super::reports_error(status),
        status > 599 ==> !super::reports_error(status),
{
}

/// A reply is converted where it is no error and holds a chat completion, and passed on as it came
/// otherwise.
pub proof fn law_reply(
    status: u16,
    body: Seq<u8>,
    request: JsonV,
    model: Seq<char>,
    random: Seq<char>,
    time: i64,
)
    ensures
        ({
            let r = super::reply_for(status, body, request, model, random, time);
            &&& 400 <= status <= 599 ==> r is None
            &&& json::json_read(body) is Err ==> r is None
            &&& !(400 <= status <= 599) ==> (json::json_read(body) matches Ok(v) ==> match chat::chat_of(
                v,
            ) {
                Some(c) => r == Some(
                    encode_utf8(
                        json::json_text(
                            response::response_of(c, request, Some(model), random, time).json(),
                        ),
                    ),
                ),
                None => r is None,
            })
        }),
{
}

// ---------------------------------------------------------------------------------------------
// Before a stream
// ---------------------------------------------------------------------------------------------

/// A refusal names its kind, its reason and its status.
pub open spec fn refuses(r: Option<PreflightV>, kind: Seq<char>, status: u16) -> bool {
    r matches Some(p) && p.detection_type == kind && p.status_code == status
}

/// The text speaks of a key that is not accepted.
pub open spec fn rejects_key(lower: Seq<char>) -> bool {
    ||| text::has_text(lower, "invalid_api_key"@)
    ||| text::has_text(lower, "authentication_error"@)
    ||| text::has_text(lower, "unauthorized"@)
    ||| text::has_text(lower, "401"@)
    ||| (text::has_text(lower, "api key"@) && text::has_text(lower, "invalid"@))
}

/// The text speaks of a limit that was reached.
pub open spec fn reaches_limit(lower: Seq<char>) -> bool {
    ||| text::has_text(lower, "insufficient_quota"@)
    ||| text::has_text(lower, "quota_exceeded"@)
    ||| text::has_text(lower, "rate_limit"@)
    ||| (text::has_text(lower, "billing"@) && text::has_text(lower, "error"@))
}

/// The text speaks of function calls that cannot be read.
pub open spec fn breaks_calls(lower: Seq<char>) -> bool {
    text::has_text(lower, "tool_calls"@) && (text::has_text(lower, "malformed"@) || text::has_text(
        lower,
        "parse_error"@,
    ))
}

/// Why a stream is refused by its first data, and with which status; other data are let through.
pub proof fn law_first_data(s: Seq<char>, lower: Seq<char>)
    ensures
        ({
            let r = super::chunk_detection(s, lower);
            let empty = text::trimmed(s).len() == 0 || text::trimmed(s) == seq!['{', '}'];
            &&& empty ==> refuses(r, "empty_response"@, 502) && (r->0).reason
                == "Upstream returned empty response or empty object, content length: "@
                + text::decimal(text::byte_len(s) as int)
            &&& !empty && rejects_key(lower) ==> refuses(r, "auth_error"@, 502) && (r->0).reason
                == "Upstream returned authentication error, API key invalid or expired"@
            &&& !empty && !rejects_key(lower) && reaches_limit(lower) ==> refuses(
                r,
                "quota_error"@,
                429,
            ) && (r->0).reason == "Upstream returned quota exceeded or rate limit error"@
            &&& !empty && !rejects_key(lower) && !reaches_limit(lower) && breaks_calls(lower)
                ==> refuses(r, "malformed_tool_call"@, 500) && (r->0).reason
                == "Upstream returned malformed tool call format"@
            &&& !empty && !rejects_key(lower) && !reaches_limit(lower) && !breaks_calls(lower)
                ==> r is None
        }),
{
    reveal_strlit("{}");
    assert("{}"@ =~= seq!['{', '}']);
}

/// Why a stream is refused, and with which status, where no data came.
pub proof fn law_no_data(event: PreflightEvent)
    ensures
        ({
            let r = super::detection(event);
            &&& event is Ended ==> refuses(r, "immediate_stream_end"@, 502) && (r->0).reason
                == "Upstream stream ended immediately during preflight, no data"@
            &&& event matches PreflightEvent::Failed(e) ==> refuses(
                r,
                "stream_read_error"@,
                502,
            ) && (r->0).reason == "Failed to read upstream stream: "@ + e@
            &&& event matches PreflightEvent::TimedOut(n) ==> refuses(
                r,
                "preflight_timeout"@,
                504,
            ) && (r->0).reason == "Preflight timeout ("@ + text::decimal(n as int)
                + "s), upstream response too slow"@
            &&& event matches PreflightEvent::Chunk(s) ==> r == super::chunk_detection(
                s@,
                super::lower_case(s@),
            )
        }),
{
}

/// The document for a refusal says why, with which status, and which refusal it is.
pub proof fn law_refusal_document(p: PreflightV, id: Seq<char>)
    ensures
        ({
            let j = super::preflight_error_json(p, id);
            &&& j.text_at("type"@) == Some("error"@)
            &&& j.text_at("id"@) == Some(id)
            &&& j.get("error"@) matches Some(e)
            &&& e.text_at("type"@) == Some(p.detection_type)
            &&& e.text_at("message"@) == Some(p.reason)
            &&& e.get("code"@) == Some(JsonV::Int(p.status_code as int))
        }),
{
    names::lemma_names();
}

/// A hyphenated identifier keeps every character in order, with hyphens behind the eighth, the
/// twelfth, the sixteenth and the twentieth.
pub proof fn law_hyphenated(id: Seq<char>, i: int)
    requires
        id.len() == 32,
        0 <= i < 32,
    ensures
        ({
            let r = super::hyphenated(id);
            let shift: int = if i < 8 {
                0
            } else if i < 12 {
                1
            } else if i < 16 {
                2
            } else if i < 20 {
                3
            } else {
                4
            };
            &&& r.len() == 36
            &&& r[i + shift] == id[i]
            &&& r[8] == '-' && r[13] == '-' && r[18] == '-' && r[23] == '-'
        }),
{
    reveal_strlit("-");
}

/// A failure that says that the client has left.
pub proof fn law_client_left(message: Seq<char>)
    ensures
        ({
            let lower = text::ascii_lowered(message);
            super::says_client_left(message) <==> {
                ||| text::has_text(lower, "connection reset"@)
                ||| text::has_text(lower, "broken pipe"@)
                ||| text::has_text(lower, "client disconnected"@)
                ||| text::has_text(lower, "aborted"@)
            }
        }),
{
}

// ---------------------------------------------------------------------------------------------
// During a stream
// ---------------------------------------------------------------------------------------------

/// An event on the wire: its name, its payload and an empty line.
pub proof fn law_wire(events: Seq<stream::EventV>, i: int)
    requires
        0 <= i < events.len(),
    ensures
        stream::wire(events).len() == events.len(),
        stream::wire(events)[i] == seq!['e', 'v', 'e', 'n', 't', ':', ' '] + events[i].name + seq![
            '\n',
            'd',
            'a',
            't',
            'a',
            ':',
            ' ',
        ] + json::json_text(events[i].payload) + seq!['\n', '\n'],
{
    reveal_strlit("event: ");
    reveal_strlit("\ndata: ");
    reveal_strlit("\n\n");
    assert("event: "@ =~= seq!['e', 'v', 'e', 'n', 't', ':', ' ']);
    assert("\ndata: "@ =~= seq!['\n', 'd', 'a', 't', 'a', ':', ' ']);
    assert("\n\n"@ =~= seq!['\n', '\n']);
}

/// One of the events speaks of the end of the response.
pub open spec fn mentions_end(events: Seq<Seq<char>>) -> bool {
    exists|i: int|
        0 <= i < events.len() && text::has_text(#[trigger] events[i], "response.completed"@)
}

/// A line adds its events, and its reasoning texts to the store; the end of the response is noted
/// where an event speaks of it.
pub proof fn law_line_adds(p: ProgressV, line: Seq<char>, env: Surroundings)
    ensures
        ({
            let st = if p.state is Some {
                p.state->0
            } else {
                stream::StreamV::initial()
            };
            let step = StepV::start(st).line(
                line,
                env.request,
                env.inject,
                env.random,
                env.time,
            );
            let more = stream::wire(step.events);
            let b = p.line(line, env);
            &&& b.state == Some(step.stream)
            &&& b.events == p.events + more
            &&& b.store == completion::kept(p.store, step.saves, env.now)
            &&& b.completed_sent <==> (p.completed_sent || mentions_end(more))
        }),
{
    let st = if p.state is Some {
        p.state->0
    } else {
        stream::StreamV::initial()
    };
    assert(super::or_initial(p.state) == st);
    let step = StepV::start(st).line(line, env.request, env.inject, env.random, env.time);
    let more = stream::wire(step.events);
    let b = p.line(line, env);
    assert(b.completed_sent == (p.completed_sent || super::tells_completion(more)));
    assert(super::tells_completion(more) == mentions_end(more));
}

proof fn lemma_lines_prefix(
    p: ProgressV,
    lines: Seq<Seq<char>>,
    x: Seq<char>,
    n: int,
    env: Surroundings,
)
    requires
        n <= lines.len(),
    ensures
        p.lines(lines.push(x), n, env) == p.lines(lines, n, env),
    decreases n,
{
    if n > 0 {
        lemma_lines_prefix(p, lines, x, n - 1, env);
        assert(lines.push(x)[n - 1] == lines[n - 1]);
    }
}

/// Lines count one by one.
pub proof fn law_lines_count_one_by_one(
    p: ProgressV,
    lines: Seq<Seq<char>>,
    x: Seq<char>,
    env: Surroundings,
)
    ensures
        p.lines(lines.push(x), lines.len() + 1int, env) == p.lines(
            lines,
            lines.len() as int,
            env,
        ).line(x, env),
        p.lines(lines, 0, env) == p,
{
    lemma_lines_prefix(p, lines, x, lines.len() as int, env);
    assert(lines.push(x)[lines.len() as int] == x);
}

/// What is handed on for events: nothing for none, else all of them in order.
pub proof fn law_events_are_joined(events: Seq<Seq<char>>, e: Seq<char>)
    ensures
        super::joined_events(Seq::empty()) is None,
        super::joined_events(seq![e]) == Some(e),
        events.len() > 0 ==> super::joined_events(events.push(e)) == Some(
            super::joined_events(events)->0 + e,
        ),
{
    text_laws::law_joined(events, e, Seq::empty());
    text_laws::law_joined(Seq::empty(), e, Seq::empty());
    assert(Seq::<Seq<char>>::empty().push(e) =~= seq![e]);
    assert(text::concatenated(Seq::empty()) + e =~= e);
}

/// The lines that data complete, and what is left: with a line feed at the end, all lines and
/// nothing; otherwise all but the last, which is left.
pub proof fn law_complete_lines(partial: Seq<char>, s: Seq<char>)
    ensures
        super::complete_lines(partial, s, true).0 == text::lines(partial + s),
        super::complete_lines(partial, s, true).1.len() == 0,
        text::lines(partial + s).len() == 0 ==> super::complete_lines(partial, s, false).0.len()
            == 0 && super::complete_lines(partial, s, false).1.len() == 0,
        text::lines(partial + s).len() > 0 ==> super::complete_lines(partial, s, false).0.push(
            super::complete_lines(partial, s, false).1,
        ) == text::lines(partial + s),
{
    let all = text::lines(partial + s);
    if all.len() > 0 {
        assert(all.drop_last().push(all.last()) =~= all);
    }
}

/// A request that is ready for the upstream API: it keeps what the client sent, and its body asks
/// for the model under its mapped name, for a stream where the client did, and for the messages
/// that the input comes to.
pub proof fn law_request_is_prepared(
    p: super::PreparedRequest,
    root: JsonV,
    mapping: Map<Seq<char>, Seq<char>>,
    store: crate::converter::Entries,
    now: u128,
)
    requires
        super::prepared(p, root, mapping, store, now),
    ensures
        p.original@ == root,
        p.is_stream <==> root.get("stream"@) == Some(JsonV::Bool(true)),
        root.text_at("model"@) matches Some(m) ==> if mapping.contains_key(m) {
            p.mapped_model@ == mapping[m]
        } else {
            p.mapped_model@ == m
        },
        p.body@ == encode_utf8(
            json::json_text(
                crate::converter::request::chat_request(
                    root,
                    p.mapped_model@,
                    p.is_stream,
                    crate::converter::request::request_messages(root, store, now).0,
                ),
            ),
        ),
{
}

/// Text that comes in is cut into lines; each complete line counts, and the rest waits.
pub proof fn law_text_is_fed(
    before: (super::PumpV, crate::converter::Entries),
    s: Seq<char>,
    ends_with_newline: bool,
    env: Surroundings,
    after: (super::PumpV, crate::converter::Entries),
    out: Option<Seq<char>>,
)
    requires
        super::feeds(before, s, ends_with_newline, env, after, out),
    ensures
        ({
            let all = text::lines(before.0.partial + s);
            let n: int = if ends_with_newline || all.len() == 0 {
                all.len() as int
            } else {
                all.len() - 1
            };
            let p = (ProgressV {
                state: before.0.state,
                completed_sent: before.0.completed_sent,
                store: before.1,
                events: Seq::empty(),
            }).lines(all, n, env);
            &&& after.0.state == p.state
            &&& after.0.completed_sent == p.completed_sent
            &&& n < all.len() ==> after.0.partial == all[n]
            &&& n == all.len() ==> after.0.partial.len() == 0
            &&& after.0.ended == before.0.ended
            &&& after.0.undecoded == before.0.undecoded
            &&& after.1 == p.store
            &&& p.events.len() == 0 ==> out is None
            &&& p.events.len() > 0 ==> out == Some(text::concatenated(p.events))
        }),
{
    let all = text::lines(before.0.partial + s);
    let (lines, rest) = super::complete_lines(before.0.partial, s, ends_with_newline);
    let start = ProgressV {
        state: before.0.state,
        completed_sent: before.0.completed_sent,
        store: before.1,
        events: Seq::empty(),
    };
    if !ends_with_newline && all.len() > 0 {
        assert(lines.push(all.last()) =~= all);
        lemma_lines_prefix(start, lines, all.last(), lines.len() as int, env);
    }
}

/// Bytes that come in are read as text, up to the last character that is complete; the bytes of
/// one that is not wait. Lines are complete where the last byte is a line feed.
pub proof fn law_bytes_are_fed(
    before: (super::PumpV, crate::converter::Entries),
    bytes: Seq<u8>,
    env: Surroundings,
    after: (super::PumpV, crate::converter::Entries),
    out: Option<Seq<char>>,
)
    requires
        super::feeds_bytes(before, bytes, env, after, out),
    ensures
        ({
            let all = before.0.undecoded + bytes;
            let held = after.0.undecoded;
            &&& held.len() == crate::utf8_stream::unfinished(all)
            &&& all.take(all.len() - held.len()) + held == all
            &&& super::feeds(
                (super::PumpV { undecoded: held, ..before.0 }, before.1),
                crate::utf8_stream::text_in(all.take(all.len() - held.len())),
                bytes.len() > 0 && bytes[bytes.len() - 1] == 10,
                env,
                after,
                out,
            )
        }),
{
    let all = before.0.undecoded + bytes;
    let cut = all.len() - crate::utf8_stream::unfinished(all);
    assert(all.take(cut) + all.skip(cut) =~= all);
}

/// A stream that ends without having told of its end gives out what is left, once: the rest of its
/// events where a line has come, and nothing otherwise.
pub proof fn law_stream_is_finished(
    before: (super::PumpV, crate::converter::Entries),
    request: JsonV,
    inject: bool,
    now: u128,
    after: (super::PumpV, crate::converter::Entries),
    out: Option<Seq<char>>,
)
    requires
        super::finishes(before, request, inject, now, after, out),
    ensures
        after.0.ended,
        after.0.completed_sent == before.0.completed_sent,
        after.0.partial == before.0.partial,
        (before.0.completed_sent || before.0.ended || before.0.state is None) ==> out is None
            && after.1 == before.1 && after.0.state == before.0.state,
        !before.0.completed_sent && !before.0.ended ==> (before.0.state matches Some(st) ==> {
            let step = StepV::start(st).completed(request, inject);
            &&& out == Some(text::concatenated(stream::wire(step.events)))
            &&& after.0.state == Some(step.stream)
            &&& after.1 == completion::kept(before.1, step.saves, now)
        }),
{
}

} // verus!

//! The end of a stream.

use vstd::prelude::*;
use vstd::string::*;

use super::handlers;
use super::handlers::{
    close_func_blocks, close_reasoning_block, close_text_block, make_call_item, make_message_item,
    make_message_parts, make_numbered_id, make_reasoning_item, make_summary_text,
};
use super::{Counts, Outbox, StepV, StreamState, StreamV, TextV};
use crate::converter;
use crate::converter::{Entries, ReasoningStore};
use crate::json;
use crate::json::{Json, JsonV};
use crate::text;
use crate::text::{byte_count, chars_of, find_last_chars, same, text_of, trim};

verus! {

// ---------------------------------------------------------------------------------------------
// A summary of the reasoning
// ---------------------------------------------------------------------------------------------

/// The largest size of a summary, in bytes.
pub const MAX_REASONING_SUMMARY_LENGTH: usize = 500;

/// The number of characters of `s`, at least `k`, that fit into a summary.
pub open spec fn fitting_from(s: Seq<char>, k: int) -> int
    decreases s.len() - k,
{
    if 0 <= k < s.len() && text::byte_len(s.take(k + 1)) <= MAX_REASONING_SUMMARY_LENGTH {
        fitting_from(s, k + 1)
    } else {
        k
    }
}

/// The later of two places to cut: `best`, and the last `sep` in `s`. A place is a position and
/// the length of what stands there.
pub open spec fn later_cut(
    best: Option<(int, int)>,
    s: Seq<char>,
    sep: Seq<char>,
) -> Option<(int, int)> {
    match text::found_last(s, sep) {
        Some(p) => if best is None || p > (best->0).0 {
            Some((p, sep.len() as int))
        } else {
            best
        },
        None => best,
    }
}

/// The last place in `s` at which a line, a sentence, a clause or a word ends.
pub open spec fn last_cut(s: Seq<char>) -> Option<(int, int)> {
    let a = later_cut(None, s, "\n"@);
    let b = later_cut(a, s, "。"@);
    let c = later_cut(b, s, ". "@);
    let d = later_cut(c, s, ","@);
    let e = later_cut(d, s, "，"@);
    later_cut(e, s, " "@)
}

/// The summary of a reasoning text: all of it where it fits, else its beginning, which ends at
/// the last place that suits.
pub open spec fn summary_of(reasoning: Seq<char>) -> Seq<char> {
    let t = text::trimmed(reasoning);
    if text::byte_len(t) <= MAX_REASONING_SUMMARY_LENGTH {
        t
    } else {
        let head = t.take(fitting_from(t, 0));
        match last_cut(head) {
            Some((p, n)) => if p > 0 {
                text::trimmed(head.take(p + n))
            } else {
                head
            },
            None => head,
        }
    }
}

proof fn lemma_found_back(s: Seq<char>, pat: Seq<char>, i: int)
    requires
        i + pat.len() <= s.len(),
    ensures
        text::found_back(s, pat, i) matches Some(p) ==> 0 <= p && p + pat.len() <= s.len(),
    decreases i + 1,
{
    if i >= 0 {
        lemma_found_back(s, pat, i - 1);
    }
}

/// A place to cut lies in the text.
spec fn cut_fits(best: Option<(int, int)>, s: Seq<char>) -> bool {
    best matches Some(b) ==> 0 <= b.0 && 0 <= b.1 && b.0 + b.1 <= s.len()
}

spec fn cut_model(best: Option<(usize, usize)>) -> Option<(int, int)> {
    match best {
        Some(b) => Some((b.0 as int, b.1 as int)),
        None => None,
    }
}

fn find_later_cut(
    best: Option<(usize, usize)>,
    s: &Vec<char>,
    sep: &str,
) -> (r: Option<(usize, usize)>)
    requires
        cut_fits(cut_model(best), s@),
    ensures
        cut_model(r) == later_cut(cut_model(best), s@, sep@),
        cut_fits(cut_model(r), s@),
{
    let pat = chars_of(sep);
    proof {
        lemma_found_back(s@, pat@, s@.len() - pat@.len());
    }
    match find_last_chars(s, &pat) {
        Some(p) => {
            let later: bool = match best {
                Some(b) => p > b.0,
                None => true,
            };
            if later {
                Some((p, pat.len()))
            } else {
                best
            }
        },
        None => best,
    }
}

fn extract_summary_from_reasoning(reasoning: &str) -> (r: String)
    ensures
        r@ == summary_of(reasoning@),
{
    let trimmed = trim(reasoning);
    if byte_count(trimmed.as_str()) <= MAX_REASONING_SUMMARY_LENGTH {
        return trimmed;
    }
    let v = chars_of(trimmed.as_str());
    let mut n: usize = 0;
    let mut head = text_of(&v, 0, 0);
    assert(v@.take(0) =~= head@);
    while n < v.len()
        invariant_except_break
            fitting_from(v@, 0) == fitting_from(v@, n as int),
        invariant
            n <= v@.len(),
            head@ == v@.take(n as int),
        ensures
            n == fitting_from(v@, 0),
        decreases v@.len() - n,
    {
        let more = text_of(&v, 0, n + 1);
        assert(more@ =~= v@.take(n + 1));
        if byte_count(more.as_str()) > MAX_REASONING_SUMMARY_LENGTH {
            break;
        }
        head = more;
        n += 1;
    }
    let h = chars_of(head.as_str());
    let a = find_later_cut(None, &h, "\n");
    let b = find_later_cut(a, &h, "。");
    let c = find_later_cut(b, &h, ". ");
    let d = find_later_cut(c, &h, ",");
    let e = find_later_cut(d, &h, "，");
    match find_later_cut(e, &h, " ") {
        Some((p, len)) => if p > 0 {
            let cut = text_of(&h, 0, p + len);
            assert(cut@ =~= h@.take(p + len));
            trim(cut.as_str())
        } else {
            head
        },
        None => head,
    }
}

// ---------------------------------------------------------------------------------------------
// The completed response
// ---------------------------------------------------------------------------------------------

/// Whether the choice ended because the output was as long as allowed.
pub open spec fn cut_short(st: StreamV) -> bool {
    st.session.finish_reason == Some("length"@)
}

/// The text member of that name as a value.
pub open spec fn text_value(v: JsonV, key: Seq<char>) -> Option<JsonV> {
    match v.text_at(key) {
        Some(s) => Some(JsonV::Text(s)),
        None => None,
    }
}

/// The response with what the request asked for.
pub open spec fn echoing(response: JsonV, request: JsonV) -> JsonV {
    response.with_some("instructions"@, text_value(request, "instructions"@)).with_some(
        "model"@,
        request.get("model"@),
    ).with_some("max_output_tokens"@, request.get("max_output_tokens"@)).with_some(
        "parallel_tool_calls"@,
        request.get("parallel_tool_calls"@),
    ).with_some("previous_response_id"@, request.get("previous_response_id"@)).with_some(
        "temperature"@,
        request.get("temperature"@),
    ).with_some("tool_choice"@, request.get("tool_choice"@)).with_some(
        "tools"@,
        request.get("tools"@),
    ).with_some("top_p"@, request.get("top_p"@)).with_some(
        "reasoning"@,
        request.get("reasoning"@),
    ).with_some("metadata"@, request.get("metadata"@))
}

/// The function calls as output items.
pub open spec fn call_items(st: StreamV) -> Seq<JsonV> {
    Seq::new(
        st.func.calls.len(),
        |k: int|
            handlers::call_item(
                st.func.calls[k].call_id,
                st.func.calls[k].name,
                "completed"@,
                st.func.calls[k].args,
            ),
    )
}

/// The reasoning as output items.
pub open spec fn reasoning_items(st: StreamV) -> Seq<JsonV> {
    if st.reasoning.buf.len() > 0 || st.reasoning.part_added {
        seq![
            handlers::reasoning_item(
                st.reasoning.item_id,
                "completed"@,
                seq![handlers::summary_text(st.reasoning.buf)],
            ),
        ]
    } else {
        Seq::empty()
    }
}

/// The message as output items.
pub open spec fn message_items(st: StreamV) -> Seq<JsonV> {
    if st.text.buf.len() > 0 || st.text.msg_id.len() > 0 {
        seq![
            handlers::message_item(
                st.text.msg_id,
                "completed"@,
                handlers::message_parts(st.text.buf),
            ),
        ]
    } else {
        Seq::empty()
    }
}

/// The output items of a stream: reasoning, message, function calls.
pub open spec fn output_items(st: StreamV) -> Seq<JsonV> {
    reasoning_items(st) + message_items(st) + call_items(st)
}

/// The input tokens that did not come from a cache.
pub open spec fn actual_input(u: Counts) -> i64 {
    if u.cached > 0 {
        let d = u.input.wrapping_sub(u.cached);
        if d > 0 {
            d
        } else {
            0
        }
    } else {
        u.input
    }
}

/// All tokens: what was reported, unless nothing was, or a cache took part.
pub open spec fn total_tokens(u: Counts) -> i64 {
    if u.total == 0 || u.cached > 0 {
        actual_input(u).wrapping_add(u.output).wrapping_add(u.cached)
    } else {
        u.total
    }
}

/// The tokens of the reasoning: what was reported, or an estimate.
pub open spec fn reasoning_tokens(st: StreamV) -> int {
    if st.usage.reasoning == 0 && st.reasoning.buf.len() > 0 {
        text::byte_len(st.reasoning.buf) as int / 4
    } else {
        st.usage.reasoning as int
    }
}

/// One member where `n` is positive.
pub open spec fn if_positive(n: int, v: JsonV) -> Option<JsonV> {
    if n > 0 {
        Some(v)
    } else {
        None
    }
}

/// The usage of a stream.
pub open spec fn usage_json(st: StreamV) -> JsonV {
    let cached = st.usage.cached as int;
    let reasoning = reasoning_tokens(st);
    JsonV::object().with("input_tokens"@, JsonV::Int(actual_input(st.usage) as int)).with(
        "output_tokens"@,
        JsonV::Int(st.usage.output as int),
    ).with("total_tokens"@, JsonV::Int(total_tokens(st.usage) as int)).with_some(
        "input_tokens_details"@,
        if_positive(cached, JsonV::object().with("cached_tokens"@, JsonV::Int(cached))),
    ).with_some(
        "output_tokens_details"@,
        if_positive(reasoning, JsonV::object().with("reasoning_tokens"@, JsonV::Int(reasoning))),
    ).with_some("cache_read_input_tokens"@, if_positive(cached, JsonV::Int(cached)))
}

/// The response that a stream has come to.
pub open spec fn completed_response(st: StreamV, request: JsonV) -> JsonV {
    let head = JsonV::object().with("id"@, JsonV::Text(st.session.response_id)).with(
        "object"@,
        JsonV::Text("response"@),
    ).with("created_at"@, JsonV::Int(st.session.created_at as int)).with(
        "status"@,
        JsonV::Text(
            if cut_short(st) {
                "incomplete"@
            } else {
                "completed"@
            },
        ),
    ).with("background"@, JsonV::Bool(false)).with("error"@, JsonV::Null).with_some(
        "incomplete_details"@,
        if cut_short(st) {
            Some(JsonV::object().with("reason"@, JsonV::Text("max_output_tokens"@)))
        } else {
            None
        },
    );
    echoing(head, request).with_some(
        "output"@,
        if output_items(st).len() > 0 {
            Some(JsonV::Array(output_items(st)))
        } else {
            None
        },
    ).with("usage"@, usage_json(st))
}

/// The input tokens of a stream, ten at least.
pub open spec fn estimated_input(st: StreamV) -> i64 {
    if st.usage.input > 10 {
        st.usage.input
    } else {
        10
    }
}

/// The output tokens of a stream, from the length of its message: one for four bytes, and one at
/// least.
pub open spec fn estimated_output(st: StreamV) -> int {
    let n = text::byte_len(st.text.buf) as int / 4;
    if n > 1 {
        n
    } else {
        1
    }
}

/// The reasoning tokens of a stream, from the length of its reasoning: one for four bytes.
pub open spec fn estimated_reasoning(st: StreamV) -> int {
    text::byte_len(st.reasoning.buf) as int / 4
}

/// An estimate of the usage of a stream.
pub open spec fn estimated_usage(st: StreamV) -> JsonV {
    let output = estimated_output(st) as i64;
    let reasoning = estimated_reasoning(st) as i64;
    JsonV::object().with("input_tokens"@, JsonV::Int(estimated_input(st) as int)).with(
        "output_tokens"@,
        JsonV::Int(output as int),
    ).with(
        "total_tokens"@,
        JsonV::Int(
            estimated_input(st).wrapping_add(output).wrapping_add(reasoning) as int,
        ),
    ).with_some(
        "output_tokens_details"@,
        if_positive(
            reasoning as int,
            JsonV::object().with("reasoning_tokens"@, JsonV::Int(reasoning as int)),
        ),
    )
}

/// The response reports output tokens.
pub open spec fn reports_output(response: JsonV) -> bool {
    match response.get("usage"@) {
        Some(u) => match u.get("output_tokens"@) {
            Some(n) => n.as_i64() matches Some(i) && i > 0,
            None => false,
        },
        None => false,
    }
}

/// The response with estimates, where it reports no output tokens.
pub open spec fn usage_injected(response: JsonV, st: StreamV) -> JsonV {
    if reports_output(response) {
        response
    } else {
        response.with("usage"@, estimated_usage(st))
    }
}

impl StepV {
    /// The step with a message made up from the reasoning, where there is none.
    pub open spec fn synthesized(self) -> StepV {
        let summary = summary_of(self.stream.reasoning.buf);
        if self.stream.synthesizes() && summary.len() > 0 {
            let i = self.stream.text.current_output_index;
            StepV {
                stream: StreamV {
                    text: TextV {
                        in_block: true,
                        buf: summary,
                        msg_id: handlers::numbered_id(
                            "msg_"@,
                            self.stream.session.response_id,
                            i,
                        ),
                        msg_output_index: i,
                        current_output_index: super::following(i),
                    },
                    ..self.stream
                },
                ..self
            }
        } else {
            self
        }
    }

    /// The step with everything closed that was open.
    #[verifier::opaque]
    pub open spec fn all_closed(self) -> StepV {
        let s = self.reasoning_closed().text_closed();
        if s.stream.func.in_block {
            s.funcs_closed()
        } else {
            s
        }
    }

    /// The step after the end of the stream. With `inject`, estimates take the place of token
    /// counts that were not reported.
    #[verifier::opaque]
    pub open spec fn completed(self, request: JsonV, inject: bool) -> StepV {
        let s = self.synthesized().all_closed();
        let response = completed_response(s.stream, request);
        s.emit(
            "response.completed"@,
            JsonV::object().with(
                "response"@,
                if inject {
                    usage_injected(response, s.stream)
                } else {
                    response
                },
            ),
        )
    }
}

/// What a store holds after these reasoning texts were kept at `now`.
pub open spec fn kept(m: Entries, saves: Seq<(Seq<char>, Seq<char>)>, now: u128) -> Entries
    decreases saves.len(),
{
    if saves.len() == 0 {
        m
    } else {
        converter::stored(
            kept(m, saves.drop_last(), now),
            saves.last().0,
            saves.last().1,
            now,
        )
    }
}

/// The value with that member of the request, where the request has it.
fn with_member(response: Json, request: &Json, key: &str) -> (r: Json)
    ensures
        r@ == response@.with_some(key@, request@.get(key@)),
{
    match request.get(key) {
        Some(v) => response.with(key, v.clone()),
        None => response,
    }
}

fn echo(response: Json, request: &Json) -> (r: Json)
    ensures
        r@ == echoing(response@, request@),
{
    let r = match request.text_at("instructions") {
        Some(s) => response.with("instructions", Json::text(s)),
        None => response,
    };
    let r = with_member(r, request, "model");
    let r = with_member(r, request, "max_output_tokens");
    let r = with_member(r, request, "parallel_tool_calls");
    let r = with_member(r, request, "previous_response_id");
    let r = with_member(r, request, "temperature");
    let r = with_member(r, request, "tool_choice");
    let r = with_member(r, request, "tools");
    let r = with_member(r, request, "top_p");
    let r = with_member(r, request, "reasoning");
    with_member(r, request, "metadata")
}

fn make_output_items(st: &StreamState) -> (r: Vec<Json>)
    ensures
        json::items_view(r@) == output_items(st@),
{
    let ghost model = st@;
    let mut r: Vec<Json> = Vec::new();
    if !st.reasoning.buf.as_str().is_empty() || st.reasoning.part_added {
        r.push(
            make_reasoning_item(
                st.reasoning.item_id.as_str(),
                "completed",
                Json::singleton(make_summary_text(st.reasoning.buf.as_str())),
            ),
        );
    }
    assert(json::items_view(r@) =~= reasoning_items(model));
    let ghost first = r@;
    if !st.text.buf.as_str().is_empty() || !st.text.msg_id.as_str().is_empty() {
        r.push(
            make_message_item(
                st.text.msg_id.as_str(),
                "completed",
                make_message_parts(st.text.buf.as_str()),
            ),
        );
    }
    assert(json::items_view(r@) =~= reasoning_items(model) + message_items(model));
    let ghost head = reasoning_items(model) + message_items(model);
    let mut k: usize = 0;
    while k < st.func.calls.len()
        invariant
            k <= st.func.calls@.len(),
            model == st@,
            json::items_view(r@) =~= head + call_items(model).take(k as int),
        decreases st.func.calls@.len() - k,
    {
        let ghost before = r@;
        assert(model.func.calls[k as int] == st.func.calls@[k as int].model());
        let item = make_call_item(
            st.func.calls[k].call_id.as_str(),
            st.func.calls[k].name.as_str(),
            "completed",
            st.func.calls[k].args.as_str(),
        );
        r.push(item);
        assert(json::items_view(r@) =~= json::items_view(before).push(item@));
        k += 1;
        assert(call_items(model).take(k as int) =~= call_items(model).take(k - 1).push(
            call_items(model)[k - 1],
        ));
    }
    assert(call_items(model).take(k as int) =~= call_items(model));
    r
}

fn make_usage(st: &StreamState) -> (r: Json)
    ensures
        r@ == usage_json(st@),
{
    let cached = st.usage.cached;
    let reasoning: i64 = if st.usage.reasoning == 0 && !st.reasoning.buf.as_str().is_empty() {
        (byte_count(st.reasoning.buf.as_str()) / 4) as i64
    } else {
        st.usage.reasoning
    };
    let input: i64 = if cached > 0 {
        let d = st.usage.input.wrapping_sub(cached);
        if d > 0 {
            d
        } else {
            0
        }
    } else {
        st.usage.input
    };
    let total: i64 = if st.usage.total == 0 || cached > 0 {
        input.wrapping_add(st.usage.output).wrapping_add(cached)
    } else {
        st.usage.total
    };
    let mut r = Json::object().with("input_tokens", Json::Int(input)).with(
        "output_tokens",
        Json::Int(st.usage.output),
    ).with("total_tokens", Json::Int(total));
    if cached > 0 {
        r =
        r.with(
            "input_tokens_details",
            Json::object().with("cached_tokens", Json::Int(cached)),
        );
    }
    if reasoning > 0 {
        r =
        r.with(
            "output_tokens_details",
            Json::object().with("reasoning_tokens", Json::Int(reasoning)),
        );
    }
    if cached > 0 {
        r = r.with("cache_read_input_tokens", Json::Int(cached));
    }
    r
}

fn is_cut_short(st: &StreamState) -> (r: bool)
    ensures
        r == cut_short(st@),
{
    match &st.session.finish_reason {
        Some(s) => same(s.as_str(), "length"),
        None => false,
    }
}

fn make_completed_response(st: &StreamState, request: &Json) -> (r: Json)
    ensures
        r@ == completed_response(st@, request@),
{
    let status = if is_cut_short(st) {
        "incomplete"
    } else {
        "completed"
    };
    let mut r = Json::object().with("id", Json::text(st.session.response_id.as_str())).with(
        "object",
        Json::text("response"),
    ).with("created_at", Json::Int(st.session.created_at)).with("status", Json::text(status)).with(
        "background",
        Json::Bool(false),
    ).with("error", Json::Null);
    if is_cut_short(st) {
        r =
        r.with(
            "incomplete_details",
            Json::object().with("reason", Json::text("max_output_tokens")),
        );
    }
    r = echo(r, request);
    let outputs = make_output_items(st);
    assert(json::items_view(outputs@).len() == outputs@.len());
    if outputs.len() > 0 {
        r = r.with("output", Json::array(outputs));
    }
    r.with("usage", make_usage(st))
}

/// Whether the response reports output tokens.
fn has_output_tokens(response: &Json) -> (r: bool)
    ensures
        r == reports_output(response@),
{
    match response.get("usage") {
        Some(u) => match u.get("output_tokens") {
            Some(n) => match n.as_i64() {
                Some(i) => i > 0,
                None => false,
            },
            None => false,
        },
        None => false,
    }
}

/// Puts estimates into the response, where it reports no output tokens.
pub fn inject_usage_if_needed(response: Json, st: &StreamState) -> (r: Json)
    ensures
        r@ == usage_injected(response@, st@),
{
    if has_output_tokens(&response) {
        return response;
    }
    let text_tokens: i64 = (st.get_text_len() / 4) as i64;
    let output: i64 = if text_tokens > 1 {
        text_tokens
    } else {
        1
    };
    let reasoning: i64 = (st.get_reasoning_len() / 4) as i64;
    let input: i64 = if st.get_input_tokens() > 10 {
        st.get_input_tokens()
    } else {
        10
    };
    let total = input.wrapping_add(output).wrapping_add(reasoning);
    let mut usage = Json::object().with("input_tokens", Json::Int(input)).with(
        "output_tokens",
        Json::Int(output),
    ).with("total_tokens", Json::Int(total));
    if reasoning > 0 {
        usage =
        usage.with(
            "output_tokens_details",
            Json::object().with("reasoning_tokens", Json::Int(reasoning)),
        );
    }
    response.with("usage", usage)
}

/// Makes a message up from the reasoning, where there is none.
fn synthesize(st: &mut StreamState, out: &Outbox)
    ensures
        super::step_of(*final(st), *out) == super::step_of(*old(st), *out).synthesized(),
{
    if st.should_synthesize_message_from_reasoning() {
        let summary = extract_summary_from_reasoning(st.reasoning.buf.as_str());
        if !summary.as_str().is_empty() {
            let i = st.text.current_output_index;
            st.text.current_output_index = i.wrapping_add(1);
            st.text.msg_output_index = i;
            st.text.msg_id = make_numbered_id("msg_", st.session.response_id.as_str(), i);
            st.text.buf = summary;
            st.text.in_block = true;
        }
    }
}

/// Closes what is open.
pub(super) fn close_all(st: &mut StreamState, out: &mut Outbox)
    requires
        old(out).wf(),
    ensures
        final(out).wf(),
        super::step_of(*final(st), *final(out)) == super::step_of(
            *old(st),
            *old(out),
        ).all_closed(),
{
    proof {
        reveal(StepV::all_closed);
    }
    close_reasoning_block(st, out);
    close_text_block(st, out);
    if st.func.in_block {
        close_func_blocks(st, out);
    }
}

/// Ends the stream: closes what is open, and gives out the completed response.
pub(super) fn generate_completed_events(
    st: &mut StreamState,
    out: &mut Outbox,
    request: &Json,
    inject: bool,
)
    requires
        old(out).wf(),
    ensures
        final(out).wf(),
        super::step_of(*final(st), *final(out)) == super::step_of(*old(st), *old(out)).completed(
            request@,
            inject,
        ),
{
    proof {
        reveal(StepV::completed);
    }
    synthesize(st, out);
    close_all(st, out);
    let mut response = make_completed_response(st, request);
    if inject {
        response = inject_usage_if_needed(response, st);
    }
    st.emit(out, "response.completed", Json::object().with("response", response));
}

/// Keeps the reasoning texts, at the time `now`.
pub(super) fn keep_all(store: &mut ReasoningStore, saves: &Vec<(String, String)>, now: u128)
    ensures
        final(store)@ == kept(old(store)@, super::pairs(saves@), now),
{
    let ghost all = super::pairs(saves@);
    let mut i: usize = 0;
    assert(all.take(0) =~= Seq::empty());
    while i < saves.len()
        invariant
            i <= saves@.len(),
            all == super::pairs(saves@),
            store@ == kept(old(store)@, all.take(i as int), now),
        decreases saves@.len() - i,
    {
        store.put_at(saves[i].0.as_str(), saves[i].1.as_str(), now);
        i += 1;
        assert(all.take(i as int).drop_last() =~= all.take(i - 1));
    }
    assert(all.take(i as int) =~= all);
}

/// Ends a stream whose end was not announced: gives out the remaining events. With `inject`,
/// estimates take the place of token counts that were not reported. The reasoning texts of its
/// function calls go to the store, at the time `now`.
pub fn generate_completed_events_at(
    st: &mut StreamState,
    original_request: &Json,
    store: &mut ReasoningStore,
    inject: bool,
    now: u128,
) -> (r: Vec<String>)
    ensures
        ({
            let step = StepV::start(old(st)@).completed(original_request@, inject);
            &&& final(st)@ == step.stream
            &&& text::strings(r@) == super::wire(step.events)
            &&& super::on_one_line(step.events)
            &&& final(store)@ == kept(old(store)@, step.saves, now)
        }),
{
    let mut out = Outbox::new();
    generate_completed_events(st, &mut out, original_request, inject);
    keep_all(store, &out.saves, now);
    out.texts
}

/// Ends a stream whose end was not announced: gives out the remaining events. The reasoning texts
/// of its function calls go to the store, at the time of the call.
pub fn generate_completed_events_fallback(
    st: &mut StreamState,
    original_request: &Json,
    store: &mut ReasoningStore,
) -> (r: Vec<String>)
    ensures
        ({
            let step = StepV::start(old(st)@).completed(original_request@, false);
            &&& final(st)@ == step.stream
            &&& text::strings(r@) == super::wire(step.events)
            &&& super::on_one_line(step.events)
            &&& exists|now: u128|
                final(store)@ == #[trigger] kept(old(store)@, step.saves, now)
        }),
{
    let now: u128 = store.now();
    generate_completed_events_at(st, original_request, store, false, now)
}

} // verus!

//! What the completed response of a stream holds.

use vstd::prelude::*;
use vstd::string::*;

use super::completion;
use super::events;
use super::events::{goes_by, is_call_item, is_content, is_message, is_summary_part};
use super::handlers;
use super::{Counts, StepV, StreamV};
use crate::json::JsonV;
use crate::names;
use crate::text;

verus! {

/// One where it holds, else none.
pub open spec fn one_if(b: bool) -> int {
    if b {
        1
    } else {
        0
    }
}

/// The stream has come to reasoning that is reported.
pub open spec fn has_reasoning(st: StreamV) -> bool {
    st.reasoning.buf.len() > 0 || st.reasoning.part_added
}

/// The stream has come to a message.
pub open spec fn has_message(st: StreamV) -> bool {
    st.text.buf.len() > 0 || st.text.msg_id.len() > 0
}

/// The output of a response: reasoning where there is any, a message where there is one, and
/// every function call in order, whether or not there is a message.
pub open spec fn holds_output(out: Seq<JsonV>, st: StreamV) -> bool {
    let n = one_if(has_reasoning(st));
    let m = one_if(has_message(st));
    &&& out.len() == n + m + st.func.calls.len()
    &&& has_reasoning(st) ==> {
        &&& out[0].text_at("type"@) == Some("reasoning"@)
        &&& out[0].text_at("id"@) == Some(st.reasoning.item_id)
        &&& out[0].text_at("status"@) == Some("completed"@)
        &&& out[0].get("summary"@) matches Some(JsonV::Array(parts))
        &&& parts.len() == 1
        &&& is_summary_part(parts[0], st.reasoning.buf)
    }
    &&& has_message(st) ==> {
        &&& is_message(out[n], st.text.msg_id, "completed"@)
        &&& is_content(out[n], st.text.buf)
    }
    &&& forall|k: int|
        0 <= k < st.func.calls.len() ==> is_call_item(
            out[n + m + k],
            (#[trigger] st.func.calls[k]).call_id,
            st.func.calls[k].name,
            "completed"@,
            st.func.calls[k].args,
        )
}

proof fn lemma_output(st: StreamV)
    ensures
        holds_output(completion::output_items(st), st),
{
    names::lemma_names();
    reveal_strlit("fc_");
    assert("fc_"@ =~= seq!['f', 'c', '_']);
    events::lemma_parts(st.text.buf);
    let out = completion::output_items(st);
    let n = one_if(has_reasoning(st));
    let m = one_if(has_message(st));
    assert(completion::reasoning_items(st).len() == n);
    assert(completion::message_items(st).len() == m);
    assert forall|k: int| 0 <= k < st.func.calls.len() implies is_call_item(
        out[n + m + k],
        (#[trigger] st.func.calls[k]).call_id,
        st.func.calls[k].name,
        "completed"@,
        st.func.calls[k].args,
    ) by {
        let c = st.func.calls[k];
        assert(out[n + m + k] == handlers::call_item(c.call_id, c.name, "completed"@, c.args));
    }
    if has_message(st) {
        assert(out[n] == handlers::message_item(
            st.text.msg_id,
            "completed"@,
            handlers::message_parts(st.text.buf),
        ));
    }
}

/// The output of the completed response holds the reasoning, the message and every function call
/// of the stream; there is none where the stream has come to nothing.
#[verifier::rlimit(60)]
#[verifier::spinoff_prover]
pub proof fn law_completed_output_holds_all(st: StreamV, request: JsonV)
    ensures
        ({
            let r = completion::completed_response(st, request).get("output"@);
            let any = has_reasoning(st) || has_message(st) || st.func.calls.len() > 0;
            &&& any ==> (r matches Some(JsonV::Array(out)) && holds_output(out, st))
            &&& !any ==> r is None
        }),
{
    names::lemma_names();
    lemma_output(st);
}

/// A member of the request comes back, where the request has it.
pub open spec fn comes_back(r: JsonV, request: JsonV, key: Seq<char>) -> bool {
    r.get(key) == request.get(key)
}

/// A member that may be missing changes no other member.
proof fn lemma_member(v: JsonV, key: Seq<char>, x: Option<JsonV>)
    requires
        v is Object,
    ensures
        v.with_some(key, x) is Object,
        v.with_some(key, x).get(key) == (if x is Some {
            x
        } else {
            v.get(key)
        }),
        forall|k: Seq<char>| k != key ==> #[trigger] v.with_some(key, x).get(k) == v.get(k),
{
}

/// The names of the members that come back as they are.
spec fn echoed(i: int) -> Seq<char> {
    seq![
        "model"@,
        "max_output_tokens"@,
        "parallel_tool_calls"@,
        "previous_response_id"@,
        "temperature"@,
        "tool_choice"@,
        "tools"@,
        "top_p"@,
        "reasoning"@,
        "metadata"@,
    ][i]
}

/// The first `n` of those members put into `v`.
spec fn with_echoed(v: JsonV, request: JsonV, n: int) -> JsonV
    decreases n,
{
    if n <= 0 {
        v
    } else {
        with_echoed(v, request, n - 1).with_some(echoed(n - 1), request.get(echoed(n - 1)))
    }
}

proof fn lemma_with_echoed(v: JsonV, request: JsonV, n: int)
    requires
        v is Object,
        0 <= n <= 10,
        forall|i: int, j: int|
            0 <= i < 10 && 0 <= j < 10 && i != j ==> #[trigger] echoed(i) != #[trigger] echoed(j),
    ensures
        with_echoed(v, request, n) is Object,
        forall|i: int|
            0 <= i < n ==> #[trigger] with_echoed(v, request, n).get(echoed(i)) == (
            if request.get(echoed(i)) is Some {
                request.get(echoed(i))
            } else {
                v.get(echoed(i))
            }),
        forall|k: Seq<char>|
            (forall|i: int| 0 <= i < 10 ==> k != #[trigger] echoed(i)) ==> #[trigger] with_echoed(
                v,
                request,
                n,
            ).get(k) == v.get(k),
        forall|i: int|
            n <= i < 10 ==> #[trigger] with_echoed(v, request, n).get(echoed(i)) == v.get(
                echoed(i),
            ),
    decreases n,
{
    if n > 0 {
        lemma_with_echoed(v, request, n - 1);
        lemma_member(
            with_echoed(v, request, n - 1),
            echoed(n - 1),
            request.get(echoed(n - 1)),
        );
    }
}

/// What a completed response says before it repeats the request.
spec fn head(st: StreamV, request: JsonV) -> JsonV {
    JsonV::object().with("id"@, JsonV::Text(st.session.response_id)).with(
        "object"@,
        JsonV::Text("response"@),
    ).with("created_at"@, JsonV::Int(st.session.created_at as int)).with(
        "status"@,
        JsonV::Text(
            if completion::cut_short(st) {
                "incomplete"@
            } else {
                "completed"@
            },
        ),
    ).with("background"@, JsonV::Bool(false)).with("error"@, JsonV::Null).with_some(
        "incomplete_details"@,
        if completion::cut_short(st) {
            Some(JsonV::object().with("reason"@, JsonV::Text("max_output_tokens"@)))
        } else {
            None
        },
    ).with_some("instructions"@, completion::text_value(request, "instructions"@))
}

#[verifier::rlimit(60)]
#[verifier::spinoff_prover]
proof fn lemma_head(st: StreamV, request: JsonV)
    ensures
        ({
            let r = head(st, request);
            let cut = st.session.finish_reason == Some("length"@);
            &&& r is Object
            &&& r.text_at("id"@) == Some(st.session.response_id)
            &&& r.text_at("object"@) == Some("response"@)
            &&& r.get("created_at"@) == Some(JsonV::Int(st.session.created_at as int))
            &&& r.get("background"@) == Some(JsonV::Bool(false))
            &&& r.get("error"@) == Some(JsonV::Null)
            &&& cut ==> r.text_at("status"@) == Some("incomplete"@)
            &&& !cut ==> r.text_at("status"@) == Some("completed"@)
            &&& cut ==> (r.get("incomplete_details"@) matches Some(d) && d.text_at("reason"@)
                == Some("max_output_tokens"@))
            &&& !cut ==> r.get("incomplete_details"@) is None
            &&& r.text_at("instructions"@) == request.text_at("instructions"@)
            &&& request.text_at("instructions"@) is None ==> r.get("instructions"@) is None
            &&& forall|i: int| 0 <= i < 10 ==> (#[trigger] r.get(echoed(i))) is None
        }),
{
    names::lemma_names();
    lemma_echoed();
    assert forall|i: int| 0 <= i < 10 implies (#[trigger] head(st, request).get(echoed(i))) is None by {
        lemma_echoed_apart();
    }
}

proof fn lemma_echoed()
    ensures
        echoed(0) == "model"@,
        echoed(1) == "max_output_tokens"@,
        echoed(2) == "parallel_tool_calls"@,
        echoed(3) == "previous_response_id"@,
        echoed(4) == "temperature"@,
        echoed(5) == "tool_choice"@,
        echoed(6) == "tools"@,
        echoed(7) == "top_p"@,
        echoed(8) == "reasoning"@,
        echoed(9) == "metadata"@,
        forall|i: int, j: int|
            0 <= i < 10 && 0 <= j < 10 && i != j ==> #[trigger] echoed(i) != #[trigger] echoed(j),
{
    names::lemma_names();
    assert forall|i: int, j: int| 0 <= i < 10 && 0 <= j < 10 && i != j implies #[trigger] echoed(i)
        != #[trigger] echoed(j) by {
        assert(names::mark(echoed(i)) != names::mark(echoed(j)));
    }
}

/// None of those names is one that the response says of itself.
proof fn lemma_echoed_apart()
    ensures
        forall|i: int|
            0 <= i < 10 ==> {
                &&& (#[trigger] echoed(i)) != "id"@
                &&& echoed(i) != "object"@
                &&& echoed(i) != "created_at"@
                &&& echoed(i) != "status"@
                &&& echoed(i) != "background"@
                &&& echoed(i) != "error"@
                &&& echoed(i) != "incomplete_details"@
                &&& echoed(i) != "instructions"@
                &&& echoed(i) != "output"@
                &&& echoed(i) != "usage"@
            },
{
    names::lemma_names();
}

/// What the completed response says of itself, and what it repeats of the request.
#[verifier::rlimit(100)]
#[verifier::spinoff_prover]
pub proof fn law_completed_response_says(st: StreamV, request: JsonV)
    ensures
        ({
            let r = completion::completed_response(st, request);
            let cut = st.session.finish_reason == Some("length"@);
            &&& r.text_at("id"@) == Some(st.session.response_id)
            &&& r.text_at("object"@) == Some("response"@)
            &&& r.get("created_at"@) == Some(JsonV::Int(st.session.created_at as int))
            &&& r.get("background"@) == Some(JsonV::Bool(false))
            &&& r.get("error"@) == Some(JsonV::Null)
            &&& cut ==> r.text_at("status"@) == Some("incomplete"@)
            &&& !cut ==> r.text_at("status"@) == Some("completed"@)
            &&& cut ==> (r.get("incomplete_details"@) matches Some(d) && d.text_at("reason"@)
                == Some("max_output_tokens"@))
            &&& !cut ==> r.get("incomplete_details"@) is None
            &&& r.text_at("instructions"@) == request.text_at("instructions"@)
            &&& request.text_at("instructions"@) is None ==> r.get("instructions"@) is None
            &&& comes_back(r, request, "model"@)
            &&& comes_back(r, request, "max_output_tokens"@)
            &&& comes_back(r, request, "parallel_tool_calls"@)
            &&& comes_back(r, request, "previous_response_id"@)
            &&& comes_back(r, request, "temperature"@)
            &&& comes_back(r, request, "tool_choice"@)
            &&& comes_back(r, request, "tools"@)
            &&& comes_back(r, request, "top_p"@)
            &&& comes_back(r, request, "reasoning"@)
            &&& comes_back(r, request, "metadata"@)
        }),
{
    let h = head(st, request);
    let out = if completion::output_items(st).len() > 0 {
        Some(JsonV::Array(completion::output_items(st)))
    } else {
        None
    };
    let all = with_echoed(h, request, 10);
    let r = completion::completed_response(st, request);
    assert(r == all.with_some("output"@, out).with_some(
        "usage"@,
        Some(completion::usage_json(st)),
    )) by {
        lemma_echoed();
        reveal_with_fuel(with_echoed, 11);
    }
    lemma_head(st, request);
    lemma_echoed();
    lemma_with_echoed(h, request, 10);
    lemma_member(all, "output"@, out);
    lemma_member(all.with_some("output"@, out), "usage"@, Some(completion::usage_json(st)));
    lemma_echoed_apart();
    assert forall|i: int| 0 <= i < 10 implies #[trigger] r.get(echoed(i)) == request.get(
        echoed(i),
    ) by {
        assert(all.get(echoed(i)) == request.get(echoed(i)));
    }
    names::lemma_names();
    assert(all.get("id"@) == h.get("id"@));
    assert(all.get("object"@) == h.get("object"@));
    assert(all.get("created_at"@) == h.get("created_at"@));
    assert(all.get("status"@) == h.get("status"@));
    assert(all.get("background"@) == h.get("background"@));
    assert(all.get("error"@) == h.get("error"@));
    assert(all.get("incomplete_details"@) == h.get("incomplete_details"@));
    assert(all.get("instructions"@) == h.get("instructions"@));
    assert(r.get(echoed(0)) == request.get(echoed(0)));
    assert(r.get(echoed(1)) == request.get(echoed(1)));
    assert(r.get(echoed(2)) == request.get(echoed(2)));
    assert(r.get(echoed(3)) == request.get(echoed(3)));
    assert(r.get(echoed(4)) == request.get(echoed(4)));
    assert(r.get(echoed(5)) == request.get(echoed(5)));
    assert(r.get(echoed(6)) == request.get(echoed(6)));
    assert(r.get(echoed(7)) == request.get(echoed(7)));
    assert(r.get(echoed(8)) == request.get(echoed(8)));
    assert(r.get(echoed(9)) == request.get(echoed(9)));
}

/// The tokens that were not read from a cache.
pub open spec fn fresh_input(u: Counts) -> i64 {
    if u.cached > 0 {
        if u.input.wrapping_sub(u.cached) > 0 {
            u.input.wrapping_sub(u.cached)
        } else {
            0
        }
    } else {
        u.input
    }
}

/// The reasoning tokens: as reported, or else one for four bytes.
pub open spec fn thought_tokens(st: StreamV) -> int {
    if st.usage.reasoning == 0 && st.reasoning.buf.len() > 0 {
        text::byte_len(st.reasoning.buf) as int / 4
    } else {
        st.usage.reasoning as int
    }
}

/// The usage of the completed response reports what the upstream API has counted.
#[verifier::rlimit(60)]
#[verifier::spinoff_prover]
pub proof fn law_completed_usage_says(st: StreamV, request: JsonV)
    ensures
        ({
            let u = st.usage;
            let input = fresh_input(u);
            let thought = thought_tokens(st);
            &&& completion::completed_response(st, request).get("usage"@) matches Some(r)
            &&& r.get("input_tokens"@) == Some(JsonV::Int(input as int))
            &&& r.get("output_tokens"@) == Some(JsonV::Int(u.output as int))
            &&& u.total == 0 || u.cached > 0 ==> r.get("total_tokens"@) == Some(
                JsonV::Int(input.wrapping_add(u.output).wrapping_add(u.cached) as int),
            )
            &&& u.total != 0 && u.cached <= 0 ==> r.get("total_tokens"@) == Some(
                JsonV::Int(u.total as int),
            )
            &&& u.cached > 0 ==> {
                &&& r.get("cache_read_input_tokens"@) == Some(JsonV::Int(u.cached as int))
                &&& r.get("input_tokens_details"@) matches Some(d)
                &&& d.get("cached_tokens"@) == Some(JsonV::Int(u.cached as int))
            }
            &&& u.cached <= 0 ==> r.get("cache_read_input_tokens"@) is None && r.get(
                "input_tokens_details"@,
            ) is None
            &&& thought > 0 ==> (r.get("output_tokens_details"@) matches Some(d) && d.get(
                "reasoning_tokens"@,
            ) == Some(JsonV::Int(thought)))
            &&& thought <= 0 ==> r.get("output_tokens_details"@) is None
        }),
{
    names::lemma_names();
    super::laws::law_response_reports_stream(st, request);
}

/// Estimates take the place of token counts where no output was reported: one token for four
/// bytes, one output token at least, and ten input tokens at least. Nothing else changes.
#[verifier::rlimit(60)]
#[verifier::spinoff_prover]
pub proof fn law_estimates(response: JsonV, st: StreamV)
    requires
        text::byte_len(st.text.buf) <= i64::MAX,
        text::byte_len(st.reasoning.buf) <= i64::MAX,
    ensures
        ({
            let r = completion::usage_injected(response, st);
            let reported = response.get("usage"@) matches Some(u) && (u.get("output_tokens"@)
                matches Some(n) && (n.as_i64() matches Some(i) && i > 0));
            let input: int = if st.usage.input > 10 {
                st.usage.input as int
            } else {
                10
            };
            let quarter = text::byte_len(st.text.buf) as int / 4;
            let output: int = if quarter > 1 {
                quarter
            } else {
                1
            };
            let thought = text::byte_len(st.reasoning.buf) as int / 4;
            &&& reported ==> r == response
            &&& !reported && response is Object ==> {
                &&& forall|k: Seq<char>| k != "usage"@ ==> #[trigger] r.get(k) == response.get(k)
                &&& r.get("usage"@) matches Some(u)
                &&& u.get("input_tokens"@) == Some(JsonV::Int(input))
                &&& u.get("output_tokens"@) == Some(JsonV::Int(output))
                &&& input + output + thought <= i64::MAX ==> u.get("total_tokens"@) == Some(
                    JsonV::Int(input + output + thought),
                )
                &&& thought > 0 ==> (u.get("output_tokens_details"@) matches Some(d) && d.get(
                    "reasoning_tokens"@,
                ) == Some(JsonV::Int(thought)))
                &&& thought == 0 ==> u.get("output_tokens_details"@) is None
            }
        }),
{
    names::lemma_names();
}

/// The end of a stream closes what is open, and then gives out the response that the stream has
/// come to, as the last event.
#[verifier::spinoff_prover]
pub proof fn law_end_gives_out_response(s: StepV, request: JsonV, inject: bool)
    ensures
        ({
            let a = s.synthesized().all_closed();
            let b = s.completed(request, inject);
            let e = b.events.last();
            let response = completion::completed_response(a.stream, request);
            &&& events::more_events(a, b, 1)
            &&& goes_by(e, "response.completed"@)
            &&& !inject ==> e.payload.get("response"@) == Some(response)
            &&& inject ==> e.payload.get("response"@) == Some(
                completion::usage_injected(response, a.stream),
            )
            &&& b.stream == (StreamV { session: b.stream.session, ..a.stream })
            &&& b.saves == a.saves
        }),
{
    names::lemma_names();
    reveal(StepV::completed);
    let a = s.synthesized().all_closed();
    let b = s.completed(request, inject);
    assert(b.events.take(a.events.len() as int) =~= a.events);
}

/// A message is made up from the reasoning where there is reasoning that no item has given out,
/// and no message; otherwise nothing is made up.
pub proof fn law_message_from_reasoning(s: StepV)
    ensures
        ({
            let b = s.synthesized();
            let st = s.stream;
            let i = st.text.current_output_index;
            let summary = completion::summary_of(st.reasoning.buf);
            let needed = st.text.buf.len() == 0 && st.text.msg_id.len() == 0
                && st.reasoning.buf.len() > 0 && !st.reasoning.part_added && summary.len() > 0;
            &&& !needed ==> b == s
            &&& needed ==> {
                &&& b.stream.text.in_block
                &&& b.stream.text.buf == summary
                &&& b.stream.text.msg_id == seq!['m', 's', 'g', '_'] + st.session.response_id
                    + seq!['_'] + text::decimal(i as int)
                &&& b.stream.text.msg_output_index == i
                &&& b.stream.text.current_output_index == i.wrapping_add(1)
                &&& b.events == s.events
                &&& b.stream.func == st.func
                &&& b.stream.reasoning == st.reasoning
            }
        }),
{
    reveal_strlit("msg_");
    reveal_strlit("_");
    assert("msg_"@ =~= seq!['m', 's', 'g', '_']);
    assert("_"@ =~= seq!['_']);
}

// ---------------------------------------------------------------------------------------------
// A summary of the reasoning
// ---------------------------------------------------------------------------------------------

/// Exactly the first `n` characters of `t` fit into a summary.
pub open spec fn just_fits(t: Seq<char>, n: int) -> bool {
    &&& 0 <= n < t.len()
    &&& forall|k: int| 0 <= k <= n ==> text::byte_len(#[trigger] t.take(k)) <= 500
    &&& text::byte_len(t.take(n + 1)) > 500
}

proof fn lemma_fitting(t: Seq<char>, k: int, n: int)
    requires
        just_fits(t, n),
        0 <= k <= n,
    ensures
        completion::fitting_from(t, k) == n,
    decreases n - k,
{
    if k < n {
        assert(text::byte_len(t.take(k + 1)) <= 500);
        lemma_fitting(t, k + 1, n);
    }
}

/// A place in a text at which it may be cut, and how long what stands there is.
pub open spec fn is_cut(s: Seq<char>, p: int, n: int) -> bool {
    ||| n == 1 && 0 <= p < s.len() && (s[p] == '\n' || s[p] == '。' || s[p] == ',' || s[p] == '，'
        || s[p] == ' ')
    ||| n == 2 && 0 <= p < s.len() - 1 && s[p] == '.' && s[p + 1] == ' '
}

proof fn lemma_found_back(s: Seq<char>, pat: Seq<char>, i: int)
    ensures
        match text::found_back(s, pat, i) {
            Some(p) => {
                &&& 0 <= p <= i
                &&& text::occurs_at(s, pat, p)
                &&& forall|q: int| p < q <= i ==> !text::occurs_at(s, pat, q)
            },
            None => forall|q: int| 0 <= q <= i ==> !text::occurs_at(s, pat, q),
        },
    decreases i + 1,
{
    if i >= 0 && !text::occurs_at(s, pat, i) {
        lemma_found_back(s, pat, i - 1);
    }
}

proof fn lemma_later_cut(best: Option<(int, int)>, s: Seq<char>, sep: Seq<char>)
    requires
        sep.len() > 0,
    ensures
        ({
            let r = completion::later_cut(best, s, sep);
            &&& r == best || (r matches Some(c) && c.1 == sep.len() && text::occurs_at(s, sep, c.0))
            &&& best is Some ==> r is Some && (r->0).0 >= (best->0).0
            &&& forall|q: int|
                #[trigger] text::occurs_at(s, sep, q) ==> r is Some && (r->0).0 >= q
        }),
{
    lemma_found_back(s, sep, s.len() - sep.len());
}

/// The last place at which a text may be cut is the last one in it.
pub proof fn law_last_cut(s: Seq<char>)
    ensures
        match completion::last_cut(s) {
            Some((p, n)) => {
                &&& is_cut(s, p, n)
                &&& forall|q: int, m: int| #[trigger] is_cut(s, q, m) ==> q <= p
            },
            None => forall|q: int, m: int| !#[trigger] is_cut(s, q, m),
        },
{
    reveal_strlit("\n");
    reveal_strlit("。");
    reveal_strlit(". ");
    reveal_strlit(",");
    reveal_strlit("，");
    reveal_strlit(" ");
    let a = completion::later_cut(None, s, "\n"@);
    let b = completion::later_cut(a, s, "。"@);
    let c = completion::later_cut(b, s, ". "@);
    let d = completion::later_cut(c, s, ","@);
    let e = completion::later_cut(d, s, "，"@);
    lemma_later_cut(None, s, "\n"@);
    lemma_later_cut(a, s, "。"@);
    lemma_later_cut(b, s, ". "@);
    lemma_later_cut(c, s, ","@);
    lemma_later_cut(d, s, "，"@);
    lemma_later_cut(e, s, " "@);
    assert forall|q: int, pat: Seq<char>| #[trigger] text::occurs_at(s, pat, q) && pat.len() == 1
        implies 0 <= q < s.len() && s[q] == pat[0] by {
        assert(s.subrange(q, q + 1)[0] == s[q]);
    }
    assert forall|q: int| #[trigger] text::occurs_at(s, ". "@, q) implies is_cut(s, q, 2) by {
        assert(s.subrange(q, q + 2)[0] == s[q]);
        assert(s.subrange(q, q + 2)[1] == s[q + 1]);
    }
    assert forall|q: int, m: int| #[trigger] is_cut(s, q, m) implies completion::last_cut(s) is Some
        && q <= (completion::last_cut(s)->0).0 by {
        if m == 2 {
            assert(s.subrange(q, q + 2) =~= ". "@);
            assert(text::occurs_at(s, ". "@, q));
        } else if s[q] == '\n' {
            assert(s.subrange(q, q + 1) =~= "\n"@);
            assert(text::occurs_at(s, "\n"@, q));
        } else if s[q] == '。' {
            assert(s.subrange(q, q + 1) =~= "。"@);
            assert(text::occurs_at(s, "。"@, q));
        } else if s[q] == ',' {
            assert(s.subrange(q, q + 1) =~= ","@);
            assert(text::occurs_at(s, ","@, q));
        } else if s[q] == '，' {
            assert(s.subrange(q, q + 1) =~= "，"@);
            assert(text::occurs_at(s, "，"@, q));
        } else {
            assert(s.subrange(q, q + 1) =~= " "@);
            assert(text::occurs_at(s, " "@, q));
        }
    }
}

/// The summary of a reasoning text: all of it where it fits; else as much of its beginning as
/// fits, up to the last place at which it may be cut.
pub proof fn law_summary(reasoning: Seq<char>, n: int, p: int, m: int)
    ensures
        ({
            let t = text::trimmed(reasoning);
            let r = completion::summary_of(reasoning);
            let head = t.take(n);
            &&& text::byte_len(t) <= 500 ==> r == t
            &&& text::byte_len(t) > 500 && just_fits(t, n) ==> {
                &&& is_cut(head, p, m) && p > 0 && (forall|q: int, k: int|
                    #[trigger] is_cut(head, q, k) ==> q <= p) ==> r == text::trimmed(
                    head.take(p + m),
                )
                &&& (forall|q: int, k: int| #[trigger] is_cut(head, q, k) ==> q <= 0) ==> r == head
            }
        }),
{
    let t = text::trimmed(reasoning);
    if text::byte_len(t) > 500 && just_fits(t, n) {
        lemma_fitting(t, 0, n);
        let head = t.take(n);
        law_last_cut(head);
        if let Some((x, k)) = completion::last_cut(head) {
            assert(is_cut(head, x, k));
            if is_cut(head, p, m) && (forall|q: int, k: int| #[trigger] is_cut(head, q, k) ==> q <= p) {
                assert(x == p);
                assert(k == m);
            }
        }
    }
}

} // verus!

//! What the events of a stream say, in terms of what the upstream API sent.

use vstd::prelude::*;
use vstd::string::*;

use super::handlers;
use super::laws;
use super::{CallV, EventV, StepV, StreamV};
use crate::json::JsonV;
use crate::names;
use crate::types::ToolCallDeltaV;

verus! {

/// The event goes by that name, and its payload says so.
pub open spec fn goes_by(e: EventV, name: Seq<char>) -> bool {
    e.name == name && e.payload.text_at("type"@) == Some(name)
}

/// The number of that name.
pub open spec fn number_at(v: JsonV, key: Seq<char>, n: i64) -> bool {
    v.get(key) == Some(JsonV::Int(n as int))
}

/// The step `b` goes on from `a` with `n` more events.
pub open spec fn more_events(a: StepV, b: StepV, n: int) -> bool {
    &&& b.events.len() == a.events.len() + n
    &&& b.events.take(a.events.len() as int) == a.events
}

/// An output item for a function call: it has the identifier, the name and the arguments of the
/// call under their own names.
pub open spec fn is_call_item(
    v: JsonV,
    call_id: Seq<char>,
    name: Seq<char>,
    status: Seq<char>,
    args: Seq<char>,
) -> bool {
    &&& v.text_at("type"@) == Some("function_call"@)
    &&& v.text_at("id"@) == Some(seq!['f', 'c', '_'] + call_id)
    &&& v.text_at("status"@) == Some(status)
    &&& v.text_at("call_id"@) == Some(call_id)
    &&& v.text_at("name"@) == Some(name)
    &&& v.text_at("arguments"@) == Some(args)
}

/// The event announces a function call as an output item.
pub open spec fn announces_call(e: EventV, c: CallV, output_index: i64) -> bool {
    &&& goes_by(e, "response.output_item.added"@)
    &&& number_at(e.payload, "output_index"@, output_index)
    &&& e.payload.get("item"@) matches Some(item)
    &&& is_call_item(item, c.call_id, c.name, "in_progress"@, Seq::empty())
}

/// The event gives out a piece of arguments.
pub open spec fn gives_arguments(
    e: EventV,
    c: CallV,
    output_index: i64,
    args: Seq<char>,
) -> bool {
    &&& goes_by(e, "response.function_call_arguments.delta"@)
    &&& number_at(e.payload, "output_index"@, output_index)
    &&& e.payload.text_at("item_id"@) == Some(seq!['f', 'c', '_'] + c.call_id)
    &&& e.payload.text_at("delta"@) == Some(args)
}

/// The event gives out all arguments of a call.
pub open spec fn ends_arguments(e: EventV, c: CallV, output_index: i64) -> bool {
    &&& goes_by(e, "response.function_call_arguments.done"@)
    &&& number_at(e.payload, "output_index"@, output_index)
    &&& e.payload.text_at("item_id"@) == Some(seq!['f', 'c', '_'] + c.call_id)
    &&& e.payload.text_at("arguments"@) == Some(c.args)
}

/// The event gives out a call as a whole.
pub open spec fn ends_call(e: EventV, c: CallV, output_index: i64) -> bool {
    &&& goes_by(e, "response.output_item.done"@)
    &&& number_at(e.payload, "output_index"@, output_index)
    &&& e.payload.get("item"@) matches Some(item)
    &&& is_call_item(item, c.call_id, c.name, "completed"@, c.args)
}

// ---------------------------------------------------------------------------------------------
// Function calls
// ---------------------------------------------------------------------------------------------

/// A text that is there and not empty.
pub open spec fn is_given(s: Option<Seq<char>>) -> bool {
    s matches Some(x) && x.len() > 0
}

/// A piece of a call was taken in: the call `was` has become `c`, and the events say what is new.
pub open spec fn takes_piece(s: StepV, b: StepV, d: ToolCallDeltaV, was: CallV, c: CallV) -> bool {
    let n = s.events.len() as int;
    let named = c.call_id.len() > 0 && c.name.len() > 0;
    let announced = was.output_index is None && (named || is_given(d.arguments));
    let first: int = if announced {
        1
    } else {
        0
    };
    let second: int = if is_given(d.arguments) {
        1
    } else {
        0
    };
    &&& c.index == d.index
    &&& is_given(d.id) ==> Some(c.call_id) == d.id
    &&& !is_given(d.id) ==> c.call_id == was.call_id
    &&& is_given(d.name) ==> Some(c.name) == d.name
    &&& !is_given(d.name) ==> c.name == was.name
    &&& d.arguments matches Some(x) ==> c.args == was.args + x
    &&& d.arguments is None ==> c.args == was.args
    &&& was.output_index is Some ==> c.output_index == was.output_index
    &&& was.output_index is None && !announced ==> c.output_index is None
    &&& more_events(s, b, first + second)
    &&& announced ==> {
        let i = s.stream.text.current_output_index;
        &&& c.output_index == Some(i)
        &&& announces_call(b.events[n], c, i)
        &&& b.stream.text.current_output_index == i.wrapping_add(1)
    }
    &&& !announced ==> b.stream.text == s.stream.text
    &&& is_given(d.arguments) ==> gives_arguments(
        b.events[n + first],
        c,
        c.output_index->0,
        d.arguments->0,
    )
    &&& b.stream.func.in_block == (s.stream.func.in_block || (was.output_index is None && named))
    &&& b.saves == s.saves
    &&& b.stream.reasoning == s.stream.reasoning
}

/// A call of which nothing has come yet.
pub open spec fn is_blank(c: CallV) -> bool {
    c.call_id.len() == 0 && c.name.len() == 0 && c.args.len() == 0 && c.output_index is None
}

proof fn lemma_announced(s: StepV, k: int)
    requires
        0 <= k < s.stream.func.calls.len(),
    ensures
        ({
            let b = s.call_announced(k);
            let i = s.stream.text.current_output_index;
            let c = s.stream.func.calls[k];
            &&& more_events(s, b, 1)
            &&& announces_call(b.events[s.events.len() as int], c, i)
            &&& b.stream.func.calls == s.stream.func.calls.update(
                k,
                CallV { output_index: Some(i), ..c },
            )
            &&& b.stream.func.in_block == s.stream.func.in_block
            &&& b.stream.text.current_output_index == i.wrapping_add(1)
            &&& b.saves == s.saves
            &&& b.stream.reasoning == s.stream.reasoning
        }),
{
    names::lemma_names();
    reveal_strlit("fc_");
    assert("fc_"@ =~= seq!['f', 'c', '_']);
    let b = s.call_announced(k);
    assert(b.events.take(s.events.len() as int) =~= s.events);
}

proof fn lemma_piece(s: StepV, d: ToolCallDeltaV)
    ensures
        ({
            let b = s.call_part(d);
            let before = handlers::with_call(s.stream.func.calls, d.index);
            let k = handlers::slot(before, d.index);
            let after = b.stream.func.calls;
            &&& 0 <= k < before.len()
            &&& after.len() == before.len()
            &&& forall|j: int| 0 <= j < before.len() && j != k ==> #[trigger] after[j] == before[j]
            &&& takes_piece(s, b, d, before[k], after[k])
        }),
{
    names::lemma_names();
    reveal_strlit("fc_");
    assert("fc_"@ =~= seq!['f', 'c', '_']);
    let calls = handlers::with_call(s.stream.func.calls, d.index);
    handlers::lemma_with_call(s.stream.func.calls, d.index);
    let k = handlers::slot(calls, d.index);
    let c = handlers::grown_call(calls[k], d);
    assert(c.args == calls[k].args + (if d.arguments is Some {
        d.arguments->0
    } else {
        Seq::empty()
    }));
    assert(calls[k].args + Seq::<char>::empty() =~= calls[k].args);
    let base = s.with_calls(calls.update(k, c));
    let entered = s.call_entered(d);
    if handlers::announceable(c) {
        let m = StepV {
            stream: StreamV {
                session: super::SessionV { fc_id: c.call_id, ..base.stream.session },
                func: super::FuncV { in_block: true, ..base.stream.func },
                ..base.stream
            },
            ..base
        };
        lemma_announced(m, k);
        assert(entered == m.call_announced(k));
    } else {
        assert(entered == base);
        assert(entered.events.take(s.events.len() as int) =~= s.events);
    }
    handlers::lemma_same_slot(calls, entered.stream.func.calls, d.index, 0);
    let b = s.call_part(d);
    if is_given(d.arguments) {
        let args = d.arguments->0;
        let ready = if entered.stream.func.calls[k].output_index is None {
            entered.call_announced(k)
        } else {
            entered
        };
        if entered.stream.func.calls[k].output_index is None {
            lemma_announced(entered, k);
        }
        assert(b == entered.call_args(k, args));
        assert(b.events.take(s.events.len() as int) =~= s.events);
        assert(b.events[ready.events.len() as int] == b.events.last());
        assert(gives_arguments(
            b.events.last(),
            b.stream.func.calls[k],
            b.stream.func.calls[k].output_index->0,
            args,
        ));
    } else {
        assert(b == entered);
    }
}

/// A piece of a call that is known changes that call alone: what the upstream API gave takes the
/// place of what was known, and the arguments grow.
pub proof fn law_piece_of_known_call(s: StepV, d: ToolCallDeltaV, k: int)
    requires
        s.stream.wf(),
        0 <= k < s.stream.func.calls.len(),
        s.stream.func.calls[k].index == d.index,
    ensures
        ({
            let b = s.call_part(d);
            let before = s.stream.func.calls;
            let after = b.stream.func.calls;
            &&& after.len() == before.len()
            &&& forall|j: int| 0 <= j < before.len() && j != k ==> #[trigger] after[j] == before[j]
            &&& takes_piece(s, b, d, before[k], after[k])
        }),
{
    let calls = s.stream.func.calls;
    lemma_piece(s, d);
    handlers::lemma_slot(calls, d.index, 0);
    let m = handlers::slot(calls, d.index);
    if m < k {
        assert(calls[m].index < calls[k].index);
    }
    assert(m == k);
}

/// A piece of a call that is not known adds a call, in the order of the indices.
pub proof fn law_piece_of_new_call(s: StepV, d: ToolCallDeltaV)
    requires
        s.stream.wf(),
        forall|j: int|
            0 <= j < s.stream.func.calls.len() ==> (#[trigger] s.stream.func.calls[j]).index
                != d.index,
    ensures
        ({
            let b = s.call_part(d);
            let before = s.stream.func.calls;
            let after = b.stream.func.calls;
            exists|k: int, was: CallV|
                {
                    &&& 0 <= k < after.len()
                    &&& after.remove(k) == before
                    &&& is_blank(was)
                    &&& #[trigger] takes_piece(s, b, d, was, after[k])
                }
        }),
        laws::calls_in_order(s.call_part(d).stream.func.calls),
{
    let calls = s.stream.func.calls;
    lemma_piece(s, d);
    handlers::lemma_slot(calls, d.index, 0);
    let k = handlers::slot(calls, d.index);
    let before = handlers::with_call(calls, d.index);
    handlers::lemma_with_call(calls, d.index);
    let b = s.call_part(d);
    let after = b.stream.func.calls;
    if k < calls.len() {
        assert(calls[k].index != d.index);
    }
    assert(before == calls.insert(k, handlers::blank_call(d.index)));
    assert(after.remove(k) =~= calls) by {
        assert forall|j: int| 0 <= j < calls.len() implies after.remove(k)[j] == calls[j] by {
            if j < k {
                assert(after[j] == before[j]);
            } else {
                assert(after[j + 1] == before[j + 1]);
            }
        }
    }
    assert(is_blank(before[k]));
    assert(takes_piece(s, b, d, before[k], after[k]));
    assert forall|i: int, j: int| 0 <= i < j < after.len() implies (#[trigger] after[i]).index < (
    #[trigger] after[j]).index by {
        assert(i != k ==> after[i] == before[i]);
        assert(j != k ==> after[j] == before[j]);
        let p = if i < k {
            i
        } else {
            i - 1
        };
        let q = if j < k {
            j
        } else {
            j - 1
        };
        if i != k {
            assert(before[i] == calls[p]);
        }
        if j != k {
            assert(before[j] == calls[q]);
        }
        if i == k {
            assert(calls[q].index >= calls[k].index);
        } else if j == k {
            assert(calls[p].index < d.index);
        } else {
            assert(calls[p].index < calls[q].index);
        }
    }
}

/// How many of the first `n` calls were announced.
pub open spec fn announced_among(calls: Seq<CallV>, n: int) -> int
    decreases n,
{
    if n <= 0 {
        0
    } else {
        announced_among(calls, n - 1) + if calls[n - 1].output_index is Some {
            1int
        } else {
            0int
        }
    }
}

proof fn lemma_announced_among(calls: Seq<CallV>, k: int, n: int)
    requires
        0 <= k <= n,
    ensures
        0 <= announced_among(calls, k) <= announced_among(calls, n),
        k < n && calls[k].output_index is Some ==> announced_among(calls, k) + 1
            <= announced_among(calls, n),
    decreases n,
{
    if k < n {
        lemma_announced_among(calls, k, n - 1);
    } else if n > 0 {
        lemma_announced_among(calls, k - 1, n - 1);
    }
}

/// A call that is closed gives out its arguments and the call as a whole, and keeps the reasoning
/// that belongs to it; one that was never announced gives out nothing.
pub proof fn law_call_closes(s: StepV, c: CallV, reasoning: Option<Seq<char>>)
    ensures
        ({
            let b = s.call_closed(c, reasoning);
            let n = s.events.len() as int;
            &&& c.output_index is None ==> b == s
            &&& c.output_index matches Some(i) ==> {
                &&& more_events(s, b, 2)
                &&& ends_arguments(b.events[n], c, i)
                &&& ends_call(b.events[n + 1], c, i)
                &&& is_given(reasoning) ==> b.saves == s.saves.push((c.call_id, reasoning->0))
                &&& !is_given(reasoning) ==> b.saves == s.saves
            }
            &&& b.stream == (StreamV { session: b.stream.session, ..s.stream })
        }),
{
    names::lemma_names();
    reveal_strlit("fc_");
    assert("fc_"@ =~= seq!['f', 'c', '_']);
    let b = s.call_closed(c, reasoning);
    assert(b.events.take(s.events.len() as int) =~= s.events);
}

proof fn lemma_calls_close(
    s: StepV,
    calls: Seq<CallV>,
    reasoning: Option<Seq<char>>,
    n: int,
)
    requires
        0 <= n <= calls.len(),
    ensures
        ({
            let b = s.calls_closed(calls, reasoning, n);
            let from = s.events.len() as int;
            &&& more_events(s, b, 2 * announced_among(calls, n))
            &&& forall|k: int|
                0 <= k < n && (#[trigger] calls[k]).output_index is Some ==> {
                    let at = from + 2 * announced_among(calls, k);
                    &&& ends_arguments(b.events[at], calls[k], calls[k].output_index->0)
                    &&& ends_call(b.events[at + 1], calls[k], calls[k].output_index->0)
                }
            &&& b.saves.len() == s.saves.len() + (if is_given(reasoning) {
                announced_among(calls, n)
            } else {
                0
            })
            &&& is_given(reasoning) ==> forall|k: int|
                0 <= k < n && (#[trigger] calls[k]).output_index is Some
                    ==> b.saves[s.saves.len() + announced_among(calls, k)] == (
                    calls[k].call_id,
                    reasoning->0,
                )
            &&& b.stream == (StreamV { session: b.stream.session, ..s.stream })
        }),
    decreases n,
{
    let b = s.calls_closed(calls, reasoning, n);
    let from = s.events.len() as int;
    if n <= 0 {
        assert(b.events.take(from) =~= s.events);
    } else {
        let a = s.calls_closed(calls, reasoning, n - 1);
        lemma_calls_close(s, calls, reasoning, n - 1);
        law_call_closes(a, calls[n - 1], reasoning);
        lemma_announced_among(calls, 0, n - 1);
        assert(b.events.take(from) =~= s.events) by {
            assert forall|j: int| 0 <= j < from implies b.events[j] == s.events[j] by {
                assert(a.events.take(from)[j] == a.events[j]);
                assert(b.events.take(a.events.len() as int)[j] == b.events[j]);
            }
        }
        assert forall|k: int| 0 <= k < n && (#[trigger] calls[k]).output_index is Some implies ({
            let at = from + 2 * announced_among(calls, k);
            &&& ends_arguments(b.events[at], calls[k], calls[k].output_index->0)
            &&& ends_call(b.events[at + 1], calls[k], calls[k].output_index->0)
        }) by {
            let at = from + 2 * announced_among(calls, k);
            if k < n - 1 {
                lemma_announced_among(calls, k, n - 1);
                assert(b.events.take(a.events.len() as int)[at] == b.events[at]);
                assert(b.events.take(a.events.len() as int)[at + 1] == b.events[at + 1]);
            }
        }
        if is_given(reasoning) {
            assert forall|k: int| 0 <= k < n && (#[trigger] calls[k]).output_index is Some implies
            b.saves[s.saves.len() + announced_among(calls, k)] == (calls[k].call_id, reasoning->0) by {
                if k < n - 1 {
                    lemma_announced_among(calls, 0, k);
                    lemma_announced_among(calls, k, n - 1);
                }
            }
        }
    }
}

/// When the calls are closed, each that was announced gives out its arguments and the call as a
/// whole, in the order of the calls, and each keeps the reasoning before it.
pub proof fn law_all_calls_close(s: StepV)
    ensures
        ({
            let b = s.funcs_closed();
            let calls = s.stream.func.calls;
            let from = s.events.len() as int;
            let reasoning = s.stream.reasoning.for_func_calls;
            &&& more_events(s, b, 2 * announced_among(calls, calls.len() as int))
            &&& forall|k: int|
                0 <= k < calls.len() && (#[trigger] calls[k]).output_index is Some ==> {
                    let at = from + 2 * announced_among(calls, k);
                    &&& ends_arguments(b.events[at], calls[k], calls[k].output_index->0)
                    &&& ends_call(b.events[at + 1], calls[k], calls[k].output_index->0)
                }
            &&& is_given(reasoning) ==> forall|k: int|
                0 <= k < calls.len() && (#[trigger] calls[k]).output_index is Some
                    ==> b.saves[s.saves.len() + announced_among(calls, k)] == (
                    calls[k].call_id,
                    reasoning->0,
                )
            &&& !is_given(reasoning) ==> b.saves.len() == s.saves.len()
            &&& b.stream.func.calls == calls
            &&& !b.stream.func.in_block
            &&& b.stream.reasoning.for_func_calls is None
            &&& b.stream.text == s.stream.text
            &&& b.stream.usage == s.stream.usage
        }),
{
    let calls = s.stream.func.calls;
    let taken = StepV {
        stream: StreamV {
            reasoning: super::ReasoningV { for_func_calls: None, ..s.stream.reasoning },
            ..s.stream
        },
        ..s
    };
    lemma_calls_close(taken, calls, s.stream.reasoning.for_func_calls, calls.len() as int);
}

/// Closing the calls leaves the rest of the stream as it is.
pub(super) proof fn lemma_calls_keep_rest(s: StepV)
    ensures
        s.funcs_closed().stream.reasoning.active == s.stream.reasoning.active,
        s.funcs_closed().stream.text == s.stream.text,
{
    let calls = s.stream.func.calls;
    let taken = StepV {
        stream: StreamV {
            reasoning: super::ReasoningV { for_func_calls: None, ..s.stream.reasoning },
            ..s.stream
        },
        ..s
    };
    lemma_calls_close(taken, calls, s.stream.reasoning.for_func_calls, calls.len() as int);
}

// ---------------------------------------------------------------------------------------------
// Reasoning
// ---------------------------------------------------------------------------------------------

/// The event stands at that place in a reasoning item.
pub open spec fn at_reasoning(e: EventV, id: Seq<char>, output_index: i64) -> bool {
    &&& e.payload.text_at("item_id"@) == Some(id)
    &&& number_at(e.payload, "output_index"@, output_index)
    &&& number_at(e.payload, "summary_index"@, 0)
}

/// A part of a reasoning item with that text.
pub open spec fn is_summary_part(v: JsonV, s: Seq<char>) -> bool {
    v.text_at("type"@) == Some("summary_text"@) && v.text_at("text"@) == Some(s)
}

/// Reasoning opens an item: it is announced, and then its one part.
pub proof fn law_reasoning_opens(s: StepV)
    ensures
        ({
            let b = s.reasoning_opened();
            let n = s.events.len() as int;
            let i = s.stream.text.current_output_index;
            let r = b.stream.reasoning;
            &&& s.stream.reasoning.active ==> b == s
            &&& !s.stream.reasoning.active ==> {
                &&& more_events(s, b, 2)
                &&& r.active
                &&& r.part_added
                &&& r.buf.len() == 0
                &&& r.output_index == i
                &&& r.for_func_calls == s.stream.reasoning.for_func_calls
                &&& b.stream.text.current_output_index == i.wrapping_add(1)
                &&& goes_by(b.events[n], "response.output_item.added"@)
                &&& number_at(b.events[n].payload, "output_index"@, i)
                &&& b.events[n].payload.get("item"@) matches Some(item)
                &&& item.text_at("id"@) == Some(r.item_id)
                &&& item.text_at("type"@) == Some("reasoning"@)
                &&& item.text_at("status"@) == Some("in_progress"@)
                &&& item.get("summary"@) matches Some(JsonV::Array(none))
                &&& none.len() == 0
                &&& goes_by(b.events[n + 1], "response.reasoning_summary_part.added"@)
                &&& at_reasoning(b.events[n + 1], r.item_id, i)
                &&& b.events[n + 1].payload.get("part"@) matches Some(part)
                &&& is_summary_part(part, Seq::empty())
                &&& r.item_id == seq!['r', 's', '_'] + s.stream.session.response_id + seq!['_']
                    + crate::text::decimal(s.stream.reasoning.sequence as int)
            }
            &&& b.stream.func == s.stream.func
            &&& b.saves == s.saves
        }),
{
    names::lemma_names();
    reveal_strlit("rs_");
    reveal_strlit("_");
    assert("rs_"@ =~= seq!['r', 's', '_']);
    assert("_"@ =~= seq!['_']);
    let b = s.reasoning_opened();
    assert(b.events.take(s.events.len() as int) =~= s.events);
}

/// A piece of reasoning is given out as it came, and added to the item.
pub proof fn law_reasoning_goes_on(s: StepV, piece: Seq<char>)
    ensures
        ({
            let a = s.reasoning_opened();
            let b = s.reasoning_part(piece);
            let n = a.events.len() as int;
            let r = a.stream.reasoning;
            &&& more_events(a, b, 1)
            &&& goes_by(b.events[n], "response.reasoning_summary_text.delta"@)
            &&& at_reasoning(b.events[n], r.item_id, r.output_index)
            &&& b.events[n].payload.text_at("text"@) == Some(piece)
            &&& b.stream.reasoning == (super::ReasoningV { buf: r.buf + piece, ..r })
            &&& b.stream.text == a.stream.text
            &&& b.stream.func == s.stream.func
            &&& b.saves == s.saves
        }),
{
    names::lemma_names();
    law_reasoning_opens(s);
    let a = s.reasoning_opened();
    let b = s.reasoning_part(piece);
    assert(b.events.take(a.events.len() as int) =~= a.events);
}

/// A reasoning item that closes gives out its text whole, and keeps it for the calls behind it.
pub proof fn law_reasoning_closes(s: StepV)
    ensures
        ({
            let b = s.reasoning_closed();
            let n = s.events.len() as int;
            let r = s.stream.reasoning;
            &&& !r.active ==> b == s
            &&& r.active ==> {
                &&& more_events(s, b, 3)
                &&& goes_by(b.events[n], "response.reasoning_summary_text.done"@)
                &&& at_reasoning(b.events[n], r.item_id, r.output_index)
                &&& b.events[n].payload.text_at("text"@) == Some(r.buf)
                &&& goes_by(b.events[n + 1], "response.reasoning_summary_part.done"@)
                &&& at_reasoning(b.events[n + 1], r.item_id, r.output_index)
                &&& b.events[n + 1].payload.get("part"@) matches Some(part)
                &&& is_summary_part(part, r.buf)
                &&& goes_by(b.events[n + 2], "response.output_item.done"@)
                &&& number_at(b.events[n + 2].payload, "output_index"@, r.output_index)
                &&& b.events[n + 2].payload.get("item"@) matches Some(item)
                &&& item.text_at("id"@) == Some(r.item_id)
                &&& item.text_at("type"@) == Some("reasoning"@)
                &&& item.text_at("status"@) == Some("completed"@)
                &&& item.get("summary"@) matches Some(JsonV::Array(parts))
                &&& parts.len() == 1
                &&& is_summary_part(parts[0], r.buf)
                &&& !b.stream.reasoning.active
                &&& b.stream.reasoning.buf.len() == 0
                &&& b.stream.reasoning.sequence == r.sequence.wrapping_add(1)
                &&& b.stream.reasoning.part_added == r.part_added
                &&& b.stream.reasoning.item_id == r.item_id
                &&& r.buf.len() > 0 ==> b.stream.reasoning.for_func_calls == Some(r.buf)
                &&& r.buf.len() == 0 ==> b.stream.reasoning.for_func_calls == r.for_func_calls
            }
            &&& b.stream.text == s.stream.text
            &&& b.stream.func == s.stream.func
            &&& b.saves == s.saves
        }),
{
    names::lemma_names();
    let b = s.reasoning_closed();
    assert(b.events.take(s.events.len() as int) =~= s.events);
}

// ---------------------------------------------------------------------------------------------
// The message
// ---------------------------------------------------------------------------------------------

/// The event stands at that place in a message.
pub open spec fn at_message(e: EventV, id: Seq<char>, output_index: i64) -> bool {
    &&& e.payload.text_at("item_id"@) == Some(id)
    &&& number_at(e.payload, "output_index"@, output_index)
    &&& number_at(e.payload, "content_index"@, 0)
}

/// The value has an empty array of that name.
pub open spec fn empty_at(v: JsonV, key: Seq<char>) -> bool {
    v.get(key) matches Some(JsonV::Array(none)) && none.len() == 0
}

/// The text part of a message.
pub open spec fn is_text_part(v: JsonV, s: Seq<char>) -> bool {
    &&& v.text_at("type"@) == Some("output_text"@)
    &&& v.text_at("text"@) == Some(s)
    &&& empty_at(v, "annotations"@)
    &&& empty_at(v, "logprobs"@)
}

/// A message of the assistant with that identifier and state.
pub open spec fn is_message(v: JsonV, id: Seq<char>, status: Seq<char>) -> bool {
    &&& v.text_at("type"@) == Some("message"@)
    &&& v.text_at("id"@) == Some(id)
    &&& v.text_at("status"@) == Some(status)
    &&& v.text_at("role"@) == Some("assistant"@)
}

/// The content part for an image.
pub open spec fn is_image_part(v: JsonV, url: Seq<char>) -> bool {
    &&& v.text_at("type"@) == Some("image_url"@)
    &&& v.get("image_url"@) matches Some(x)
    &&& x.text_at("url"@) == Some(url)
}

/// The content of a message: its text, and a part for each image that the text refers to.
pub open spec fn is_content(v: JsonV, s: Seq<char>) -> bool {
    let urls = super::images::image_urls(s);
    &&& v.get("content"@) matches Some(JsonV::Array(parts))
    &&& parts.len() == 1 + urls.len()
    &&& is_text_part(parts[0], s)
    &&& forall|i: int| 0 <= i < urls.len() ==> is_image_part(parts[1 + i], #[trigger] urls[i])
}

/// Content opens a message: it is announced, and then its text part.
pub proof fn law_message_opens(s: StepV)
    ensures
        ({
            let b = s.text_opened();
            let n = s.events.len() as int;
            let i = s.stream.text.current_output_index;
            let t = b.stream.text;
            &&& s.stream.text.in_block ==> b == s
            &&& !s.stream.text.in_block ==> {
                &&& more_events(s, b, 2)
                &&& t.in_block
                &&& t.buf.len() == 0
                &&& t.msg_output_index == i
                &&& t.current_output_index == i.wrapping_add(1)
                &&& goes_by(b.events[n], "response.output_item.added"@)
                &&& number_at(b.events[n].payload, "output_index"@, i)
                &&& b.events[n].payload.get("item"@) matches Some(item)
                &&& is_message(item, t.msg_id, "in_progress"@)
                &&& empty_at(item, "content"@)
                &&& goes_by(b.events[n + 1], "response.content_part.added"@)
                &&& at_message(b.events[n + 1], t.msg_id, i)
                &&& b.events[n + 1].payload.get("part"@) matches Some(part)
                &&& is_text_part(part, Seq::empty())
                &&& t.msg_id == seq!['m', 's', 'g', '_'] + s.stream.session.response_id + seq!['_']
                    + crate::text::decimal(i as int)
            }
            &&& b.stream.func == s.stream.func
            &&& b.stream.reasoning == s.stream.reasoning
            &&& b.saves == s.saves
        }),
{
    names::lemma_names();
    reveal_strlit("msg_");
    reveal_strlit("_");
    assert("msg_"@ =~= seq!['m', 's', 'g', '_']);
    assert("_"@ =~= seq!['_']);
    let b = s.text_opened();
    assert(b.events.take(s.events.len() as int) =~= s.events);
}

/// A piece of content is given out as it came, and added to the message.
pub proof fn law_message_goes_on(s: StepV, piece: Seq<char>)
    ensures
        ({
            let a = s.text_opened();
            let b = s.content_part(piece);
            let n = a.events.len() as int;
            let t = a.stream.text;
            &&& more_events(a, b, 1)
            &&& goes_by(b.events[n], "response.output_text.delta"@)
            &&& at_message(b.events[n], t.msg_id, t.msg_output_index)
            &&& b.events[n].payload.text_at("delta"@) == Some(piece)
            &&& empty_at(b.events[n].payload, "logprobs"@)
            &&& b.stream.text == (super::TextV { buf: t.buf + piece, ..t })
            &&& b.stream.func == s.stream.func
            &&& b.stream.reasoning == s.stream.reasoning
            &&& b.saves == s.saves
        }),
{
    names::lemma_names();
    law_message_opens(s);
    let a = s.text_opened();
    let b = s.content_part(piece);
    assert(b.events.take(a.events.len() as int) =~= a.events);
}

pub(super) proof fn lemma_parts(s: Seq<char>)
    ensures
        ({
            let parts = handlers::message_parts(s);
            let urls = super::images::image_urls(s);
            &&& parts.len() == 1 + urls.len()
            &&& is_text_part(parts[0], s)
            &&& forall|i: int| 0 <= i < urls.len() ==> is_image_part(parts[1 + i], #[trigger] urls[i])
        }),
{
    names::lemma_names();
    let urls = super::images::image_urls(s);
    let parts = handlers::message_parts(s);
    assert forall|i: int| 0 <= i < urls.len() implies is_image_part(parts[1 + i], #[trigger] urls[i]) by {
        assert(parts[1 + i] == super::images::image_part(urls[i]));
    }
}

/// A message that closes gives out its text whole, and the images that the text refers to.
pub proof fn law_message_closes(s: StepV)
    ensures
        ({
            let b = s.text_closed();
            let n = s.events.len() as int;
            let t = s.stream.text;
            &&& !t.in_block ==> b == s
            &&& t.in_block ==> {
                &&& more_events(s, b, 3)
                &&& goes_by(b.events[n], "response.output_text.done"@)
                &&& at_message(b.events[n], t.msg_id, t.msg_output_index)
                &&& b.events[n].payload.text_at("text"@) == Some(t.buf)
                &&& empty_at(b.events[n].payload, "logprobs"@)
                &&& goes_by(b.events[n + 1], "response.content_part.done"@)
                &&& at_message(b.events[n + 1], t.msg_id, t.msg_output_index)
                &&& b.events[n + 1].payload.get("part"@) matches Some(part)
                &&& is_text_part(part, t.buf)
                &&& goes_by(b.events[n + 2], "response.output_item.done"@)
                &&& number_at(b.events[n + 2].payload, "output_index"@, t.msg_output_index)
                &&& b.events[n + 2].payload.get("item"@) matches Some(item)
                &&& is_message(item, t.msg_id, "completed"@)
                &&& is_content(item, t.buf)
                &&& b.stream.text == (super::TextV { in_block: false, ..t })
            }
            &&& b.stream.func == s.stream.func
            &&& b.stream.reasoning == s.stream.reasoning
            &&& b.saves == s.saves
        }),
{
    names::lemma_names();
    lemma_parts(s.stream.text.buf);
    let b = s.text_closed();
    assert(b.events.take(s.events.len() as int) =~= s.events);
}

} // verus!

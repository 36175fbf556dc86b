//! What holds of every stream under way.

use vstd::prelude::*;
use vstd::string::*;

use super::{ProgressV, PumpV, Surroundings};
use crate::converter::stream;
use crate::converter::stream::laws;
use crate::converter::stream::{EventV, StepV};
use crate::converter::Entries;
use crate::json;
use crate::json::JsonV;
use crate::text;

verus! {

// ---------------------------------------------------------------------------------------------
// Lines
// ---------------------------------------------------------------------------------------------

/// The end of a line.
pub open spec fn newline() -> Seq<char> {
    seq!['\n']
}

/// The text ends with the end of a line.
pub open spec fn ends_line(s: Seq<char>) -> bool {
    s.len() > 0 && s.last() == '\n'
}

/// A search from a position on sees what is behind that position.
proof fn lemma_found_shift(s: Seq<char>, pat: Seq<char>, i: int)
    requires
        0 <= i <= s.len(),
        pat.len() > 0,
    ensures
        text::found_from(s, pat, i) == (match text::found(s.skip(i), pat) {
            Some(j) => Some(i + j),
            None => None,
        }),
{
    let rest = s.skip(i);
    text::lemma_found_from(s, pat, i);
    text::lemma_found_from(rest, pat, 0);
    assert forall|j: int| 0 <= j implies text::occurs_at(rest, pat, j) == text::occurs_at(
        s,
        pat,
        i + j,
    ) by {
        if j + pat.len() <= rest.len() {
            assert(rest.subrange(j, j + pat.len()) =~= s.subrange(i + j, i + j + pat.len()));
        }
    }
    if let Some(j) = text::found(rest, pat) {
        assert(text::occurs_at(s, pat, i + j));
        if let Some(k) = text::found_from(s, pat, i) {
            if k < i + j {
                assert(text::occurs_at(rest, pat, k - i));
            }
        }
    } else {
        if let Some(k) = text::found_from(s, pat, i) {
            assert(text::occurs_at(rest, pat, k - i));
        }
    }
}

/// The lines from a position on are those of what is behind that position.
proof fn lemma_lines_shift(s: Seq<char>, i: int)
    requires
        0 <= i <= s.len(),
    ensures
        text::lines_from(s, i) == text::lines(s.skip(i)),
    decreases s.len() - i,
{
    let rest = s.skip(i);
    let nl = newline();
    if i < s.len() {
        lemma_found_shift(s, nl, i);
        text::lemma_found_from(s, nl, i);
        text::lemma_found_from(rest, nl, 0);
        if let Some(j) = text::found(rest, nl) {
            lemma_lines_shift(s, i + j + 1);
            lemma_lines_shift(rest, j + 1);
            assert(rest.skip(j + 1) =~= s.skip(i + j + 1));
            assert(rest.subrange(0, j) =~= s.subrange(i, i + j));
        } else {
            assert(rest.skip(0) =~= rest);
        }
    }
}

/// The lines of a text that goes on.
proof fn lemma_lines_go_on(x: Seq<char>, b: Seq<char>)
    ensures
        ends_line(x) ==> text::lines(x + b) == text::lines(x) + text::lines(b),
        x.len() > 0 && !ends_line(x) ==> text::lines(x).len() > 0 && text::lines(x + b)
            == text::lines(x).drop_last() + text::lines(text::lines(x).last() + b),
    decreases x.len(),
{
    let nl = newline();
    let whole = x + b;
    text::lemma_found_from(x, nl, 0);
    text::lemma_found_from(whole, nl, 0);
    if x.len() > 0 {
        if let Some(p) = text::found(x, nl) {
            assert(whole.subrange(p, p + 1) =~= x.subrange(p, p + 1));
            assert(text::occurs_at(whole, nl, p));
            if let Some(q) = text::found(whole, nl) {
                if q < p {
                    assert(whole.subrange(q, q + 1) =~= x.subrange(q, q + 1));
                    assert(text::occurs_at(x, nl, q));
                }
            }
            assert(text::found(whole, nl) == Some(p));
            assert(whole.subrange(0, p) =~= x.subrange(0, p));
            let head = seq![text::chomped(x.subrange(0, p))];
            let y = x.skip(p + 1);
            assert(whole.skip(p + 1) =~= y + b);
            lemma_lines_shift(x, p + 1);
            lemma_lines_shift(whole, p + 1);
            lemma_lines_go_on(y, b);
            assert(text::lines(x) == head + text::lines(y));
            assert(text::lines(whole) == head + text::lines(y + b));
            if y.len() == 0 {
                assert(y + b =~= b);
                assert(text::lines(y) =~= Seq::empty());
                assert(x.subrange(p, p + 1)[0] == '\n');
                assert(x.last() == '\n');
                assert(head + text::lines(b) =~= text::lines(x) + text::lines(b));
            } else {
                assert(y.last() == x.last());
                if ends_line(x) {
                    assert(head + (text::lines(y) + text::lines(b)) =~= text::lines(x)
                        + text::lines(b));
                } else {
                    assert(text::lines(x).last() == text::lines(y).last());
                    assert(text::lines(x).drop_last() =~= head + text::lines(y).drop_last());
                    let more = text::lines(text::lines(y).last() + b);
                    assert(head + (text::lines(y).drop_last() + more) =~= text::lines(
                        x,
                    ).drop_last() + more);
                }
            }
        } else {
            if ends_line(x) {
                let last = x.len() - 1;
                assert(x.subrange(last, last + 1) =~= nl);
                assert(text::occurs_at(x, nl, last));
            }
            assert(x.skip(0) =~= x);
            assert(text::lines(x) =~= seq![x]);
            assert(text::lines(x).drop_last() =~= Seq::<Seq<char>>::empty());
            assert(text::lines(x).drop_last() + text::lines(x + b) =~= text::lines(x + b));
        }
    }
}

/// Lines hold no ends of lines.
proof fn lemma_lines_hold_none(s: Seq<char>, k: int)
    requires
        0 <= k < text::lines(s).len(),
    ensures
        !ends_line(text::lines(s)[k]),
    decreases s.len(),
{
    let nl = newline();
    text::lemma_found_from(s, nl, 0);
    if s.len() > 0 {
        if let Some(p) = text::found(s, nl) {
            let head = s.subrange(0, p);
            lemma_lines_shift(s, p + 1);
            if k == 0 {
                let line = text::chomped(head);
                if ends_line(line) {
                    let x = line.len() - 1;
                    assert(s.subrange(x, x + 1) =~= nl);
                    assert(text::occurs_at(s, nl, x));
                }
            } else {
                lemma_lines_hold_none(s.skip(p + 1), k - 1);
                assert(text::lines(s)[k] == text::lines(s.skip(p + 1))[k - 1]);
            }
        } else {
            assert(s.skip(0) =~= s);
            if ends_line(s) {
                let x = s.len() - 1;
                assert(s.subrange(x, x + 1) =~= nl);
                assert(text::occurs_at(s, nl, x));
            }
        }
    }
}

/// The lines that are complete do not depend on how the data are cut into pieces, and neither does
/// the beginning of the next line.
pub proof fn law_lines_do_not_depend_on_cuts(partial: Seq<char>, a: Seq<char>, b: Seq<char>)
    requires
        !ends_line(partial),
    ensures
        ({
            let first = super::complete_lines(partial, a, ends_line(a));
            let second = super::complete_lines(first.1, b, ends_line(b));
            let whole = super::complete_lines(partial, a + b, ends_line(a + b));
            &&& whole.0 == first.0 + second.0
            &&& whole.1 == second.1
            &&& !ends_line(first.1)
        }),
{
    let first = super::complete_lines(partial, a, ends_line(a));
    let second = super::complete_lines(first.1, b, ends_line(b));
    let whole = super::complete_lines(partial, a + b, ends_line(a + b));
    let x = partial + a;
    assert(partial + (a + b) =~= x + b);
    lemma_lines_go_on(x, b);
    assert(ends_line(x) == ends_line(a));
    if text::lines(x).len() > 0 {
        lemma_lines_hold_none(x, text::lines(x).len() - 1);
    }
    if b.len() == 0 {
        assert(a + b =~= a);
        assert(first.1 + b =~= first.1);
        lemma_lines_of_line(first.1);
        assert(whole.0 =~= first.0 + second.0);
        assert(whole.1 =~= second.1);
    } else {
        assert(ends_line(a + b) == ends_line(b));
        let rest = text::lines(first.1 + b);
        if ends_line(a) {
            assert(first.1 + b =~= b);
            assert(text::lines(x + b) == text::lines(x) + rest);
        } else if x.len() == 0 {
            assert(x + b =~= b);
            assert(first.1 + b =~= b);
            assert(first.0 =~= Seq::empty());
            assert(Seq::empty() + rest =~= rest);
        } else {
            assert(text::lines(x + b) == first.0 + rest);
        }
        assert(text::lines(x + b) == first.0 + rest);
        lemma_lines_some(first.1 + b);
        if !ends_line(b) {
            assert((first.0 + rest).drop_last() =~= first.0 + rest.drop_last());
            assert((first.0 + rest).last() == rest.last());
        }
    }
}

/// A text that holds something has a line.
proof fn lemma_lines_some(s: Seq<char>)
    requires
        s.len() > 0,
    ensures
        text::lines(s).len() > 0,
{
    text::lemma_found_from(s, newline(), 0);
}

/// What was the last line of a text, and did not end there, is the only line of itself.
proof fn lemma_lines_of_line(line: Seq<char>)
    ensures
        text::lines(line).len() > 0 && !ends_line(line) && text::found(line, newline()) is None
            ==> text::lines(line) == seq![line],
        line.len() == 0 ==> text::lines(line) == Seq::<Seq<char>>::empty(),
{
    assert(line.skip(0) =~= line);
}

// ---------------------------------------------------------------------------------------------
// Data
// ---------------------------------------------------------------------------------------------

proof fn lemma_lines_split(
    p: ProgressV,
    a: Seq<Seq<char>>,
    b: Seq<Seq<char>>,
    k: int,
    env: Surroundings,
)
    requires
        0 <= k <= b.len(),
    ensures
        p.lines(a + b, a.len() + k, env) == p.lines(a, a.len() as int, env).lines(b, k, env),
    decreases k,
{
    if k == 0 {
        lemma_lines_prefix(p, a, b, a.len() as int, env);
    } else {
        lemma_lines_split(p, a, b, k - 1, env);
        assert((a + b)[a.len() + k - 1] == b[k - 1]);
    }
}

proof fn lemma_lines_prefix(
    p: ProgressV,
    a: Seq<Seq<char>>,
    b: Seq<Seq<char>>,
    n: int,
    env: Surroundings,
)
    requires
        0 <= n <= a.len(),
    ensures
        p.lines(a + b, n, env) == p.lines(a, n, env),
    decreases n,
{
    if n > 0 {
        lemma_lines_prefix(p, a, b, n - 1, env);
        assert((a + b)[n - 1] == a[n - 1]);
    }
}

/// The events that came out before do not change what comes out.
proof fn lemma_lines_events(p: ProgressV, lines: Seq<Seq<char>>, n: int, env: Surroundings)
    ensures
        ({
            let fresh = ProgressV { events: Seq::empty(), ..p }.lines(lines, n, env);
            p.lines(lines, n, env) == (ProgressV { events: p.events + fresh.events, ..fresh })
        }),
    decreases n,
{
    let start = ProgressV { events: Seq::empty(), ..p };
    if n <= 0 {
        assert(p.events + Seq::empty() =~= p.events);
    } else {
        lemma_lines_events(p, lines, n - 1, env);
        let a = p.lines(lines, n - 1, env);
        let b = start.lines(lines, n - 1, env);
        let x = a.line(lines[n - 1], env);
        let y = b.line(lines[n - 1], env);
        assert(x.events =~= p.events + y.events);
    }
}

/// A stream comes to the same, and the client gets the same events, however the text of the
/// upstream API is cut into pieces.
pub proof fn law_data_cuts_do_not_matter(
    p: PumpV,
    store: Entries,
    a: Seq<char>,
    b: Seq<char>,
    env: Surroundings,
)
    requires
        !ends_line(p.partial),
    ensures
        ({
            let whole = super::pumped(p, store, a + b, ends_line(a + b), env);
            let first = super::pumped(p, store, a, ends_line(a), env);
            let between = PumpV {
                state: first.state,
                partial: super::complete_lines(p.partial, a, ends_line(a)).1,
                completed_sent: first.completed_sent,
                ..p
            };
            let second = super::pumped(between, first.store, b, ends_line(b), env);
            &&& whole.state == second.state
            &&& whole.completed_sent == second.completed_sent
            &&& whole.store == second.store
            &&& whole.events == first.events + second.events
        }),
{
    law_lines_do_not_depend_on_cuts(p.partial, a, b);
    let l1 = super::complete_lines(p.partial, a, ends_line(a));
    let l2 = super::complete_lines(l1.1, b, ends_line(b)).0;
    let start = ProgressV {
        state: p.state,
        completed_sent: p.completed_sent,
        store,
        events: Seq::empty(),
    };
    let first = super::pumped(p, store, a, ends_line(a), env);
    lemma_lines_split(start, l1.0, l2, l2.len() as int, env);
    lemma_lines_events(first, l2, l2.len() as int, env);
}

// ---------------------------------------------------------------------------------------------
// The end of a stream
// ---------------------------------------------------------------------------------------------

/// A stream that was ended gives out nothing more when it is ended again.
pub proof fn law_ends_once(
    before: (PumpV, Entries),
    request: JsonV,
    inject: bool,
    now: u128,
    between: (PumpV, Entries),
    out: Option<Seq<char>>,
    later: u128,
    after: (PumpV, Entries),
    more: Option<Seq<char>>,
)
    requires
        super::finishes(before, request, inject, now, between, out),
        super::finishes(between, request, inject, later, after, more),
    ensures
        more is None,
        after == between,
{
}

/// The event that completes a response is noticed as such.
proof fn lemma_completion_noticed(payload: Seq<char>)
    ensures
        text::has_text(stream::sse_text("response.completed"@, payload), "response.completed"@),
{
    let name = "response.completed"@;
    let s = stream::sse_text(name, payload);
    reveal_strlit("event: ");
    assert(s.subrange(7, (7 + name.len()) as int) =~= name);
    assert(text::occurs_at(s, name, 7));
}

/// Once the upstream API has announced the end of the stream, the client was told of the end of
/// the response, and is not told again.
pub proof fn law_end_marker_is_noticed(p: ProgressV, line: Seq<char>, env: Surroundings)
    requires
        laws::is_end_marker(line),
        super::or_initial(p.state).wf(),
    ensures
        p.line(line, env).completed_sent,
{
    let st = super::or_initial(p.state);
    let s = StepV::start(st);
    let b = s.line(line, env.request, env.inject, env.random, env.time);
    laws::law_lines(s, line, env.request, env.inject, env.random, env.time);
    laws::law_completion_comes_last(st, env.request, env.inject);
    let last = b.events.len() - 1;
    let events = stream::wire(b.events);
    lemma_completion_noticed(json::json_text(b.events[last].payload));
    assert(events[last] == stream::sse_text(
        "response.completed"@,
        json::json_text(b.events[last].payload),
    ));
}

/// A stream of which a line has come, and of whose end the client was not told, is ended with the
/// event that completes the response.
pub proof fn law_end_completes(
    before: (PumpV, Entries),
    request: JsonV,
    inject: bool,
    now: u128,
    after: (PumpV, Entries),
    out: Option<Seq<char>>,
)
    requires
        super::finishes(before, request, inject, now, after, out),
        !before.0.completed_sent,
        !before.0.ended,
        before.0.state matches Some(st) && st.wf(),
    ensures
        exists|events: Seq<EventV>|
            out == Some(text::concatenated(#[trigger] stream::wire(events))) && events.len() > 0
                && events.last().name == "response.completed"@ && laws::inside(
                events.drop_last(),
                0,
            ),
{
    let st = super::or_initial(before.0.state);
    let step = StepV::start(st).completed(request, inject);
    laws::law_completion_comes_last(st, request, inject);
    assert(out == Some(text::concatenated(stream::wire(step.events))));
}

/// Lines keep a stream in order.
pub proof fn law_lines_keep_order(
    p: ProgressV,
    lines: Seq<Seq<char>>,
    n: int,
    env: Surroundings,
)
    requires
        super::or_initial(p.state).wf(),
    ensures
        super::or_initial(p.lines(lines, n, env).state).wf(),
    decreases n,
{
    if n > 0 {
        law_lines_keep_order(p, lines, n - 1, env);
        laws::law_line_keeps_order(
            super::or_initial(p.lines(lines, n - 1, env).state),
            lines[n - 1],
            env.request,
            env.inject,
            env.random,
            env.time,
        );
    }
}

} // verus!

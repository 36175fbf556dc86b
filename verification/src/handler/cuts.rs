//! Where the bytes of a stream are cut into pieces does not matter.

use vstd::prelude::*;
use vstd::string::*;
use vstd::utf8::*;

use super::laws;
use super::{ProgressV, PumpV, Surroundings};
use crate::converter::stream;
use crate::converter::stream::laws as stream_laws;
use crate::converter::stream::StepV;
use crate::converter::Entries;
use crate::json::JsonV;
use crate::text;
use crate::types::ChunkV;
use crate::utf8_stream;

verus! {

// ---------------------------------------------------------------------------------------------
// Chance and time
// ---------------------------------------------------------------------------------------------

/// The first chunk among the first `n` lines.
pub open spec fn first_chunk(lines: Seq<Seq<char>>, n: int) -> Option<ChunkV>
    decreases n,
{
    if n <= 0 {
        None
    } else if first_chunk(lines, n - 1) is Some {
        first_chunk(lines, n - 1)
    } else {
        stream_laws::line_chunk(lines[n - 1])
    }
}

/// A stream that still waits for its first chunk finds one with an identifier and a time, where
/// the lines hold a chunk at all.
pub open spec fn opens_named(state: Option<stream::StreamV>, lines: Seq<Seq<char>>) -> bool {
    super::or_initial(state).session.first_chunk ==> stream_laws::is_named(
        first_chunk(lines, lines.len() as int),
    )
}

/// The client asks for the same.
pub open spec fn same_request(a: Surroundings, b: Surroundings) -> bool {
    a.request == b.request && a.inject == b.inject
}

/// The streams are the same, and have given out the same; the stores may differ.
spec fn alike(a: ProgressV, b: ProgressV) -> bool {
    a.state == b.state && a.completed_sent == b.completed_sent && a.events == b.events
}

proof fn lemma_first_chunk_stays(lines: Seq<Seq<char>>, m: int, n: int)
    requires
        0 <= m <= n,
        first_chunk(lines, m) is Some,
    ensures
        first_chunk(lines, n) == first_chunk(lines, m),
    decreases n,
{
    if m < n {
        lemma_first_chunk_stays(lines, m, n - 1);
    }
}

proof fn lemma_first_chunk_prefix(a: Seq<Seq<char>>, b: Seq<Seq<char>>, n: int)
    requires
        0 <= n <= a.len(),
    ensures
        first_chunk(a + b, n) == first_chunk(a, n),
    decreases n,
{
    if n > 0 {
        lemma_first_chunk_prefix(a, b, n - 1);
        assert((a + b)[n - 1] == a[n - 1]);
    }
}

proof fn lemma_first_chunk_split(a: Seq<Seq<char>>, b: Seq<Seq<char>>, k: int)
    requires
        0 <= k <= b.len(),
    ensures
        first_chunk(a + b, a.len() + k) == (if first_chunk(a, a.len() as int) is Some {
            first_chunk(a, a.len() as int)
        } else {
            first_chunk(b, k)
        }),
    decreases k,
{
    if k == 0 {
        lemma_first_chunk_prefix(a, b, a.len() as int);
    } else {
        lemma_first_chunk_split(a, b, k - 1);
        assert((a + b)[a.len() + k - 1] == b[k - 1]);
    }
}

/// A stream waits for its first chunk until the lines have held one.
proof fn lemma_waits(p: ProgressV, lines: Seq<Seq<char>>, n: int, env: Surroundings)
    requires
        super::or_initial(p.state).wf(),
        0 <= n,
    ensures
        super::or_initial(p.lines(lines, n, env).state).session.first_chunk == (
        super::or_initial(p.state).session.first_chunk && first_chunk(lines, n) is None),
    decreases n,
{
    if n > 0 {
        lemma_waits(p, lines, n - 1, env);
        laws::law_lines_keep_order(p, lines, n - 1, env);
        stream_laws::law_first_chunk_comes_once(
            super::or_initial(p.lines(lines, n - 1, env).state),
            lines[n - 1],
            env.request,
            env.inject,
            env.random,
            env.time,
        );
    }
}

/// Lines come to the same, whatever chance, time and store.
proof fn lemma_alike(
    p: ProgressV,
    q: ProgressV,
    lines: Seq<Seq<char>>,
    n: int,
    env: Surroundings,
    other: Surroundings,
)
    requires
        alike(p, q),
        super::or_initial(p.state).wf(),
        same_request(env, other),
        opens_named(p.state, lines),
        0 <= n <= lines.len(),
    ensures
        alike(p.lines(lines, n, env), q.lines(lines, n, other)),
    decreases n,
{
    if n > 0 {
        lemma_alike(p, q, lines, n - 1, env, other);
        lemma_waits(p, lines, n - 1, env);
        let st = super::or_initial(p.lines(lines, n - 1, env).state);
        if st.session.first_chunk && stream_laws::line_chunk(lines[n - 1]) is Some {
            assert(first_chunk(lines, n) == stream_laws::line_chunk(lines[n - 1]));
            lemma_first_chunk_stays(lines, n, lines.len() as int);
        }
        stream_laws::law_chance_matters_only_without_name(
            StepV::start(st),
            lines[n - 1],
            env.request,
            env.inject,
            env.random,
            env.time,
            other.random,
            other.time,
        );
    }
}

/// The lines that are complete once these bytes have come.
pub open spec fn lines_with(p: PumpV, bytes: Seq<u8>) -> Seq<Seq<char>> {
    let all = p.undecoded + bytes;
    super::complete_lines(
        p.partial,
        utf8_stream::text_in(all.take(all.len() - utf8_stream::unfinished(all))),
        utf8_stream::ends_with_newline(bytes),
    ).0
}

/// What bytes come to for the client depends on random text and time only where the first chunk
/// has no identifier or no time, and not on the store.
pub proof fn law_chance_matters_only_without_name(
    p: PumpV,
    bytes: Seq<u8>,
    store: Entries,
    env: Surroundings,
    after: (PumpV, Entries),
    out: Option<Seq<char>>,
    other_store: Entries,
    other: Surroundings,
    other_after: (PumpV, Entries),
    other_out: Option<Seq<char>>,
)
    requires
        super::or_initial(p.state).wf(),
        same_request(env, other),
        opens_named(p.state, lines_with(p, bytes)),
        super::feeds_bytes((p, store), bytes, env, after, out),
        super::feeds_bytes((p, other_store), bytes, other, other_after, other_out),
    ensures
        after.0 == other_after.0,
        out == other_out,
{
    let lines = lines_with(p, bytes);
    let a = ProgressV {
        state: p.state,
        completed_sent: p.completed_sent,
        store,
        events: Seq::empty(),
    };
    let b = ProgressV { store: other_store, ..a };
    lemma_alike(a, b, lines, lines.len() as int, env, other);
}

/// The end of a stream is the same for the client whatever the time and the store.
pub proof fn law_end_depends_on_stream_alone(
    p: PumpV,
    request: JsonV,
    inject: bool,
    store: Entries,
    now: u128,
    after: (PumpV, Entries),
    out: Option<Seq<char>>,
    other_store: Entries,
    other_now: u128,
    other_after: (PumpV, Entries),
    other_out: Option<Seq<char>>,
)
    requires
        super::finishes((p, store), request, inject, now, after, out),
        super::finishes((p, other_store), request, inject, other_now, other_after, other_out),
    ensures
        after.0 == other_after.0,
        out == other_out,
{
}

// ---------------------------------------------------------------------------------------------
// Pieces of bytes
// ---------------------------------------------------------------------------------------------

/// The text that the client gets, if any.
pub open spec fn sent(out: Option<Seq<char>>) -> Seq<char> {
    text::or_text(out, Seq::empty())
}

/// All that the client gets for the first `n` pieces.
pub open spec fn body(outs: Seq<Option<Seq<char>>>, n: int) -> Seq<char>
    decreases n,
{
    if n <= 0 {
        Seq::empty()
    } else {
        body(outs, n - 1) + sent(outs[n - 1])
    }
}

/// A stream that takes in pieces, one after the other. It stands at `states[i]` when piece `i`
/// comes, and the client gets `outs[i]` for it. Chance, time and store may be others for each.
#[verifier::ext_equal]
pub struct RunV {
    pub pieces: Seq<Seq<u8>>,
    pub envs: Seq<Surroundings>,
    pub states: Seq<(PumpV, Entries)>,
    pub outs: Seq<Option<Seq<char>>>,
}

impl RunV {
    /// Each piece comes to what it should.
    pub open spec fn wf(self) -> bool {
        let n = self.pieces.len();
        &&& self.envs.len() == n
        &&& self.outs.len() == n
        &&& self.states.len() == n + 1
        &&& forall|i: int|
            0 <= i < n ==> super::feeds_bytes(
                self.states[i],
                #[trigger] self.pieces[i],
                self.envs[i],
                self.states[i + 1],
                self.outs[i],
            )
    }

    /// All bytes.
    pub open spec fn bytes(self) -> Seq<u8> {
        utf8_stream::bytes_of(self.pieces, self.pieces.len() as int)
    }

    /// The stream at the end.
    pub open spec fn last(self) -> PumpV {
        self.states[self.pieces.len() as int].0
    }

    /// All that the client gets.
    pub open spec fn body(self) -> Seq<char> {
        body(self.outs, self.pieces.len() as int)
    }

    /// The client asks for the same all the time.
    pub open spec fn serves(self, request: JsonV, inject: bool) -> bool {
        forall|i: int|
            0 <= i < self.pieces.len() ==> (#[trigger] self.envs[i]).request == request
                && self.envs[i].inject == inject
    }

    /// No piece breaks off inside of a character that directly follows the end of a line.
    pub open spec fn is_cut_well(self) -> bool {
        forall|i: int|
            0 <= i < self.pieces.len() ==> !utf8_stream::breaks_off_behind_line(
                #[trigger] utf8_stream::taken_in(self.pieces, i),
            )
    }
}

/// A stream that can take in pieces: nothing is held back but the beginning of a line.
pub open spec fn is_ready(p: PumpV) -> bool {
    &&& p.undecoded.len() == 0
    &&& !p.partial.contains('\n')
    &&& super::or_initial(p.state).wf()
}

/// A stream from which nothing has come can take in pieces.
pub proof fn law_new_stream_is_ready(p: PumpV)
    requires
        p.undecoded.len() == 0,
        p.partial.len() == 0,
        p.state is None,
    ensures
        is_ready(p),
{
    stream_laws::law_new_stream_in_order();
}

spec fn start_of(p: PumpV, store: Entries) -> ProgressV {
    ProgressV {
        state: p.state,
        completed_sent: p.completed_sent,
        store,
        events: Seq::empty(),
    }
}

/// What the first `n` pieces come to: what their text would come to at once.
proof fn lemma_run(run: RunV, n: int, env: Surroundings)
    requires
        run.wf(),
        run.serves(env.request, env.inject),
        run.is_cut_well(),
        valid_utf8(run.bytes()),
        is_ready(run.states[0].0),
        opens_named(
            run.states[0].0.state,
            super::complete_lines(
                run.states[0].0.partial,
                decode_utf8(run.bytes()),
                laws::ends_line(decode_utf8(run.bytes())),
            ).0,
        ),
        0 <= n <= run.pieces.len(),
    ensures
        ({
            let p = run.states[0].0;
            let (held, t) = utf8_stream::processed(run.pieces, n);
            let lines = super::complete_lines(p.partial, t, laws::ends_line(t));
            let q = super::pumped(p, run.states[0].1, t, laws::ends_line(t), env);
            &&& run.states[n].0 == (PumpV {
                undecoded: held,
                state: q.state,
                partial: lines.1,
                completed_sent: q.completed_sent,
                ..p
            })
            &&& body(run.outs, n) == text::concatenated(q.events)
        }),
    decreases n,
{
    let p = run.states[0].0;
    let store = run.states[0].1;
    let (held, t) = utf8_stream::processed(run.pieces, n);
    lemma_nothing(p.partial);
    if n == 0 {
        assert(p.undecoded =~= held);
    } else {
        lemma_run(run, n - 1, env);
        let (held0, t0) = utf8_stream::processed(run.pieces, n - 1);
        let x = utf8_stream::text_out(run.pieces, n - 1);
        let flag = utf8_stream::ends_with_newline(run.pieces[n - 1]);
        assert(t == t0 + x);
        assert(!utf8_stream::breaks_off_behind_line(utf8_stream::taken_in(run.pieces, n - 1)));
        utf8_stream::law_newline_shows(run.pieces, n - 1);
        assert(flag == laws::ends_line(x));
        laws::law_data_cuts_do_not_matter(p, store, t0, x, env);
        laws::law_lines_do_not_depend_on_cuts(p.partial, t0, x);
        let l1 = super::complete_lines(p.partial, t0, laws::ends_line(t0));
        let l2 = super::complete_lines(l1.1, x, laws::ends_line(x));
        let q0 = super::pumped(p, store, t0, laws::ends_line(t0), env);
        let q = super::pumped(p, store, t, laws::ends_line(t), env);
        let here = run.states[n - 1].0;
        let e = run.envs[n - 1];
        assert(super::feeds_bytes(
            run.states[n - 1],
            run.pieces[n - 1],
            e,
            run.states[n],
            run.outs[n - 1],
        ));
        // The same lines, with this chance, this time and this store.
        laws::law_lines_keep_order(start_of(p, store), l1.0, l1.0.len() as int, env);
        lemma_opens_later(run, n, env);
        let a = start_of(here, q0.store);
        let b = start_of(here, run.states[n - 1].1);
        lemma_alike(a, b, l2.0, l2.0.len() as int, env, e);
        let second = a.lines(l2.0, l2.0.len() as int, env);
        let actual = b.lines(l2.0, l2.0.len() as int, e);
        assert(q.events == q0.events + second.events);
        lemma_concatenated_split(q0.events, second.events);
        assert(sent(run.outs[n - 1]) == text::concatenated(actual.events)) by {
            if actual.events.len() == 0 {
                assert(text::concatenated(actual.events) =~= Seq::empty());
            }
        }
    }
}

/// The beginning of a line is no complete line.
proof fn lemma_nothing(partial: Seq<char>)
    requires
        !partial.contains('\n'),
    ensures
        !laws::ends_line(partial),
        super::complete_lines(partial, Seq::empty(), false) == (
            Seq::<Seq<char>>::empty(),
            partial,
        ),
{
    let nl = laws::newline();
    text::lemma_found_from(partial, nl, 0);
    if let Some(i) = text::found(partial, nl) {
        assert(partial.subrange(i, i + 1)[0] == '\n');
        assert(partial.contains('\n'));
    }
    if partial.len() > 0 {
        assert(partial.contains(partial.last()));
    }
    assert(partial + Seq::<char>::empty() =~= partial);
    assert(partial.skip(0) =~= partial);
    let lines = super::complete_lines(partial, Seq::empty(), false);
    assert(lines.0 =~= Seq::<Seq<char>>::empty());
    assert(lines.1 =~= partial);
}

/// A stream that still waits for its first chunk after some pieces finds a named one in the next.
proof fn lemma_opens_later(run: RunV, n: int, env: Surroundings)
    requires
        run.wf(),
        valid_utf8(run.bytes()),
        is_ready(run.states[0].0),
        opens_named(
            run.states[0].0.state,
            super::complete_lines(
                run.states[0].0.partial,
                decode_utf8(run.bytes()),
                laws::ends_line(decode_utf8(run.bytes())),
            ).0,
        ),
        0 < n <= run.pieces.len(),
    ensures
        ({
            let p = run.states[0].0;
            let t0 = utf8_stream::processed(run.pieces, n - 1).1;
            let x = utf8_stream::text_out(run.pieces, n - 1);
            let l1 = super::complete_lines(p.partial, t0, laws::ends_line(t0));
            let l2 = super::complete_lines(l1.1, x, laws::ends_line(x));
            let q0 = super::pumped(p, run.states[0].1, t0, laws::ends_line(t0), env);
            opens_named(q0.state, l2.0)
        }),
{
    let p = run.states[0].0;
    let t0 = utf8_stream::processed(run.pieces, n - 1).1;
    let t = utf8_stream::processed(run.pieces, n).1;
    let x = utf8_stream::text_out(run.pieces, n - 1);
    let w = decode_utf8(run.bytes());
    lemma_nothing(p.partial);
    utf8_stream::law_cuts_do_not_matter(run.pieces);
    utf8_stream::lemma_text_goes_on(run.pieces, n, run.pieces.len() as int);
    let rest = w.skip(t.len() as int);
    assert(w =~= t + rest);
    assert(t == t0 + x);
    laws::law_lines_do_not_depend_on_cuts(p.partial, t0, x);
    laws::law_lines_do_not_depend_on_cuts(p.partial, t, rest);
    let l1 = super::complete_lines(p.partial, t0, laws::ends_line(t0));
    let l2 = super::complete_lines(l1.1, x, laws::ends_line(x));
    let l = super::complete_lines(p.partial, t, laws::ends_line(t));
    let l3 = super::complete_lines(l.1, rest, laws::ends_line(rest));
    let whole = super::complete_lines(p.partial, w, laws::ends_line(w));
    lemma_waits(start_of(p, run.states[0].1), l1.0, l1.0.len() as int, env);
    lemma_first_chunk_split(l1.0, l2.0, l2.0.len() as int);
    lemma_first_chunk_prefix(l.0, l3.0, l.0.len() as int);
    if first_chunk(l.0, l.0.len() as int) is Some {
        lemma_first_chunk_stays(whole.0, l.0.len() as int, whole.0.len() as int);
    }
}

/// A stream comes to the same, and the client gets the same, however the bytes of the upstream API
/// are cut into pieces, and whatever chance and time: the first chunk has an identifier and a time,
/// and no piece breaks off inside of a character that directly follows the end of a line.
pub proof fn law_cuts_do_not_matter(a: RunV, b: RunV, request: JsonV, inject: bool)
    requires
        a.wf(),
        b.wf(),
        a.bytes() == b.bytes(),
        valid_utf8(a.bytes()),
        a.is_cut_well(),
        b.is_cut_well(),
        a.serves(request, inject),
        b.serves(request, inject),
        a.states[0].0 == b.states[0].0,
        is_ready(a.states[0].0),
        opens_named(
            a.states[0].0.state,
            super::complete_lines(
                a.states[0].0.partial,
                decode_utf8(a.bytes()),
                laws::ends_line(decode_utf8(a.bytes())),
            ).0,
        ),
    ensures
        a.last() == b.last(),
        a.body() == b.body(),
{
    let env = Surroundings { request, inject, random: Seq::empty(), time: 0, now: 0 };
    lemma_run(a, a.pieces.len() as int, env);
    lemma_run(b, b.pieces.len() as int, env);
    utf8_stream::law_cuts_do_not_matter(a.pieces);
    utf8_stream::law_cuts_do_not_matter(b.pieces);
    let p = a.states[0].0;
    let t = decode_utf8(a.bytes());
    let lines = super::complete_lines(p.partial, t, laws::ends_line(t)).0;
    lemma_alike(
        start_of(p, a.states[0].1),
        start_of(p, b.states[0].1),
        lines,
        lines.len() as int,
        env,
        env,
    );
}

/// Wherever ASCII bytes of the upstream API are cut into pieces, be it inside of a line, a stream
/// comes to the same and the client gets the same, whatever chance and time, where the first chunk
/// has an identifier and a time.
pub proof fn law_ascii_cuts_do_not_matter(a: RunV, b: RunV, request: JsonV, inject: bool)
    requires
        a.wf(),
        b.wf(),
        a.bytes() == b.bytes(),
        utf8_stream::is_ascii(a.bytes()),
        a.serves(request, inject),
        b.serves(request, inject),
        a.states[0].0 == b.states[0].0,
        is_ready(a.states[0].0),
        opens_named(
            a.states[0].0.state,
            super::complete_lines(
                a.states[0].0.partial,
                decode_utf8(a.bytes()),
                laws::ends_line(decode_utf8(a.bytes())),
            ).0,
        ),
    ensures
        a.last() == b.last(),
        a.body() == b.body(),
{
    utf8_stream::lemma_ascii(a.bytes());
    utf8_stream::lemma_ascii_pieces(a.pieces, a.pieces.len() as int);
    utf8_stream::lemma_ascii_pieces(b.pieces, b.pieces.len() as int);
    law_cuts_do_not_matter(a, b, request, inject);
}

/// Two pieces of ASCII bytes, in the same surroundings, come to what both at once come to: the
/// same stream, the same store, and the same for the client.
pub proof fn law_two_pieces_are_one(
    before: (PumpV, Entries),
    a: Seq<u8>,
    b: Seq<u8>,
    env: Surroundings,
    between: (PumpV, Entries),
    out_a: Option<Seq<char>>,
    after: (PumpV, Entries),
    out_b: Option<Seq<char>>,
    whole: (PumpV, Entries),
    out: Option<Seq<char>>,
)
    requires
        utf8_stream::is_ascii(a),
        utf8_stream::is_ascii(b),
        before.0.undecoded.len() == 0,
        !laws::ends_line(before.0.partial),
        super::feeds_bytes(before, a, env, between, out_a),
        super::feeds_bytes(between, b, env, after, out_b),
        super::feeds_bytes(before, a + b, env, whole, out),
    ensures
        whole == after,
        sent(out) == sent(out_a) + sent(out_b),
{
    let p = before.0;
    assert(p.undecoded + a =~= a);
    assert(p.undecoded + (a + b) =~= a + b);
    assert(utf8_stream::is_ascii(a + b));
    utf8_stream::lemma_ascii_text(a);
    utf8_stream::lemma_ascii_text(b);
    utf8_stream::lemma_ascii_text(a + b);
    let ta = utf8_stream::text_in(a);
    let tb = utf8_stream::text_in(b);
    assert(utf8_stream::text_in(a + b) =~= ta + tb);
    assert(a.take(a.len() as int) =~= a);
    assert(b.take(b.len() as int) =~= b);
    assert((a + b).take((a + b).len() as int) =~= a + b);
    assert(a.skip(a.len() as int) =~= Seq::<u8>::empty());
    assert(b.skip(b.len() as int) =~= Seq::<u8>::empty());
    assert((a + b).skip((a + b).len() as int) =~= Seq::<u8>::empty());
    assert(between.0.undecoded =~= Seq::<u8>::empty());
    assert(between.0.undecoded + b =~= b);
    laws::law_lines_do_not_depend_on_cuts(p.partial, ta, tb);
    laws::law_data_cuts_do_not_matter(p, before.1, ta, tb, env);
    let first = super::pumped(p, before.1, ta, laws::ends_line(ta), env);
    let second = super::pumped(between.0, first.store, tb, laws::ends_line(tb), env);
    lemma_concatenated_split(first.events, second.events);
    lemma_sent(first.events);
    lemma_sent(second.events);
    lemma_sent(first.events + second.events);
}

/// Texts one behind the other.
proof fn lemma_concatenated_split(a: Seq<Seq<char>>, b: Seq<Seq<char>>)
    ensures
        text::concatenated(a + b) == text::concatenated(a) + text::concatenated(b),
    decreases b.len(),
{
    if b.len() == 0 {
        assert(a + b =~= a);
        assert(text::concatenated(a) + text::concatenated(b) =~= text::concatenated(a));
    } else {
        lemma_concatenated_split(a, b.drop_last());
        assert((a + b).drop_last() =~= a + b.drop_last());
        assert((text::concatenated(a) + text::concatenated(b.drop_last())) + b.last()
            =~= text::concatenated(a) + (text::concatenated(b.drop_last()) + b.last()));
    }
}

proof fn lemma_sent(events: Seq<Seq<char>>)
    ensures
        sent(super::joined_events(events)) == text::concatenated(events),
{
    if events.len() == 0 {
        assert(text::concatenated(events) =~= Seq::empty());
    }
}

} // verus!

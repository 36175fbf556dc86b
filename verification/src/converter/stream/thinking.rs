//! What holds of thinking sections: it does not matter how a text is cut into pieces.

use vstd::prelude::*;
use vstd::string::*;

use super::{FedV, ThinkTagState, ThinkV};
use super::{THINK_CLOSE_TAG, THINK_OPEN_TAG};
use crate::text;

verus! {

/// All the reasoning and all the content that came out of pieces of text.
#[verifier::ext_equal]
pub struct SortedV {
    pub reasoning: Seq<char>,
    pub content: Seq<char>,
}

impl SortedV {
    /// These and what comes behind them.
    pub open spec fn then_more(self, other: SortedV) -> SortedV {
        SortedV {
            reasoning: self.reasoning + other.reasoning,
            content: self.content + other.content,
        }
    }
}

/// What came out of a piece of text.
pub open spec fn given(f: FedV) -> SortedV {
    SortedV {
        reasoning: text::concatenated(f.reasoning),
        content: text::concatenated(f.content),
    }
}

/// What is held back.
pub open spec fn held(t: ThinkV) -> SortedV {
    if super::flushed_is_reasoning(t) {
        SortedV { reasoning: super::flushed_text(t), content: Seq::empty() }
    } else {
        SortedV { reasoning: Seq::empty(), content: super::flushed_text(t) }
    }
}

/// What comes out of the pieces, one after the other, with what is held back at the end.
pub open spec fn sorted(t: ThinkV, pieces: Seq<Seq<char>>) -> SortedV
    decreases pieces.len(),
{
    if pieces.len() == 0 {
        held(t)
    } else {
        let f = super::fed(t, pieces[0]);
        given(f).then_more(sorted(f.think, pieces.drop_first()))
    }
}

/// What comes out of a whole text at the start of a stream.
pub open spec fn sorted_text(s: Seq<char>) -> SortedV {
    let rest = s.skip(super::blank_end(s, 0));
    if text::begins(rest, THINK_OPEN_TAG@) {
        let inner = rest.skip(THINK_OPEN_TAG@.len() as int);
        match text::found(inner, THINK_CLOSE_TAG@) {
            Some(i) => SortedV {
                reasoning: inner.take(i),
                content: inner.skip(i + THINK_CLOSE_TAG@.len()),
            },
            None => SortedV { reasoning: inner, content: Seq::empty() },
        }
    } else {
        SortedV { reasoning: Seq::empty(), content: s }
    }
}

impl ThinkV {
    /// The search for a thinking section is in order: what is held back may still turn out to be
    /// part of a tag.
    pub open spec fn wf(self) -> bool {
        match self.state {
            ThinkTagState::Before => if self.can_start {
                self.buf.len() > 0 ==> !super::is_blank(self.buf[0]) && text::found(
                    self.buf,
                    THINK_OPEN_TAG@,
                ) is None
            } else {
                self.buf.len() == 0 && self.leading_ws.len() == 0
            },
            ThinkTagState::Inside => self.leading_ws.len() == 0 && text::found(
                self.buf,
                THINK_CLOSE_TAG@,
            ) is None,
            ThinkTagState::Done => self.leading_ws.len() == 0 && self.buf.len() == 0,
        }
    }
}

pub(super) proof fn lemma_one(s: Seq<char>)
    ensures
        text::concatenated(seq![s]) == s,
        text::concatenated(Seq::<Seq<char>>::empty()) == Seq::<char>::empty(),
{
    assert(seq![s].drop_last() =~= Seq::<Seq<char>>::empty());
    assert(text::concatenated(seq![s].drop_last()) == Seq::<char>::empty());
    assert(text::concatenated(seq![s]) =~= s);
}

pub(super) proof fn lemma_released(ws: Seq<char>, s: Seq<char>)
    ensures
        text::concatenated(super::released(ws, s)) == ws + s,
{
    if ws.len() > 0 {
        let two = seq![ws, s];
        assert(two.drop_last() =~= seq![ws]);
        lemma_one(ws);
        assert(text::concatenated(two) == text::concatenated(two.drop_last()) + two.last());
    } else {
        lemma_one(s);
        assert(ws + s =~= s);
    }
}

/// A pattern that stands in the first part of a text is found at the same place in the whole.
proof fn lemma_found_in_front(a: Seq<char>, b: Seq<char>, pat: Seq<char>)
    requires
        text::found(a, pat) is Some,
    ensures
        text::found(a + b, pat) == text::found(a, pat),
{
    text::lemma_found_from(a, pat, 0);
    text::lemma_found_from(a + b, pat, 0);
    let i = text::found(a, pat)->0;
    assert((a + b).subrange(i, i + pat.len()) =~= a.subrange(i, i + pat.len()));
    assert(text::occurs_at(a + b, pat, i));
    let j = text::found(a + b, pat)->0;
    if j < i {
        assert((a + b).subrange(j, j + pat.len()) =~= a.subrange(j, j + pat.len()));
        assert(text::occurs_at(a, pat, j));
    }
}

pub(super) proof fn lemma_overlap(s: Seq<char>, tag: Seq<char>, k: int, m: int)
    requires
        0 <= k <= s.len(),
        k < tag.len(),
        super::overlap_from(s, tag, k) < m <= k,
    ensures
        s.skip(s.len() - m) != tag.take(m),
        0 <= super::overlap_from(s, tag, k),
    decreases k,
{
    if k > 0 && s.skip(s.len() - k) != tag.take(k) {
        if m < k {
            lemma_overlap(s, tag, k - 1, m);
        } else if k - 1 > super::overlap_from(s, tag, k - 1) {
            lemma_overlap(s, tag, k - 1, k - 1);
        } else {
            lemma_overlap_range(s, tag, k - 1);
        }
    }
}

pub(super) proof fn lemma_overlap_range(s: Seq<char>, tag: Seq<char>, k: int)
    requires
        0 <= k,
    ensures
        0 <= super::overlap_from(s, tag, k) <= k,
    decreases k,
{
    if k > 0 && s.skip(s.len() - k) != tag.take(k) {
        lemma_overlap_range(s, tag, k - 1);
    }
}

/// A pattern that is not in the first part of a text begins no earlier than the end of that part
/// overlaps it.
proof fn lemma_found_behind(p: Seq<char>, b: Seq<char>, pat: Seq<char>)
    requires
        pat.len() > 0,
        text::found(p, pat) is None,
    ensures
        ({
            let cut = p.len() - super::overlap(p, pat);
            &&& 0 <= cut <= p.len()
            &&& text::found(p + b, pat) == (match text::found(p.skip(cut) + b, pat) {
                Some(i) => Some(cut + i),
                None => None,
            })
        }),
{
    let most = if p.len() < pat.len() - 1 {
        p.len() as int
    } else {
        pat.len() - 1
    };
    lemma_overlap_range(p, pat, most);
    let keep = super::overlap(p, pat);
    let cut = p.len() - keep;
    let whole = p + b;
    let tail = p.skip(cut) + b;
    assert(whole.skip(cut) =~= tail);
    text::lemma_found_from(p, pat, 0);
    text::lemma_found_from(whole, pat, 0);
    text::lemma_found_from(tail, pat, 0);
    assert forall|j: int| 0 <= j < cut implies !text::occurs_at(whole, pat, j) by {
        if text::occurs_at(whole, pat, j) {
            if j + pat.len() <= p.len() {
                assert(p.subrange(j, j + pat.len()) =~= whole.subrange(j, j + pat.len()));
                assert(text::occurs_at(p, pat, j));
            } else {
                let m = p.len() - j;
                lemma_overlap(p, pat, most, m);
                assert(p.skip(p.len() - m) =~= pat.take(m)) by {
                    assert forall|x: int| 0 <= x < m implies p[j + x] == pat[x] by {
                        assert(whole.subrange(j, j + pat.len())[x] == pat[x]);
                    }
                }
            }
        }
    }
    assert forall|j: int| 0 <= j implies text::occurs_at(tail, pat, j) == text::occurs_at(
        whole,
        pat,
        cut + j,
    ) by {
        if j + pat.len() <= tail.len() {
            assert(tail.subrange(j, j + pat.len()) =~= whole.subrange(
                cut + j,
                cut + j + pat.len(),
            ));
        }
    }
    if let Some(i) = text::found(tail, pat) {
        assert(text::occurs_at(whole, pat, cut + i));
        if let Some(w) = text::found(whole, pat) {
            if w < cut + i {
                assert(!text::occurs_at(tail, pat, w - cut));
            }
        }
    } else {
        if let Some(w) = text::found(whole, pat) {
            assert(text::occurs_at(tail, pat, w - cut));
        }
    }
}

/// What comes out of a text inside of a thinking section.
proof fn lemma_inside_total(t: ThinkV, p: Seq<char>)
    requires
        t.state == ThinkTagState::Inside,
        t.buf.len() == 0,
        t.leading_ws.len() == 0,
    ensures
        ({
            let h = super::fed_inside(t, p);
            given(h).then_more(held(h.think)) == (match text::found(p, THINK_CLOSE_TAG@) {
                Some(i) => SortedV {
                    reasoning: p.take(i),
                    content: p.skip(i + THINK_CLOSE_TAG@.len()),
                },
                None => SortedV { reasoning: p, content: Seq::empty() },
            })
        }),
{
    let h = super::fed_inside(t, p);
    let close = THINK_CLOSE_TAG@;
    reveal_strlit("</thinking>");
    text::lemma_found_from(p, close, 0);
    lemma_one(p);
    if p.len() == 0 {
        assert(given(h).then_more(held(h.think)) =~= SortedV {
            reasoning: p,
            content: Seq::empty(),
        });
    } else if let Some(i) = text::found(p, close) {
        lemma_one(p.take(i));
        lemma_one(p.skip(i + close.len()));
        assert(given(h).then_more(held(h.think)) =~= SortedV {
            reasoning: p.take(i),
            content: p.skip(i + close.len()),
        });
    } else {
        let most = if p.len() < close.len() - 1 {
            p.len() as int
        } else {
            close.len() - 1
        };
        lemma_overlap_range(p, close, most);
        let cut = p.len() - super::overlap(p, close);
        lemma_one(p.take(cut));
        assert(p.take(cut) + p.skip(cut) =~= p);
        assert(given(h).then_more(held(h.think)) =~= SortedV {
            reasoning: p,
            content: Seq::empty(),
        });
    }
}

/// What comes out of a text behind a thinking section, or where none can start.
proof fn lemma_content_total(t: ThinkV, b: Seq<char>)
    requires
        t.state == ThinkTagState::Done || (t.state == ThinkTagState::Before && !t.can_start),
        t.wf(),
    ensures
        ({
            let g = super::fed(t, b);
            &&& g.think.wf()
            &&& given(g).then_more(held(g.think)) == (SortedV {
                reasoning: Seq::empty(),
                content: b,
            })
        }),
{
    let g = super::fed(t, b);
    lemma_one(b);
    if b.len() > 0 {
        assert(t.buf + b =~= b);
    }
    assert(given(g).then_more(held(g.think)) =~= SortedV { reasoning: Seq::empty(), content: b });
}

/// Inside of a thinking section it does not matter where the text is cut.
proof fn lemma_cut_inside(t: ThinkV, p: Seq<char>, b: Seq<char>)
    requires
        t.state == ThinkTagState::Inside,
        t.buf.len() == 0,
        t.leading_ws.len() == 0,
    ensures
        super::fed_inside(t, p).think.wf(),
        ({
            let f = super::fed_inside(t, p);
            let g = super::fed(f.think, b);
            let h = super::fed_inside(t, p + b);
            given(f).then_more(given(g).then_more(held(g.think))) == given(h).then_more(
                held(h.think),
            )
        }),
{
    let f = super::fed_inside(t, p);
    let g = super::fed(f.think, b);
    let close = THINK_CLOSE_TAG@;
    reveal_strlit("</thinking>");
    text::lemma_found_from(p, close, 0);
    lemma_inside_total(t, p + b);
    if p.len() > 0 && text::found(p, close) is Some {
        let i = text::found(p, close)->0;
        let end = i + close.len();
        lemma_found_in_front(p, b, close);
        assert((p + b).take(i) =~= p.take(i));
        assert((p + b).skip(end) =~= p.skip(end) + b);
        lemma_one(p.take(i));
        lemma_one(p.skip(end));
        lemma_content_total(f.think, b);
        assert(given(f).reasoning =~= p.take(i));
        assert(given(f).content =~= p.skip(end));
        assert(p.take(i) + Seq::empty() =~= p.take(i));
    } else {
        lemma_cut_inside_open(t, p, b);
    }
}

proof fn lemma_cut_inside_open(t: ThinkV, p: Seq<char>, b: Seq<char>)
    requires
        t.state == ThinkTagState::Inside,
        t.buf.len() == 0,
        t.leading_ws.len() == 0,
        text::found(p, THINK_CLOSE_TAG@) is None,
    ensures
        super::fed_inside(t, p).think.wf(),
        ({
            let f = super::fed_inside(t, p);
            let g = super::fed(f.think, b);
            let h = super::fed_inside(t, p + b);
            given(f).then_more(given(g).then_more(held(g.think))) == given(h).then_more(
                held(h.think),
            )
        }),
{
    let f = super::fed_inside(t, p);
    let g = super::fed(f.think, b);
    let close = THINK_CLOSE_TAG@;
    reveal_strlit("</thinking>");
    lemma_found_behind(p, b, close);
    let cut = p.len() - super::overlap(p, close);
    let q = p.skip(cut) + b;
    assert(t.buf =~= Seq::empty());
    lemma_one(p.take(cut));
    assert(f.think == ThinkV { buf: p.skip(cut), ..t }) by {
        assert(f.think.buf =~= p.skip(cut));
    }
    assert(given(f) == SortedV { reasoning: p.take(cut), content: Seq::empty() }) by {
        assert(given(f) =~= SortedV { reasoning: p.take(cut), content: Seq::empty() });
    }
    text::lemma_found_from(p, close, 0);
    text::lemma_found_from(f.think.buf, close, 0);
    if let Some(x) = text::found(f.think.buf, close) {
        assert(f.think.buf.subrange(x, x + close.len()) =~= p.subrange(
            cut + x,
            cut + x + close.len(),
        ));
        assert(text::occurs_at(p, close, cut + x));
    }
    lemma_inside_total(t, p + b);
    assert(p.take(cut) + q =~= p + b);
    let rest = given(g).then_more(held(g.think));
    if b.len() > 0 {
        assert(g == super::fed_inside(t, q));
        lemma_inside_total(t, q);
        if let Some(i) = text::found(q, close) {
            text::lemma_found_from(q, close, 0);
            assert((p + b).take(cut + i) =~= p.take(cut) + q.take(i));
            assert((p + b).skip(cut + i + close.len()) =~= q.skip(i + close.len()));
            assert(Seq::empty() + q.skip(i + close.len()) =~= q.skip(i + close.len()));
        }
    } else {
        assert(q =~= p.skip(cut));
        assert(p + b =~= p);
        assert(rest =~= SortedV { reasoning: q, content: Seq::empty() });
    }
    assert(Seq::<char>::empty() + Seq::<char>::empty() =~= Seq::<char>::empty());
}

proof fn lemma_blank_end(s: Seq<char>, i: int)
    requires
        0 <= i <= s.len(),
    ensures
        i <= super::blank_end(s, i) <= s.len(),
        forall|j: int| i <= j < super::blank_end(s, i) ==> super::is_blank(s[j]),
        super::blank_end(s, i) < s.len() ==> !super::is_blank(s[super::blank_end(s, i)]),
    decreases s.len() - i,
{
    if i < s.len() && super::is_blank(s[i]) {
        lemma_blank_end(s, i + 1);
    }
}

/// White space ends where the first other character stands.
proof fn lemma_blank_end_is(s: Seq<char>, n: int)
    requires
        0 <= n <= s.len(),
        forall|j: int| 0 <= j < n ==> super::is_blank(s[j]),
        n < s.len() ==> !super::is_blank(s[n]),
    ensures
        super::blank_end(s, 0) == n,
{
    lemma_blank_end(s, 0);
    let m = super::blank_end(s, 0);
    if m < n {
        assert(super::is_blank(s[m]));
    }
    if m > n {
        assert(super::is_blank(s[n]));
    }
}

/// What comes out of a text before a thinking section, where one can start.
proof fn lemma_before_total(t: ThinkV, p: Seq<char>)
    requires
        t.state == ThinkTagState::Before,
        t.can_start,
        t.buf.len() == 0,
    ensures
        ({
            let h = super::fed_before(t, p);
            let n = super::blank_end(p, 0);
            let rest = p.skip(n);
            let ws = t.leading_ws + p.take(n);
            &&& h.think.wf()
            &&& text::begins(rest, THINK_OPEN_TAG@) ==> h == super::fed_inside(
                ThinkV { leading_ws: Seq::empty(), state: ThinkTagState::Inside, ..t },
                rest.skip(THINK_OPEN_TAG@.len() as int),
            )
            &&& !text::begins(rest, THINK_OPEN_TAG@) ==> given(h).then_more(held(h.think)) == (
            SortedV { reasoning: Seq::empty(), content: ws + rest })
        }),
{
    let h = super::fed_before(t, p);
    let n = super::blank_end(p, 0);
    lemma_blank_end(p, 0);
    let ws = t.leading_ws + p.take(n);
    let rest = p.skip(n);
    let open = THINK_OPEN_TAG@;
    reveal_strlit("<thinking>");
    text::lemma_found_from(rest, open, 0);
    lemma_one(rest);
    lemma_released(ws, rest);
    if rest.len() > 0 {
        assert(rest[0] == p[n]);
    }
    let starts = text::begins(rest, open);
    assert(starts == text::occurs_at(rest, open, 0)) by {
        if rest.len() >= open.len() {
            assert(rest.take(open.len() as int) =~= rest.subrange(0, open.len() as int));
        }
    }
    if starts {
        assert(text::found(rest, open) == Some(0int));
        let u = ThinkV { leading_ws: Seq::empty(), state: ThinkTagState::Inside, ..t };
        lemma_cut_inside(u, rest.skip(open.len() as int), Seq::empty());
    } else {
        assert(text::found(rest, open) != Some(0int));
        assert(t.buf =~= Seq::empty());
        assert(given(h).then_more(held(h.think)) =~= SortedV {
            reasoning: Seq::empty(),
            content: ws + rest,
        });
    }
}

/// Before a thinking section it does not matter where the text is cut.
proof fn lemma_cut_before(t: ThinkV, p: Seq<char>, b: Seq<char>)
    requires
        t.state == ThinkTagState::Before,
        t.can_start,
        t.buf.len() == 0,
        p.len() > 0,
    ensures
        super::fed_before(t, p).think.wf(),
        ({
            let f = super::fed_before(t, p);
            let g = super::fed(f.think, b);
            let h = super::fed_before(t, p + b);
            given(f).then_more(given(g).then_more(held(g.think))) == given(h).then_more(
                held(h.think),
            )
        }),
{
    let f = super::fed_before(t, p);
    let g = super::fed(f.think, b);
    let h = super::fed_before(t, p + b);
    let n = super::blank_end(p, 0);
    let rest = p.skip(n);
    let ws = t.leading_ws + p.take(n);
    let open = THINK_OPEN_TAG@;
    reveal_strlit("<thinking>");
    lemma_blank_end(p, 0);
    lemma_before_total(t, p);
    lemma_before_total(t, p + b);
    let none = SortedV { reasoning: Seq::<char>::empty(), content: Seq::<char>::empty() };
    if b.len() == 0 {
        assert(p + b =~= p);
        assert(given(g) =~= none);
        assert(given(g).then_more(held(g.think)) =~= held(f.think));
    } else if rest.len() == 0 {
        lemma_one(p);
        lemma_blank_end(b, 0);
        let m = super::blank_end(b, 0);
        assert forall|j: int| 0 <= j < n + m implies super::is_blank((p + b)[j]) by {
            if j >= n {
                assert((p + b)[j] == b[j - n]);
            }
        }
        if m < b.len() {
            assert((p + b)[n + m] == b[m]);
        }
        lemma_blank_end_is(p + b, n + m);
        assert((p + b).skip(n + m) =~= b.skip(m));
        assert(t.leading_ws + (p + b).take(n + m) =~= ws + b.take(m));
        assert(Seq::<char>::empty() + b =~= b);
        assert(f.think.buf + b =~= b);
        assert(ThinkV { buf: Seq::empty(), ..f.think } =~= f.think);
        assert(g == super::fed_before(f.think, b));
        assert(given(f) =~= none);
        assert(g == h);
        assert(none.then_more(given(g).then_more(held(g.think))) =~= given(g).then_more(
            held(g.think),
        ));
    } else {
        assert forall|j: int| 0 <= j < n implies super::is_blank((p + b)[j]) by {
            assert((p + b)[j] == p[j]);
        }
        assert((p + b)[n] == p[n]);
        lemma_blank_end_is(p + b, n);
        assert((p + b).skip(n) =~= rest + b);
        assert((p + b).take(n) =~= p.take(n));
        text::lemma_found_from(rest, open, 0);
        text::lemma_found_from(rest + b, open, 0);
        lemma_released(ws, rest);
        lemma_one(rest);
        if text::found(rest, open) is Some {
            lemma_found_in_front(rest, b, open);
        }
        if text::found(rest, open) == Some(0int) {
            let u = ThinkV { leading_ws: Seq::empty(), state: ThinkTagState::Inside, ..t };
            let k = open.len() as int;
            assert((rest + b).skip(k) =~= rest.skip(k) + b);
            lemma_cut_inside(u, rest.skip(k), b);
        } else if text::found(rest, open) is None && super::held_back(open, rest) {
            assert(rest[0] == p[n]);
            assert((rest + b)[0] == rest[0]);
            lemma_blank_end_is(rest + b, 0);
            assert((rest + b).skip(0) =~= rest + b);
            assert(ws + (rest + b).take(0) =~= ws);
            assert(g == super::fed_before(ThinkV { leading_ws: ws, ..t }, rest + b)) by {
                assert(ThinkV { buf: Seq::empty(), ..f.think } =~= ThinkV {
                    leading_ws: ws,
                    ..t
                });
            }
            assert(g == h);
            assert(given(f) =~= none);
            assert(none.then_more(given(g).then_more(held(g.think))) =~= given(g).then_more(
                held(g.think),
            ));
        } else {
            assert(!text::begins(rest + b, open)) by {
                if text::begins(rest + b, open) {
                    assert((rest + b).subrange(0, open.len() as int) =~= (rest + b).take(
                        open.len() as int,
                    ));
                    assert(text::occurs_at(rest + b, open, 0));
                    if text::found(rest, open) is None {
                        if rest.len() >= open.len() {
                            assert(rest.subrange(0, open.len() as int) =~= open);
                            assert(text::occurs_at(rest, open, 0));
                        } else {
                            assert(open.take(rest.len() as int) =~= rest);
                        }
                    }
                }
            }
            lemma_content_total(f.think, b);
            assert(given(f) =~= SortedV { reasoning: Seq::empty(), content: ws + rest });
            assert((ws + rest) + b =~= ws + (rest + b));
            assert(Seq::<char>::empty() + Seq::<char>::empty() =~= Seq::<char>::empty());
        }
    }
}

/// It does not matter whether a text comes in one piece or in two.
proof fn lemma_cut(t: ThinkV, a: Seq<char>, b: Seq<char>)
    requires
        t.wf(),
    ensures
        super::fed(t, a).think.wf(),
        ({
            let f = super::fed(t, a);
            let g = super::fed(f.think, b);
            let h = super::fed(t, a + b);
            given(f).then_more(given(g).then_more(held(g.think))) == given(h).then_more(
                held(h.think),
            )
        }),
{
    let f = super::fed(t, a);
    let g = super::fed(f.think, b);
    let none = SortedV { reasoning: Seq::<char>::empty(), content: Seq::<char>::empty() };
    lemma_one(a);
    if a.len() == 0 {
        assert(a + b =~= b);
        assert(given(f) =~= none);
        assert(none.then_more(given(g).then_more(held(g.think))) =~= given(g).then_more(
            held(g.think),
        ));
    } else {
        let u = ThinkV { buf: Seq::empty(), ..t };
        assert(t.buf + (a + b) =~= (t.buf + a) + b);
        match t.state {
            ThinkTagState::Before => {
                if t.can_start {
                    lemma_cut_before(u, t.buf + a, b);
                } else {
                    lemma_cut_content(t, a, b);
                }
            },
            ThinkTagState::Inside => {
                lemma_cut_inside(u, t.buf + a, b);
            },
            ThinkTagState::Done => {
                lemma_cut_content(t, a, b);
            },
        }
    }
}

proof fn lemma_cut_content(t: ThinkV, a: Seq<char>, b: Seq<char>)
    requires
        t.state == ThinkTagState::Done || (t.state == ThinkTagState::Before && !t.can_start),
        t.wf(),
        a.len() > 0,
    ensures
        super::fed(t, a).think.wf(),
        ({
            let f = super::fed(t, a);
            let g = super::fed(f.think, b);
            let h = super::fed(t, a + b);
            given(f).then_more(given(g).then_more(held(g.think))) == given(h).then_more(
                held(h.think),
            )
        }),
{
    let f = super::fed(t, a);
    lemma_content_total(t, a);
    lemma_content_total(f.think, b);
    lemma_content_total(t, a + b);
    lemma_one(a);
    assert(t.buf + a =~= a);
    assert(given(f) =~= SortedV { reasoning: Seq::empty(), content: a });
    assert(Seq::<char>::empty() + Seq::<char>::empty() =~= Seq::<char>::empty());
}

proof fn lemma_concatenated_front(parts: Seq<Seq<char>>)
    requires
        parts.len() > 0,
    ensures
        text::concatenated(parts) == parts[0] + text::concatenated(parts.drop_first()),
    decreases parts.len(),
{
    let rest = parts.drop_first();
    if parts.len() == 1 {
        assert(parts =~= seq![parts[0]]);
        assert(rest =~= Seq::<Seq<char>>::empty());
        lemma_one(parts[0]);
        assert(parts[0] + Seq::<char>::empty() =~= parts[0]);
    } else {
        lemma_concatenated_front(parts.drop_last());
        assert(parts.drop_last().drop_first() =~= rest.drop_last());
        assert(parts.last() == rest.last());
        assert((parts[0] + text::concatenated(rest.drop_last())) + rest.last() =~= parts[0] + (
        text::concatenated(rest.drop_last()) + rest.last()));
    }
}

/// However a text is cut into pieces, the same reasoning and the same content come out of it.
pub proof fn law_cuts_do_not_matter(t: ThinkV, pieces: Seq<Seq<char>>)
    requires
        t.wf(),
    ensures
        ({
            let whole = super::fed(t, text::concatenated(pieces));
            sorted(t, pieces) == given(whole).then_more(held(whole.think))
        }),
    decreases pieces.len(),
{
    if pieces.len() == 0 {
        let whole = super::fed(t, text::concatenated(pieces));
        lemma_one(Seq::empty());
        assert(given(whole).then_more(held(whole.think)) =~= held(t));
    } else {
        let f = super::fed(t, pieces[0]);
        let rest = pieces.drop_first();
        lemma_concatenated_front(pieces);
        lemma_cut(t, pieces[0], text::concatenated(rest));
        law_cuts_do_not_matter(f.think, rest);
    }
}

/// A piece of text keeps the search for a thinking section in order.
pub proof fn law_search_in_order(t: ThinkV, s: Seq<char>)
    requires
        t.wf(),
    ensures
        super::fed(t, s).think.wf(),
        super::flushed_think(t).wf(),
{
    lemma_cut(t, s, Seq::empty());
    text::lemma_found_from(Seq::empty(), THINK_OPEN_TAG@, 0);
}

/// At the start of a stream a thinking section counts if nothing but white space stands before it:
/// what is inside of it is reasoning, what is behind it is content. Otherwise all is content. It
/// does not matter how the text is cut into pieces.
pub proof fn law_thinking_sections(pieces: Seq<Seq<char>>)
    ensures
        sorted(super::StreamV::initial().think, pieces) == sorted_text(
            text::concatenated(pieces),
        ),
{
    let t = super::StreamV::initial().think;
    let s = text::concatenated(pieces);
    law_cuts_do_not_matter(t, pieces);
    let whole = super::fed(t, s);
    reveal_strlit("<thinking>");
    lemma_one(s);
    lemma_blank_end(s, 0);
    let n = super::blank_end(s, 0);
    let rest = s.skip(n);
    if s.len() == 0 {
        assert(given(whole).then_more(held(whole.think)) =~= SortedV {
            reasoning: Seq::empty(),
            content: s,
        });
    } else {
        assert(t.buf + s =~= s);
        assert(whole == super::fed_before(t, s));
        lemma_before_total(t, s);
        assert((t.leading_ws + s.take(n)) + rest =~= s);
        if text::begins(rest, THINK_OPEN_TAG@) {
            let u = ThinkV { leading_ws: Seq::empty(), state: ThinkTagState::Inside, ..t };
            lemma_inside_total(u, rest.skip(THINK_OPEN_TAG@.len() as int));
        }
    }
}

} // verus!

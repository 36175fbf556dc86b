//! What holds of every text.

use vstd::prelude::*;
use vstd::utf8::*;

use crate::text;

verus! {

// ---------------------------------------------------------------------------------------------
// White space
// ---------------------------------------------------------------------------------------------

/// The text is white space, all of it.
pub open spec fn is_blank(s: Seq<char>) -> bool {
    forall|i: int| 0 <= i < s.len() ==> text::is_space(#[trigger] s[i])
}

/// The text is empty, or has no white space at its ends.
pub open spec fn is_tight(s: Seq<char>) -> bool {
    s.len() > 0 ==> !text::is_space(s[0]) && !text::is_space(s[s.len() - 1])
}

/// Which characters are white space.
pub proof fn law_white_space(c: char)
    ensures
        text::is_space(' ') && text::is_space('\t') && text::is_space('\n') && text::is_space('\r'),
        '!' <= c <= '~' ==> !text::is_space(c),
        (c as u32) < 0x85 && text::is_space(c) ==> c == ' ' || '\t' <= c <= '\r',
        (c as u32) > 0x3000 ==> !text::is_space(c),
        text::is_space(c) && (c as u32) >= 0x85 ==> c as u32 == 0x85 || c as u32 == 0xa0 || c as u32
            == 0x1680 || 0x2000 <= c as u32 <= 0x200a || c as u32 == 0x2028 || c as u32 == 0x2029
            || c as u32 == 0x202f || c as u32 == 0x205f || c as u32 == 0x3000,
        (c as u32 == 0x85 || c as u32 == 0xa0 || c as u32 == 0x1680 || 0x2000 <= c as u32 <= 0x200a
            || c as u32 == 0x2028 || c as u32 == 0x2029 || c as u32 == 0x202f || c as u32 == 0x205f
            || c as u32 == 0x3000) ==> text::is_space(c),
        0x9 <= c as u32 <= 0xd ==> text::is_space(c),
{
}

proof fn lemma_start(a: Seq<char>, s: Seq<char>)
    requires
        is_blank(a),
        s.len() > 0 ==> !text::is_space(s[0]),
    ensures
        text::trimmed_start(a + s) == s,
    decreases a.len(),
{
    if a.len() == 0 {
        assert(a + s =~= s);
    } else {
        let b = a.skip(1);
        assert((a + s).skip(1) =~= b + s);
        assert((a + s)[0] == a[0]);
        assert forall|i: int| 0 <= i < b.len() implies text::is_space(#[trigger] b[i]) by {
            assert(b[i] == a[i + 1]);
        }
        lemma_start(b, s);
    }
}

proof fn lemma_end(s: Seq<char>, b: Seq<char>)
    requires
        is_blank(b),
        s.len() > 0 ==> !text::is_space(s.last()),
    ensures
        text::trimmed_end(s + b) == s,
    decreases b.len(),
{
    if b.len() == 0 {
        assert(s + b =~= s);
    } else {
        let a = b.drop_last();
        assert((s + b).drop_last() =~= s + a);
        assert((s + b).last() == b[b.len() - 1]);
        assert forall|i: int| 0 <= i < a.len() implies text::is_space(#[trigger] a[i]) by {
            assert(a[i] == b[i]);
        }
        lemma_end(s, a);
    }
}

/// To trim a text takes the white space around it away, and nothing else.
pub proof fn law_trimmed(a: Seq<char>, s: Seq<char>, b: Seq<char>)
    requires
        is_blank(a),
        is_tight(s),
        is_blank(b),
    ensures
        text::trimmed(a + s + b) == s,
{
    if s.len() == 0 {
        let ab = a + s + b;
        assert forall|i: int| 0 <= i < ab.len() implies text::is_space(#[trigger] ab[i]) by {
            if i < a.len() {
                assert(ab[i] == a[i]);
            } else {
                assert(ab[i] == b[i - a.len()]);
            }
        }
        lemma_start(ab, Seq::empty());
        assert(ab + Seq::<char>::empty() =~= ab);
        assert(s =~= Seq::<char>::empty());
    } else {
        assert(a + s + b =~= a + (s + b));
        assert((s + b)[0] == s[0]);
        lemma_start(a, s + b);
        lemma_end(s, b);
    }
}

// ---------------------------------------------------------------------------------------------
// Searching
// ---------------------------------------------------------------------------------------------

/// A text stands where its characters do.
pub proof fn law_occurs(s: Seq<char>, pat: Seq<char>, i: int)
    ensures
        text::occurs_at(s, pat, i) <==> {
            &&& 0 <= i
            &&& i + pat.len() <= s.len()
            &&& forall|j: int| 0 <= j < pat.len() ==> #[trigger] pat[j] == s[i + j]
        },
{
    if 0 <= i && i + pat.len() <= s.len() {
        let part = s.subrange(i, i + pat.len());
        if forall|j: int| 0 <= j < pat.len() ==> #[trigger] pat[j] == s[i + j] {
            assert(part =~= pat);
        }
        if part == pat {
            assert forall|j: int| 0 <= j < pat.len() implies #[trigger] pat[j] == s[i + j] by {
                assert(part[j] == s[i + j]);
            }
        }
    }
}

/// A text holds another where it can be cut so that the other stands between the cuts.
pub proof fn law_has_text(a: Seq<char>, pat: Seq<char>, b: Seq<char>, s: Seq<char>)
    ensures
        text::has_text(a + pat + b, pat),
        text::has_text(s, pat) ==> exists|x: Seq<char>, y: Seq<char>|
            s == #[trigger] ((x + pat) + y),
{
    let whole = a + pat + b;
    assert(whole.subrange(a.len() as int, (a.len() + pat.len()) as int) =~= pat);
    assert(text::occurs_at(whole, pat, a.len() as int));
    if text::has_text(s, pat) {
        let i = choose|i: int| text::occurs_at(s, pat, i);
        let x = s.take(i);
        let y = s.skip(i + pat.len());
        assert((x + pat) + y =~= s);
    }
}

/// A search finds the first place; none where there is none.
pub proof fn law_found(s: Seq<char>, pat: Seq<char>)
    ensures
        match text::found(s, pat) {
            Some(i) => {
                &&& text::occurs_at(s, pat, i)
                &&& forall|j: int| j < i ==> !#[trigger] text::occurs_at(s, pat, j)
            },
            None => !text::has_text(s, pat),
        },
{
    text::lemma_found_from(s, pat, 0);
}

proof fn lemma_found_back(s: Seq<char>, pat: Seq<char>, i: int)
    ensures
        match text::found_back(s, pat, i) {
            Some(p) => {
                &&& p <= i
                &&& text::occurs_at(s, pat, p)
                &&& forall|q: int| p < q <= i ==> !#[trigger] text::occurs_at(s, pat, q)
            },
            None => forall|q: int| q <= i ==> !#[trigger] text::occurs_at(s, pat, q),
        },
    decreases i + 1,
{
    if i >= 0 && !text::occurs_at(s, pat, i) {
        lemma_found_back(s, pat, i - 1);
    }
}

/// A search from the end finds the last place; none where there is none.
pub proof fn law_found_last(s: Seq<char>, pat: Seq<char>)
    ensures
        match text::found_last(s, pat) {
            Some(i) => {
                &&& text::occurs_at(s, pat, i)
                &&& forall|j: int| j > i ==> !#[trigger] text::occurs_at(s, pat, j)
            },
            None => !text::has_text(s, pat),
        },
{
    lemma_found_back(s, pat, s.len() - pat.len());
}

/// What a text begins and ends with.
pub proof fn law_begins_and_ends(pat: Seq<char>, t: Seq<char>, s: Seq<char>)
    ensures
        text::begins(pat + t, pat),
        text::ends(t + pat, pat),
        text::behind(pat + t, pat) == Some(t),
        text::begins(s, pat) ==> s == pat + s.skip(pat.len() as int),
        text::ends(s, pat) ==> s == s.take(s.len() - pat.len()) + pat,
        !text::begins(s, pat) ==> text::behind(s, pat) is None,
{
    assert((pat + t).subrange(0, pat.len() as int) =~= pat);
    assert((pat + t).skip(pat.len() as int) =~= t);
    assert((t + pat).subrange(t.len() as int, (t + pat).len() as int) =~= pat);
    if text::begins(s, pat) {
        assert(s.subrange(0, pat.len() as int) + s.skip(pat.len() as int) =~= s);
    }
    if text::ends(s, pat) {
        let n = s.len() - pat.len();
        assert(s.take(n) + s.subrange(n, s.len() as int) =~= s);
    }
}

/// The copies of a text at an end go, all of them, and nothing else.
pub proof fn law_without_end(s: Seq<char>, pat: Seq<char>)
    requires
        pat.len() > 0,
    ensures
        text::without_end(s + pat, pat) == text::without_end(s, pat),
        !text::ends(s, pat) ==> text::without_end(s, pat) == s,
{
    law_begins_and_ends(pat, s, s);
    assert((s + pat).take((s + pat).len() - pat.len()) =~= s);
}

// ---------------------------------------------------------------------------------------------
// Putting together
// ---------------------------------------------------------------------------------------------

/// One more part goes behind the others, and a separator between them.
pub proof fn law_joined(parts: Seq<Seq<char>>, x: Seq<char>, sep: Seq<char>)
    ensures
        text::joined(Seq::empty(), sep).len() == 0,
        text::joined(seq![x], sep) == x,
        parts.len() > 0 ==> text::joined(parts.push(x), sep) == text::joined(parts, sep) + sep + x,
        text::concatenated(Seq::empty()).len() == 0,
        text::concatenated(parts.push(x)) == text::concatenated(parts) + x,
{
    assert(parts.push(x).drop_last() =~= parts);
    assert(parts.push(x).last() == x);
}

/// The text, or else the other.
pub proof fn law_or_text(s: Seq<char>, other: Seq<char>)
    ensures
        text::or_text(Some(s), other) == s,
        text::or_text(None, other) == other,
{
}

/// The length in bytes is that of the UTF-8 form.
pub proof fn law_byte_len(s: Seq<char>)
    ensures
        text::byte_len(s) == encode_utf8(s).len(),
{
}

// ---------------------------------------------------------------------------------------------
// Numerals
// ---------------------------------------------------------------------------------------------

/// The number that a row of decimal digits stands for.
pub open spec fn numeral(s: Seq<char>) -> int
    decreases s.len(),
{
    if s.len() == 0 {
        0
    } else {
        10 * numeral(s.drop_last()) + (s.last() as int - '0' as int)
    }
}

/// A row of decimal digits, without a zero in front of others.
pub open spec fn is_numeral(s: Seq<char>) -> bool {
    &&& s.len() > 0
    &&& forall|i: int| 0 <= i < s.len() ==> '0' <= #[trigger] s[i] <= '9'
    &&& s.len() > 1 ==> s[0] != '0'
}

proof fn lemma_digits(n: nat)
    ensures
        is_numeral(text::digits(n)),
        numeral(text::digits(n)) == n,
        n > 0 ==> text::digits(n)[0] != '0',
    decreases n,
{
    let s = text::digits(n);
    if n < 10 {
        assert(s.drop_last() =~= Seq::<char>::empty());
        assert(s.last() == text::digit(n as int));
        assert(numeral(s.drop_last()) == 0);
        lemma_digit(n as int);
    } else {
        lemma_digits(n / 10);
        lemma_digit((n % 10) as int);
        assert(s.drop_last() =~= text::digits(n / 10));
        assert(s[0] == text::digits(n / 10)[0]);
    }
}

proof fn lemma_digit(d: int)
    requires
        0 <= d < 10,
    ensures
        text::digit(d) as int == '0' as int + d,
{
}

/// The numeral of a number stands for that number.
pub proof fn law_decimal(i: int)
    ensures
        i >= 0 ==> is_numeral(text::decimal(i)) && numeral(text::decimal(i)) == i,
        i < 0 ==> {
            &&& text::decimal(i).len() > 1
            &&& text::decimal(i)[0] == '-'
            &&& is_numeral(text::decimal(i).skip(1))
            &&& numeral(text::decimal(i).skip(1)) == -i
        },
{
    if i >= 0 {
        lemma_digits(i as nat);
    } else {
        lemma_digits((-i) as nat);
        assert(text::decimal(i).skip(1) =~= text::digits((-i) as nat));
    }
}

// ---------------------------------------------------------------------------------------------
// Letters and lines
// ---------------------------------------------------------------------------------------------

/// Letters of ASCII go to lower case, and nothing else changes.
pub proof fn law_lower_case(s: Seq<char>, i: int)
    requires
        0 <= i < s.len(),
    ensures
        text::ascii_lowered(s).len() == s.len(),
        'A' <= s[i] <= 'Z' ==> text::ascii_lowered(s)[i] as int == s[i] as int + 32,
        !('A' <= s[i] <= 'Z') ==> text::ascii_lowered(s)[i] == s[i],
{
    if 'A' <= s[i] <= 'Z' {
        let c = s[i];
        assert(c as u8 as int == c as int);
        assert((c as u8 + 32) as char as int == c as int + 32);
    }
}

/// The text holds no end of a line.
pub open spec fn has_no_newline(s: Seq<char>) -> bool {
    forall|i: int| 0 <= i < s.len() ==> #[trigger] s[i] != '\n'
}

proof fn lemma_first_newline(line: Seq<char>, rest: Seq<char>)
    requires
        has_no_newline(line),
    ensures
        text::found(line + seq!['\n'] + rest, seq!['\n']) == Some(line.len() as int),
{
    let nl = seq!['\n'];
    let s = line + nl + rest;
    law_found(s, nl);
    assert(s.subrange(line.len() as int, line.len() + 1int) =~= nl);
    assert(text::occurs_at(s, nl, line.len() as int));
    let i = text::found(s, nl)->0;
    if i < line.len() {
        assert(s.subrange(i, i + 1)[0] == s[i]);
        assert(s[i] == line[i]);
    }
}

proof fn lemma_lines_shift(s: Seq<char>, i: int, j: int)
    requires
        0 <= i <= j,
        i <= s.len(),
    ensures
        text::lines_from(s, j) == text::lines_from(s.skip(i), j - i),
    decreases s.len() - j,
{
    let nl = seq!['\n'];
    let t = s.skip(i);
    if j < s.len() {
        text::lemma_found_from(s, nl, j);
        text::lemma_found_from(t, nl, j - i);
        assert forall|p: int| j <= p implies text::occurs_at(s, nl, p) == text::occurs_at(
            t,
            nl,
            p - i,
        ) by {
            if p + 1 <= s.len() {
                assert(s.subrange(p, p + 1) =~= t.subrange(p - i, p - i + 1));
            }
        }
        match text::found_from(s, nl, j) {
            Some(p) => {
                assert(text::occurs_at(t, nl, p - i));
                let q = text::found_from(t, nl, j - i)->0;
                assert(text::occurs_at(s, nl, q + i));
                assert(q == p - i);
                assert(s.subrange(j, p) =~= t.subrange(j - i, q));
                lemma_lines_shift(s, i, p + 1);
            },
            None => {
                if let Some(q) = text::found_from(t, nl, j - i) {
                    assert(text::occurs_at(s, nl, q + i));
                }
                assert(s.skip(j) =~= t.skip(j - i));
            },
        }
    }
}

/// The lines of a text: what stands before the first line feed, without a carriage return at its
/// end, and the lines behind it. A text without line feed is one line, and no text is none.
pub proof fn law_lines(line: Seq<char>, rest: Seq<char>)
    requires
        has_no_newline(line),
    ensures
        line.len() == 0 ==> text::lines(line).len() == 0,
        line.len() > 0 ==> text::lines(line) == seq![line],
        !(line.len() > 0 && line.last() == '\r') ==> text::lines(line + seq!['\n'] + rest)
            == seq![line] + text::lines(rest),
        text::lines(line + seq!['\r', '\n'] + rest) == seq![line] + text::lines(rest),
{
    let nl = seq!['\n'];
    if line.len() > 0 {
        law_found(line, nl);
        if let Some(i) = text::found(line, nl) {
            assert(line.subrange(i, i + 1)[0] == line[i]);
        }
        assert(line.skip(0) =~= line);
    }
    let s = line + nl + rest;
    let n = line.len() as int;
    lemma_first_newline(line, rest);
    lemma_lines_shift(s, n + 1, n + 1);
    assert(s.skip(n + 1) =~= rest);
    assert(s.subrange(0, n) =~= line);
    let crlf = line + seq!['\r', '\n'] + rest;
    let long = line.push('\r');
    assert(crlf =~= long + nl + rest);
    lemma_first_newline(long, rest);
    lemma_lines_shift(crlf, n + 2, n + 2);
    assert(crlf.skip(n + 2) =~= rest);
    assert(crlf.subrange(0, n + 1) =~= long);
    assert(long.drop_last() =~= line);
}

} // verus!

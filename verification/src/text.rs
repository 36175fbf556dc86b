//! Text as sequences of characters: trimming, searching, joining, decimal numerals.
//!
//! The specification functions speak of `Seq<char>`, the view that Verus gives to `str` and
//! `String`; the executable functions beside them compute the same on real strings.

use vstd::prelude::*;
use vstd::string::*;
use vstd::utf8::*;

verus! {

/// `String::push` adds the character at the end.
pub assume_specification[ String::push ](s: &mut String, c: char)
    ensures
        final(s)@ == old(s)@.push(c),
;

/// The characters that Unicode gives the property White_Space.
pub open spec fn is_space(c: char) -> bool {
    let u = c as u32;
    ||| 0x9 <= u <= 0xd
    ||| u == 0x20
    ||| u == 0x85
    ||| u == 0xa0
    ||| u == 0x1680
    ||| 0x2000 <= u <= 0x200a
    ||| u == 0x2028
    ||| u == 0x2029
    ||| u == 0x202f
    ||| u == 0x205f
    ||| u == 0x3000
}

/// Whether `c` is white space.
pub fn is_space_char(c: char) -> (r: bool)
    ensures
        r == is_space(c),
{
    let u: u32 = c as u32;
    (0x9 <= u && u <= 0xd) || u == 0x20 || u == 0x85 || u == 0xa0 || u == 0x1680 || (0x2000 <= u
        && u <= 0x200a) || u == 0x2028 || u == 0x2029 || u == 0x202f || u == 0x205f || u == 0x3000
}

/// `s` without its leading white space.
pub open spec fn trimmed_start(s: Seq<char>) -> Seq<char>
    decreases s.len(),
{
    if s.len() > 0 && is_space(s[0]) {
        trimmed_start(s.skip(1))
    } else {
        s
    }
}

/// `s` without its trailing white space.
pub open spec fn trimmed_end(s: Seq<char>) -> Seq<char>
    decreases s.len(),
{
    if s.len() > 0 && is_space(s.last()) {
        trimmed_end(s.drop_last())
    } else {
        s
    }
}

/// `s` without the white space around it.
pub open spec fn trimmed(s: Seq<char>) -> Seq<char> {
    trimmed_end(trimmed_start(s))
}

/// `pat` stands in `s` at position `i`.
pub open spec fn occurs_at(s: Seq<char>, pat: Seq<char>, i: int) -> bool {
    0 <= i && i + pat.len() <= s.len() && s.subrange(i, i + pat.len()) == pat
}

/// `pat` stands somewhere in `s`.
pub open spec fn has_text(s: Seq<char>, pat: Seq<char>) -> bool {
    exists|i: int| occurs_at(s, pat, i)
}

/// The first position at or after `i` at which `pat` stands in `s`.
pub open spec fn found_from(s: Seq<char>, pat: Seq<char>, i: int) -> Option<int>
    decreases s.len() + 1 - i,
{
    if i < 0 || i + pat.len() > s.len() {
        None
    } else if occurs_at(s, pat, i) {
        Some(i)
    } else {
        found_from(s, pat, i + 1)
    }
}

/// The first position at which `pat` stands in `s`.
pub open spec fn found(s: Seq<char>, pat: Seq<char>) -> Option<int> {
    found_from(s, pat, 0)
}

/// The last position at or before `i` at which `pat` stands in `s`.
pub open spec fn found_back(s: Seq<char>, pat: Seq<char>, i: int) -> Option<int>
    decreases i + 1,
{
    if i < 0 {
        None
    } else if occurs_at(s, pat, i) {
        Some(i)
    } else {
        found_back(s, pat, i - 1)
    }
}

/// The last position at which `pat` stands in `s`.
pub open spec fn found_last(s: Seq<char>, pat: Seq<char>) -> Option<int> {
    found_back(s, pat, s.len() - pat.len())
}

/// `s` begins with `pat`.
pub open spec fn begins(s: Seq<char>, pat: Seq<char>) -> bool {
    occurs_at(s, pat, 0)
}

/// `s` ends with `pat`.
pub open spec fn ends(s: Seq<char>, pat: Seq<char>) -> bool {
    occurs_at(s, pat, s.len() - pat.len())
}

/// What `s` holds behind the prefix `pat`, where it begins with it.
pub open spec fn behind(s: Seq<char>, pat: Seq<char>) -> Option<Seq<char>> {
    if begins(s, pat) {
        Some(s.skip(pat.len() as int))
    } else {
        None
    }
}

/// `s` without the copies of `pat` at its end.
pub open spec fn without_end(s: Seq<char>, pat: Seq<char>) -> Seq<char>
    decreases s.len(),
{
    if pat.len() > 0 && ends(s, pat) {
        without_end(s.take(s.len() - pat.len()), pat)
    } else {
        s
    }
}

/// The parts one after the other, with `sep` between any two of them.
pub open spec fn joined(parts: Seq<Seq<char>>, sep: Seq<char>) -> Seq<char>
    decreases parts.len(),
{
    if parts.len() == 0 {
        Seq::empty()
    } else if parts.len() == 1 {
        parts[0]
    } else {
        joined(parts.drop_last(), sep) + sep + parts.last()
    }
}

/// The parts one after the other.
pub open spec fn concatenated(parts: Seq<Seq<char>>) -> Seq<char>
    decreases parts.len(),
{
    if parts.len() == 0 {
        Seq::empty()
    } else {
        concatenated(parts.drop_last()) + parts.last()
    }
}

/// The number of bytes that `s` takes in UTF-8.
pub open spec fn byte_len(s: Seq<char>) -> nat {
    encode_utf8(s).len()
}

/// The views of the strings in `v`.
pub open spec fn strings(v: Seq<String>) -> Seq<Seq<char>> {
    Seq::new(v.len(), |i: int| v[i]@)
}

/// The view of a string that may be missing.
pub open spec fn maybe(s: Option<String>) -> Option<Seq<char>> {
    match s {
        Some(t) => Some(t@),
        None => None,
    }
}

/// The view of an optional text.
pub open spec fn maybe_str(s: Option<&str>) -> Option<Seq<char>> {
    match s {
        Some(x) => Some(x@),
        None => None,
    }
}

/// `s`, or `other` where it is missing.
pub open spec fn or_text(s: Option<Seq<char>>, other: Seq<char>) -> Seq<char> {
    match s {
        Some(t) => t,
        None => other,
    }
}

/// The decimal digit for `d`.
pub open spec fn digit(d: int) -> char {
    seq!['0', '1', '2', '3', '4', '5', '6', '7', '8', '9'][d]
}

/// The decimal digits of `n`, without leading zeros.
pub open spec fn digits(n: nat) -> Seq<char>
    decreases n,
{
    if n < 10 {
        seq![digit(n as int)]
    } else {
        digits(n / 10).push(digit((n % 10) as int))
    }
}

/// The decimal numeral of `i`, with a minus sign where it is negative.
pub open spec fn decimal(i: int) -> Seq<char> {
    if i < 0 {
        seq!['-'] + digits((-i) as nat)
    } else {
        digits(i as nat)
    }
}

/// The characters of `s`, one by one.
pub fn chars_of(s: &str) -> (v: Vec<char>)
    ensures
        v@ == s@,
{
    let mut v: Vec<char> = Vec::new();
    for c in it: s.chars()
        invariant
            it.seq() == s@,
            v@ == it.seq().take(it.index()),
    {
        v.push(c);
        assert(it.seq().take(it.index() + 1) =~= it.seq().take(it.index()).push(c));
    }
    assert(s@.take(s@.len() as int) =~= s@);
    v
}

/// The string of the characters of `v` from `lo` up to `hi`.
pub fn text_of(v: &Vec<char>, lo: usize, hi: usize) -> (s: String)
    requires
        lo <= hi <= v@.len(),
    ensures
        s@ == v@.subrange(lo as int, hi as int),
{
    let mut s = String::new();
    let mut i: usize = lo;
    while i < hi
        invariant
            lo <= i <= hi <= v@.len(),
            s@ == v@.subrange(lo as int, i as int),
        decreases hi - i,
    {
        s.push(v[i]);
        i += 1;
        assert(v@.subrange(lo as int, i as int) =~= v@.subrange(lo as int, i - 1).push(v@[i - 1]));
    }
    s
}

/// The characters behind the first `n` of them.
pub fn tail(v: &Vec<char>, n: usize) -> (r: Vec<char>)
    requires
        n <= v@.len(),
    ensures
        r@ == v@.skip(n as int),
{
    let mut r: Vec<char> = Vec::new();
    let mut i: usize = n;
    while i < v.len()
        invariant
            n <= i <= v@.len(),
            r@ == v@.subrange(n as int, i as int),
        decreases v@.len() - i,
    {
        r.push(v[i]);
        i += 1;
        assert(v@.subrange(n as int, i as int) =~= v@.subrange(n as int, i - 1).push(v@[i - 1]));
    }
    assert(v@.subrange(n as int, i as int) =~= v@.skip(n as int));
    r
}

/// Whether two strings hold the same text.
pub fn same(a: &str, b: &str) -> (r: bool)
    ensures
        r == (a@ == b@),
{
    let x = a.as_bytes();
    let y = b.as_bytes();
    proof {
        encode_utf8_decode_utf8(a@);
        encode_utf8_decode_utf8(b@);
    }
    if x.len() != y.len() {
        return false;
    }
    let mut i: usize = 0;
    while i < x.len()
        invariant
            i <= x@.len(),
            x@.len() == y@.len(),
            x@ == encode_utf8(a@),
            y@ == encode_utf8(b@),
            forall|j: int| 0 <= j < i ==> x@[j] == y@[j],
        decreases x@.len() - i,
    {
        if x[i] != y[i] {
            return false;
        }
        i += 1;
    }
    assert(x@ =~= y@);
    true
}

/// Whether `pat` stands in `s` at position `i`.
fn stands_at(s: &Vec<char>, pat: &Vec<char>, i: usize) -> (r: bool)
    ensures
        r == occurs_at(s@, pat@, i as int),
{
    if pat.len() > s.len() || i > s.len() - pat.len() {
        return false;
    }
    let mut k: usize = 0;
    while k < pat.len()
        invariant
            k <= pat@.len(),
            i + pat.len() <= s.len(),
            forall|j: int| 0 <= j < k ==> s@[i + j] == pat@[j],
        decreases pat@.len() - k,
    {
        if s[i + k] != pat[k] {
            assert(s@.subrange(i as int, i + pat@.len())[k as int] == s@[i + k]);
            return false;
        }
        k += 1;
    }
    assert(s@.subrange(i as int, i + pat@.len()) =~= pat@);
    true
}

/// The first position at or after `from` at which `pat` stands in `s`.
pub fn find_chars(s: &Vec<char>, pat: &Vec<char>, from: usize) -> (r: Option<usize>)
    ensures
        match r {
            Some(i) => found_from(s@, pat@, from as int) == Some(i as int),
            None => found_from(s@, pat@, from as int) is None,
        },
{
    if pat.len() > s.len() {
        return None;
    }
    let last: usize = s.len() - pat.len();
    let mut i: usize = from;
    while i <= last
        invariant
            last + pat@.len() == s@.len(),
            found_from(s@, pat@, from as int) == found_from(s@, pat@, i as int),
        decreases last + 1 - i,
    {
        if stands_at(s, pat, i) {
            return Some(i);
        }
        if i == last {
            assert(found_from(s@, pat@, i + 1) is None);
            return None;
        }
        i += 1;
    }
    None
}

/// The last position at which `pat` stands in `s`.
pub fn find_last_chars(s: &Vec<char>, pat: &Vec<char>) -> (r: Option<usize>)
    ensures
        match r {
            Some(i) => found_last(s@, pat@) == Some(i as int),
            None => found_last(s@, pat@) is None,
        },
{
    if pat.len() > s.len() {
        return None;
    }
    let mut i: usize = s.len() - pat.len();
    loop
        invariant
            i + pat@.len() <= s@.len(),
            found_last(s@, pat@) == found_back(s@, pat@, i as int),
        decreases i,
    {
        if stands_at(s, pat, i) {
            return Some(i);
        }
        if i == 0 {
            assert(found_back(s@, pat@, -1) is None);
            return None;
        }
        i -= 1;
    }
}

/// What a search from position `i` tells of every position.
pub proof fn lemma_found_from(s: Seq<char>, pat: Seq<char>, i: int)
    requires
        0 <= i,
    ensures
        match found_from(s, pat, i) {
            Some(p) => i <= p && occurs_at(s, pat, p) && forall|j: int|
                i <= j < p ==> !occurs_at(s, pat, j),
            None => forall|j: int| i <= j ==> !occurs_at(s, pat, j),
        },
    decreases s.len() + 1 - i,
{
    if i + pat.len() <= s.len() && !occurs_at(s, pat, i) {
        lemma_found_from(s, pat, i + 1);
    }
}

/// Whether `pat` stands somewhere in `s`.
pub fn contains(s: &str, pat: &str) -> (r: bool)
    ensures
        r == has_text(s@, pat@),
{
    let v = chars_of(s);
    let p = chars_of(pat);
    proof {
        lemma_found_from(s@, pat@, 0);
    }
    match find_chars(&v, &p, 0) {
        Some(i) => true,
        None => {
            assert(forall|j: int| occurs_at(s@, pat@, j) ==> 0 <= j);
            false
        },
    }
}

/// Whether `s` begins with `pat`.
pub fn starts_with(s: &str, pat: &str) -> (r: bool)
    ensures
        r == begins(s@, pat@),
{
    let v = chars_of(s);
    let p = chars_of(pat);
    stands_at(&v, &p, 0)
}

/// What `s` holds behind the prefix `pat`.
pub fn strip_prefix(s: &str, pat: &str) -> (r: Option<String>)
    ensures
        match r {
            Some(t) => behind(s@, pat@) == Some(t@),
            None => behind(s@, pat@) is None,
        },
{
    let v = chars_of(s);
    let p = chars_of(pat);
    if stands_at(&v, &p, 0) {
        let t = text_of(&v, p.len(), v.len());
        assert(t@ =~= s@.skip(pat@.len() as int));
        Some(t)
    } else {
        None
    }
}

/// `s` without the copies of `pat` at its end.
pub fn trim_end_matches(s: &str, pat: &str) -> (r: String)
    ensures
        r@ == without_end(s@, pat@),
{
    let v = chars_of(s);
    let p = chars_of(pat);
    let mut hi: usize = v.len();
    assert(v@.take(hi as int) =~= s@);
    while p.len() > 0 && p.len() <= hi
        invariant
            hi <= v@.len(),
            v@ == s@,
            p@ == pat@,
            without_end(s@, pat@) == without_end(s@.take(hi as int), pat@),
        decreases hi,
    {
        let at: usize = hi - p.len();
        let ghost cut = s@.take(hi as int);
        assert(occurs_at(s@, pat@, at as int) == ends(cut, pat@)) by {
            assert(cut.subrange(at as int, hi as int) =~= s@.subrange(at as int, hi as int));
        }
        if !stands_at(&v, &p, at) {
            let r = text_of(&v, 0, hi);
            assert(r@ =~= cut);
            return r;
        }
        assert(cut.take(at as int) =~= s@.take(at as int));
        hi = at;
    }
    let r = text_of(&v, 0, hi);
    assert(r@ =~= s@.take(hi as int));
    r
}

/// `s` without the white space around it.
pub fn trim(s: &str) -> (r: String)
    ensures
        r@ == trimmed(s@),
{
    let v = chars_of(s);
    let mut lo: usize = 0;
    assert(v@.skip(0) =~= s@);
    while lo < v.len() && is_space_char(v[lo])
        invariant
            lo <= v@.len(),
            trimmed_start(s@) == trimmed_start(v@.skip(lo as int)),
        decreases v@.len() - lo,
    {
        assert(v@.skip(lo as int).skip(1) =~= v@.skip(lo + 1));
        lo += 1;
    }
    let ghost rest = v@.skip(lo as int);
    assert(trimmed_start(s@) == rest);
    let mut hi: usize = v.len();
    assert(v@.subrange(lo as int, hi as int) =~= rest);
    while lo < hi && is_space_char(v[hi - 1])
        invariant
            lo <= hi <= v@.len(),
            trimmed_end(rest) == trimmed_end(v@.subrange(lo as int, hi as int)),
        decreases hi,
    {
        assert(v@.subrange(lo as int, hi as int).drop_last() =~= v@.subrange(lo as int, hi - 1));
        hi -= 1;
    }
    text_of(&v, lo, hi)
}

/// The parts one after the other, with `sep` between any two of them.
pub fn join(parts: &Vec<String>, sep: &str) -> (r: String)
    ensures
        r@ == joined(strings(parts@), sep@),
{
    let mut r = String::new();
    let mut i: usize = 0;
    let ghost all = strings(parts@);
    assert(all.take(0) =~= Seq::<Seq<char>>::empty());
    while i < parts.len()
        invariant
            i <= parts@.len(),
            all == strings(parts@),
            r@ == joined(all.take(i as int), sep@),
        decreases parts@.len() - i,
    {
        if i > 0 {
            r.append(sep);
        }
        r.append(parts[i].as_str());
        assert(all.take(i + 1).drop_last() =~= all.take(i as int));
        assert(all.take(i + 1).last() == parts@[i as int]@);
        i += 1;
    }
    assert(all.take(i as int) =~= all);
    r
}

/// The parts one after the other.
pub fn concat_all(parts: &Vec<String>) -> (r: String)
    ensures
        r@ == concatenated(strings(parts@)),
{
    let mut r = String::new();
    let mut i: usize = 0;
    let ghost all = strings(parts@);
    while i < parts.len()
        invariant
            i <= parts@.len(),
            all == strings(parts@),
            r@ == concatenated(all.take(i as int)),
        decreases parts@.len() - i,
    {
        r.append(parts[i].as_str());
        assert(all.take(i + 1).drop_last() =~= all.take(i as int));
        assert(all.take(i + 1).last() == parts@[i as int]@);
        i += 1;
    }
    assert(all.take(i as int) =~= all);
    r
}

/// The number of bytes that `s` takes in UTF-8.
pub fn byte_count(s: &str) -> (n: usize)
    ensures
        n == byte_len(s@),
{
    s.as_bytes().len()
}

/// The string of one decimal digit.
fn digit_char(d: u64) -> (c: char)
    requires
        d < 10,
    ensures
        c == digit(d as int),
{
    match d {
        0 => '0',
        1 => '1',
        2 => '2',
        3 => '3',
        4 => '4',
        5 => '5',
        6 => '6',
        7 => '7',
        8 => '8',
        _ => '9',
    }
}

/// The decimal digits of `n`.
fn push_digits(s: &mut String, n: u64)
    ensures
        final(s)@ == old(s)@ + digits(n as nat),
    decreases n,
{
    let ghost before = s@;
    if n >= 10 {
        push_digits(s, n / 10);
    }
    s.push(digit_char(n % 10));
    assert(s@ =~= before + digits(n as nat));
}

/// The decimal numeral of `i`.
pub fn decimal_text(i: i64) -> (s: String)
    ensures
        s@ == decimal(i as int),
{
    let mut s = String::new();
    if i < 0 {
        s.push('-');
        let n: u64 = if i == i64::MIN {
            0x8000_0000_0000_0000
        } else {
            (-i) as u64
        };
        push_digits(&mut s, n);
        assert(s@ =~= seq!['-'] + digits((-i) as nat));
    } else {
        push_digits(&mut s, i as u64);
        assert(s@ =~= digits(i as nat));
    }
    s
}

/// The decimal numeral of `n`.
pub fn decimal_u64(n: u64) -> (s: String)
    ensures
        s@ == decimal(n as int),
{
    let mut s = String::new();
    push_digits(&mut s, n);
    assert(s@ =~= digits(n as nat));
    s
}

/// `c` in lower case, where it is a letter of ASCII.
pub open spec fn ascii_lower(c: char) -> char {
    if 'A' <= c <= 'Z' {
        (c as u8 + 32) as char
    } else {
        c
    }
}

/// `s` with its letters of ASCII in lower case.
pub open spec fn ascii_lowered(s: Seq<char>) -> Seq<char> {
    Seq::new(s.len(), |i: int| ascii_lower(s[i]))
}

/// `s` with its letters of ASCII in lower case.
pub fn to_ascii_lower(s: &str) -> (r: String)
    ensures
        r@ == ascii_lowered(s@),
{
    let v = chars_of(s);
    let mut r = String::new();
    let mut i: usize = 0;
    assert(r@ =~= ascii_lowered(v@).take(0));
    while i < v.len()
        invariant
            i <= v@.len(),
            r@ == ascii_lowered(v@).take(i as int),
        decreases v@.len() - i,
    {
        let c = v[i];
        let d = if 'A' <= c && c <= 'Z' {
            (c as u8 + 32) as char
        } else {
            c
        };
        r.push(d);
        i += 1;
        assert(r@ =~= ascii_lowered(v@).take(i as int));
    }
    assert(r@ =~= ascii_lowered(v@));
    r
}

/// `s` without a carriage return at its end.
pub open spec fn chomped(s: Seq<char>) -> Seq<char> {
    if s.len() > 0 && s.last() == '\r' {
        s.drop_last()
    } else {
        s
    }
}

/// The lines of `s` from position `i` on. A line ends with a line feed, or with a carriage return
/// and a line feed; the last line may end with the text.
pub open spec fn lines_from(s: Seq<char>, i: int) -> Seq<Seq<char>>
    decreases s.len() - i,
{
    if i < 0 || i >= s.len() {
        Seq::empty()
    } else {
        proof {
            lemma_found_from(s, seq!['\n'], i);
        }
        match found_from(s, seq!['\n'], i) {
            Some(p) => seq![chomped(s.subrange(i, p))] + lines_from(s, p + 1),
            None => seq![s.skip(i)],
        }
    }
}

/// The lines of `s`.
pub open spec fn lines(s: Seq<char>) -> Seq<Seq<char>> {
    lines_from(s, 0)
}

/// The lines of `s`.
pub fn split_lines(s: &str) -> (r: Vec<String>)
    ensures
        strings(r@) == lines(s@),
{
    let v = chars_of(s);
    let mut newline: Vec<char> = Vec::new();
    newline.push('\n');
    assert(newline@ =~= seq!['\n']);
    let mut r: Vec<String> = Vec::new();
    let mut i: usize = 0;
    assert(strings(r@) + lines_from(v@, 0) =~= lines(v@));
    while i < v.len()
        invariant
            i <= v@.len(),
            v@ == s@,
            newline@ == seq!['\n'],
            strings(r@) + lines_from(v@, i as int) == lines(v@),
        decreases v@.len() - i,
    {
        let ghost before = strings(r@);
        proof {
            lemma_found_from(v@, newline@, i as int);
        }
        match find_chars(&v, &newline, i) {
            Some(p) => {
                let ghost line = v@.subrange(i as int, p as int);
                let end: usize = if p > i && v[p - 1] == '\r' {
                    p - 1
                } else {
                    p
                };
                let t = text_of(&v, i, end);
                assert(t@ =~= chomped(line));
                r.push(t);
                assert(strings(r@) =~= before.push(t@));
                assert(before + (seq![t@] + lines_from(v@, p + 1)) =~= before.push(t@)
                    + lines_from(v@, p + 1));
                i = p + 1;
            },
            None => {
                let t = text_of(&v, i, v.len());
                assert(t@ =~= v@.skip(i as int));
                r.push(t);
                assert(strings(r@) =~= before + seq![t@]);
                return r;
            },
        }
    }
    assert(strings(r@) + lines_from(v@, i as int) =~= strings(r@));
    r
}

} // verus!

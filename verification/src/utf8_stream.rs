//! Text out of bytes that come in pieces.

use vstd::prelude::*;
use vstd::string::*;
use vstd::utf8::*;

verus! {

/// The text that `String::from_utf8_lossy` makes of bytes.
pub uninterp spec fn lossy_text(bytes: Seq<u8>) -> Seq<char>;

/// `String::from_utf8_lossy`: the text that the bytes hold. Where they are UTF-8, it is the text
/// that they encode; what is no UTF-8 is replaced.
#[verifier::external_body]
fn read_lossy(bytes: &[u8]) -> (r: String)
    ensures
        r@ == lossy_text(bytes@),
        valid_utf8(bytes@) ==> r@ == decode_utf8(bytes@),
{
    String::from_utf8_lossy(bytes).into_owned()
}

/// The text that bytes hold: what they encode where they are UTF-8.
pub open spec fn text_in(bytes: Seq<u8>) -> Seq<char> {
    if valid_utf8(bytes) {
        decode_utf8(bytes)
    } else {
        lossy_text(bytes)
    }
}

/// The number of bytes that a character takes whose first byte this is.
pub open spec fn width(b: u8) -> int {
    if 0xc0 <= b <= 0xdf {
        2
    } else if 0xe0 <= b <= 0xef {
        3
    } else if 0xf0 <= b <= 0xf7 {
        4
    } else {
        1
    }
}

/// The number of bytes at the end that begin a character which goes on.
pub open spec fn unfinished(s: Seq<u8>) -> int {
    let n = s.len();
    if n >= 1 && width(s[n - 1]) > 1 {
        1
    } else if n >= 2 && width(s[n - 2]) > 2 && is_continuation_byte(s[n - 1]) {
        2
    } else if n >= 3 && width(s[n - 3]) > 3 && is_continuation_byte(s[n - 2])
        && is_continuation_byte(s[n - 1]) {
        3
    } else {
        0
    }
}

/// A decoder that holds back a character until all of its bytes have come.
pub struct Utf8StreamBuffer {
    pending: Vec<u8>,
}

impl View for Utf8StreamBuffer {
    type V = Seq<u8>;

    closed spec fn view(&self) -> Seq<u8> {
        self.pending@
    }
}

fn byte_width(b: u8) -> (w: usize)
    ensures
        w == width(b),
{
    if 0xc0 <= b && b <= 0xdf {
        2
    } else if 0xe0 <= b && b <= 0xef {
        3
    } else if 0xf0 <= b && b <= 0xf7 {
        4
    } else {
        1
    }
}

fn goes_on(b: u8) -> (r: bool)
    ensures
        r == is_continuation_byte(b),
{
    0x80 <= b && b <= 0xbf
}

fn unfinished_len(s: &Vec<u8>) -> (r: usize)
    ensures
        r == unfinished(s@),
        r <= s@.len(),
{
    let n = s.len();
    if n >= 1 && byte_width(s[n - 1]) > 1 {
        1
    } else if n >= 2 && byte_width(s[n - 2]) > 2 && goes_on(s[n - 1]) {
        2
    } else if n >= 3 && byte_width(s[n - 3]) > 3 && goes_on(s[n - 2]) && goes_on(s[n - 1]) {
        3
    } else {
        0
    }
}

impl Utf8StreamBuffer {
    /// A decoder to which no byte has come.
    pub fn new() -> (r: Utf8StreamBuffer)
        ensures
            r@ == Seq::<u8>::empty(),
    {
        Utf8StreamBuffer { pending: Vec::new() }
    }

    /// Takes in bytes, and gives out the text of what is complete.
    pub fn process_bytes(&mut self, bytes: &[u8]) -> (r: String)
        ensures
            ({
                let all = old(self)@ + bytes@;
                let cut = all.len() - unfinished(all);
                &&& r@ == text_in(all.take(cut))
                &&& final(self)@ == all.skip(cut)
            }),
    {
        let ghost all = self@ + bytes@;
        let mut complete: Vec<u8> = Vec::new();
        complete.append(&mut self.pending);
        complete.extend_from_slice(bytes);
        assert(complete@ =~= all);
        let cut: usize = complete.len() - unfinished_len(&complete);
        self.pending = complete.split_off(cut);
        assert(complete@ =~= all.take(cut as int));
        assert(self.pending@ =~= all.skip(cut as int));
        read_lossy(complete.as_slice())
    }
}

/// What is held back, and the text that comes out, after the first `n` pieces.
pub open spec fn processed(pieces: Seq<Seq<u8>>, n: int) -> (Seq<u8>, Seq<char>)
    decreases n,
{
    if n <= 0 {
        (Seq::empty(), Seq::empty())
    } else {
        let (held, out) = processed(pieces, n - 1);
        let all = held + pieces[n - 1];
        let cut = all.len() - unfinished(all);
        (all.skip(cut), out + text_in(all.take(cut)))
    }
}

/// Where the bytes are cut behind the last complete character, a character begins.
proof fn lemma_cut_at_boundary(w: Seq<u8>, n: int)
    requires
        valid_utf8(w),
        0 <= n <= w.len(),
    ensures
        0 <= unfinished(w.take(n)) <= n,
        is_char_boundary(w, n - unfinished(w.take(n))),
    decreases w.len(),
{
    let a = w.take(n);
    if w.len() == 0 {
        assert(n == 0);
    } else {
        let first = length_of_first_scalar(w);
        let rest = pop_first_scalar(w);
        if n < first {
            assert(forall|i: int| 0 <= i < n ==> a[i] == w[i]);
            assert(unfinished(a) == n);
        } else {
            let b = rest.take(n - first);
            lemma_cut_at_boundary(rest, n - first);
            assert(a.skip(first) =~= b);
            assert(forall|i: int| 0 <= i < n - first ==> a[first + i] == b[i]);
            assert(forall|i: int| 0 <= i < first ==> a[i] == w[i]);
            reveal_with_fuel(valid_utf8, 2);
            assert(unfinished(a) == unfinished(b));
            is_char_boundary_start_end_of_seq(w);
        }
    }
}

/// The bytes of the first `n` pieces, one after the other.
pub open spec fn bytes_of(pieces: Seq<Seq<u8>>, n: int) -> Seq<u8>
    decreases n,
{
    if n <= 0 {
        Seq::empty()
    } else {
        bytes_of(pieces, n - 1) + pieces[n - 1]
    }
}

proof fn lemma_prefix(pieces: Seq<Seq<u8>>, n: int, m: int)
    requires
        0 <= n <= m <= pieces.len(),
    ensures
        bytes_of(pieces, n).len() <= bytes_of(pieces, m).len(),
        bytes_of(pieces, m).take(bytes_of(pieces, n).len() as int) == bytes_of(pieces, n),
    decreases m - n,
{
    let a = bytes_of(pieces, n);
    let b = bytes_of(pieces, m);
    if n == m {
        assert(b.take(a.len() as int) =~= a);
    } else {
        lemma_prefix(pieces, n, m - 1);
        let c = bytes_of(pieces, m - 1);
        assert(b.take(a.len() as int) =~= c.take(a.len() as int));
    }
}

/// How many bytes are unfinished shows in the last bytes, if they hold the beginning of the
/// character.
proof fn lemma_unfinished_tail(s: Seq<u8>, w: Seq<u8>, c: int)
    requires
        valid_utf8(w),
        s.len() <= w.len(),
        w.take(s.len() as int) == s,
        0 <= c <= s.len(),
        is_char_boundary(w, c),
    ensures
        unfinished(s.skip(c)) == unfinished(s),
{
    let t = s.skip(c);
    assert(forall|i: int| 0 <= i < t.len() ==> t[i] == s[c + i]);
    if c < s.len() {
        is_char_boundary_iff_not_is_continuation_byte(w, c);
        assert(w.take(s.len() as int)[c] == w[c]);
    } else {
        lemma_cut_at_boundary(w, c);
        lemma_no_boundary_in_unfinished(w, c);
    }
}

/// Where a character begins, nothing before it is unfinished.
proof fn lemma_no_boundary_in_unfinished(w: Seq<u8>, c: int)
    requires
        valid_utf8(w),
        0 <= c <= w.len(),
        is_char_boundary(w, c),
    ensures
        unfinished(w.take(c)) == 0,
    decreases w.len(),
{
    let a = w.take(c);
    if c > 0 {
        let first = length_of_first_scalar(w);
        let rest = pop_first_scalar(w);
        reveal_with_fuel(is_char_boundary, 2);
        reveal_with_fuel(valid_utf8, 2);
        let b = rest.take(c - first);
        lemma_no_boundary_in_unfinished(rest, c - first);
        assert(a.skip(first) =~= b);
        assert(forall|i: int| 0 <= i < c - first ==> a[first + i] == b[i]);
        assert(forall|i: int| 0 <= i < first ==> a[i] == w[i]);
    }
}

proof fn lemma_processed(pieces: Seq<Seq<u8>>, n: int)
    requires
        0 <= n <= pieces.len(),
        valid_utf8(bytes_of(pieces, pieces.len() as int)),
    ensures
        ({
            let w = bytes_of(pieces, pieces.len() as int);
            let a = bytes_of(pieces, n);
            let cut = a.len() - unfinished(a);
            let (held, out) = processed(pieces, n);
            &&& 0 <= cut <= a.len() <= w.len()
            &&& is_char_boundary(w, cut)
            &&& w.take(a.len() as int) == a
            &&& held == a.skip(cut)
            &&& out == decode_utf8(w.take(cut))
        }),
    decreases n,
{
    let w = bytes_of(pieces, pieces.len() as int);
    let a = bytes_of(pieces, n);
    lemma_prefix(pieces, n, pieces.len() as int);
    lemma_cut_at_boundary(w, a.len() as int);
    let cut = a.len() - unfinished(a);
    if n == 0 {
        assert(w.take(0) =~= Seq::<u8>::empty());
        assert(a.skip(cut) =~= Seq::<u8>::empty());
        assert(decode_utf8(w.take(0)) =~= Seq::<char>::empty());
    } else {
        lemma_processed(pieces, n - 1);
        let before = bytes_of(pieces, n - 1);
        let start = before.len() - unfinished(before);
        let (held, out) = processed(pieces, n - 1);
        let all = held + pieces[n - 1];
        assert(all =~= a.skip(start));
        lemma_unfinished_tail(a, w, start);
        assert(unfinished(all) == unfinished(a));
        assert(start <= cut) by {
            if cut < start {
                lemma_inside_unfinished(a, w, start);
            }
        }
        let piece = all.take(all.len() - unfinished(all));
        assert(piece =~= w.subrange(start, cut));
        let head = w.take(cut);
        assert(head =~= w.subrange(0, cut));
        valid_utf8_split(w, cut);
        lemma_boundary_in_front(w, start, cut);
        valid_utf8_split(head, start);
        decode_utf8_split(head, start);
        assert(head.subrange(start, cut) =~= piece);
        assert(head.subrange(0, start) =~= w.take(start));
        assert(all.skip(all.len() - unfinished(all)) =~= a.skip(cut));
    }
}

/// A boundary in the whole is one in a part that ends at a boundary.
proof fn lemma_boundary_in_front(w: Seq<u8>, i: int, end: int)
    requires
        valid_utf8(w),
        0 <= i <= end <= w.len(),
        is_char_boundary(w, i),
        is_char_boundary(w, end),
    ensures
        valid_utf8(w.take(end)),
        is_char_boundary(w.take(end), i),
{
    assert(w.take(end) =~= w.subrange(0, end));
    valid_utf8_split(w, end);
    if i < end {
        is_char_boundary_iff_not_is_continuation_byte(w, i);
        is_char_boundary_iff_not_is_continuation_byte(w.take(end), i);
    } else {
        is_char_boundary_start_end_of_seq(w.take(end));
    }
}

/// No character begins inside of the bytes that are unfinished.
proof fn lemma_inside_unfinished(a: Seq<u8>, w: Seq<u8>, i: int)
    requires
        valid_utf8(w),
        a.len() <= w.len(),
        w.take(a.len() as int) == a,
        a.len() - unfinished(a) < i <= a.len(),
    ensures
        !is_char_boundary(w, i),
{
    if i < a.len() {
        assert(w.take(a.len() as int)[i] == w[i]);
        is_char_boundary_iff_not_is_continuation_byte(w, i);
    } else {
        if is_char_boundary(w, i) {
            lemma_no_boundary_in_unfinished(w, i);
        }
    }
}

/// However the bytes of a text are cut into pieces, the text that comes out is the one that they
/// encode, and nothing is held back at the end.
pub proof fn law_cuts_do_not_matter(pieces: Seq<Seq<u8>>)
    requires
        valid_utf8(bytes_of(pieces, pieces.len() as int)),
    ensures
        processed(pieces, pieces.len() as int) == (
            Seq::<u8>::empty(),
            decode_utf8(bytes_of(pieces, pieces.len() as int)),
        ),
{
    let n = pieces.len() as int;
    let w = bytes_of(pieces, n);
    lemma_processed(pieces, n);
    is_char_boundary_start_end_of_seq(w);
    lemma_no_boundary_in_unfinished(w, w.len() as int);
    assert(w.take(w.len() as int) =~= w);
    assert(w.skip(w.len() as int) =~= Seq::<u8>::empty());
}

// ---------------------------------------------------------------------------------------------
// Ends of lines
// ---------------------------------------------------------------------------------------------

/// What the decoder works on when piece `n` comes: what it held back, and the piece.
pub open spec fn taken_in(pieces: Seq<Seq<u8>>, n: int) -> Seq<u8> {
    processed(pieces, n).0 + pieces[n]
}

/// The text that comes out when piece `n` comes.
pub open spec fn text_out(pieces: Seq<Seq<u8>>, n: int) -> Seq<char> {
    let all = taken_in(pieces, n);
    text_in(all.take(all.len() - unfinished(all)))
}

/// The bytes end inside of a character that directly follows the end of a line.
pub open spec fn breaks_off_behind_line(s: Seq<u8>) -> bool {
    let cut = s.len() - unfinished(s);
    0 < cut < s.len() && s[cut - 1] == 10
}

/// The last byte is the end of a line.
pub open spec fn ends_with_newline(s: Seq<u8>) -> bool {
    s.len() > 0 && s.last() == 10
}

/// The end of a line at the end of a text shows in its last byte.
proof fn lemma_newline_byte(x: Seq<u8>)
    requires
        valid_utf8(x),
    ensures
        decode_utf8(x).len() > 0 && decode_utf8(x).last() == '\n' <==> ends_with_newline(x),
        x.len() > 0 ==> decode_utf8(x).len() > 0,
    decreases x.len(),
{
    if x.len() > 0 {
        let rest = pop_first_scalar(x);
        let first = length_of_first_scalar(x);
        lemma_newline_byte(rest);
        let c = decode_first_scalar(x);
        assert(decode_utf8(x) == seq![c as char] + decode_utf8(rest));
        if rest.len() > 0 {
            assert(decode_utf8(x).last() == decode_utf8(rest).last());
            assert(x.last() == rest.last());
        } else {
            assert(decode_utf8(rest) =~= Seq::<char>::empty());
            assert(x.len() == first);
            let b = x[0];
            if is_leading_byte_width_1(b) {
                assert(b & 0x7f == b) by (bit_vector)
                    requires
                        b <= 0x7f,
                ;
                assert(c == b);
                assert((c as char) == '\n' <==> b == 10);
            } else {
                decode_utf8_first_scalar(x);
                assert(take_first_scalar(x).len() == first);
                assert(encode_scalar(('\n') as u32).len() == 1);
            }
        }
    }
}

/// The bytes of which a piece gives out the text.
proof fn lemma_text_out(pieces: Seq<Seq<u8>>, n: int)
    requires
        0 <= n < pieces.len(),
        valid_utf8(bytes_of(pieces, pieces.len() as int)),
    ensures
        ({
            let all = taken_in(pieces, n);
            &&& 0 <= unfinished(all) <= all.len()
            &&& valid_utf8(all.take(all.len() - unfinished(all)))
        }),
        unfinished(processed(pieces, n).0) == processed(pieces, n).0.len(),
{
    let w = bytes_of(pieces, pieces.len() as int);
    lemma_processed(pieces, n);
    lemma_processed(pieces, n + 1);
    let before = bytes_of(pieces, n);
    let a = bytes_of(pieces, n + 1);
    let start = before.len() - unfinished(before);
    let cut = a.len() - unfinished(a);
    let all = taken_in(pieces, n);
    assert(all =~= a.skip(start));
    lemma_unfinished_tail(a, w, start);
    lemma_unfinished_tail(before, w, start);
    assert(start <= cut) by {
        if cut < start {
            lemma_inside_unfinished(a, w, start);
        }
    }
    let piece = all.take(all.len() - unfinished(all));
    let head = w.take(cut);
    assert(head =~= w.subrange(0, cut));
    lemma_boundary_in_front(w, start, cut);
    valid_utf8_split(head, start);
    assert(head.subrange(start, cut) =~= piece);
}

/// Where no piece breaks off inside of a character that directly follows the end of a line, the
/// end of a line at the end of the text that comes out shows in the last byte of the piece.
pub proof fn law_newline_shows(pieces: Seq<Seq<u8>>, n: int)
    requires
        0 <= n < pieces.len(),
        valid_utf8(bytes_of(pieces, pieces.len() as int)),
        !breaks_off_behind_line(taken_in(pieces, n)),
    ensures
        text_out(pieces, n).len() > 0 && text_out(pieces, n).last() == '\n'
            <==> ends_with_newline(pieces[n]),
{
    let all = taken_in(pieces, n);
    let held = processed(pieces, n).0;
    let x = all.take(all.len() - unfinished(all));
    lemma_text_out(pieces, n);
    lemma_newline_byte(x);
    if pieces[n].len() == 0 {
        assert(all =~= held);
    } else {
        assert(all.last() == pieces[n].last());
    }
}

/// All bytes are those of ASCII characters.
pub open spec fn is_ascii(s: Seq<u8>) -> bool {
    forall|i: int| 0 <= i < s.len() ==> #[trigger] s[i] < 128
}

/// ASCII is UTF-8.
pub proof fn lemma_ascii(s: Seq<u8>)
    requires
        is_ascii(s),
    ensures
        valid_utf8(s),
        unfinished(s) == 0,
        !breaks_off_behind_line(s),
    decreases s.len(),
{
    if s.len() > 0 {
        let rest = pop_first_scalar(s);
        assert(s[0] < 128);
        assert(rest =~= s.skip(1));
        lemma_ascii(rest);
    }
}

/// Nothing is held back of ASCII.
pub proof fn lemma_ascii_pieces(pieces: Seq<Seq<u8>>, n: int)
    requires
        0 <= n <= pieces.len(),
        is_ascii(bytes_of(pieces, pieces.len() as int)),
    ensures
        processed(pieces, n).0.len() == 0,
        forall|i: int| 0 <= i < n ==> !breaks_off_behind_line(#[trigger] taken_in(pieces, i)),
    decreases n,
{
    if n > 0 {
        lemma_ascii_pieces(pieces, n - 1);
        lemma_prefix(pieces, n, pieces.len() as int);
        let w = bytes_of(pieces, pieces.len() as int);
        let a = bytes_of(pieces, n);
        let before = bytes_of(pieces, n - 1);
        let all = taken_in(pieces, n - 1);
        assert(all =~= pieces[n - 1]);
        assert forall|i: int| 0 <= i < all.len() implies #[trigger] all[i] < 128 by {
            assert(a[before.len() + i] == all[i]);
            assert(w.take(a.len() as int)[before.len() + i] == w[before.len() + i]);
        }
        lemma_ascii(all);
    }
}

/// ASCII bytes hold one character each.
pub proof fn lemma_ascii_text(s: Seq<u8>)
    requires
        is_ascii(s),
    ensures
        unfinished(s) == 0,
        text_in(s) == Seq::new(s.len(), |i: int| s[i] as char),
    decreases s.len(),
{
    lemma_ascii(s);
    if s.len() == 0 {
        assert(text_in(s) =~= Seq::new(s.len(), |i: int| s[i] as char));
    } else {
        let rest = pop_first_scalar(s);
        let b = s[0];
        assert(b & 0x7f == b) by (bit_vector)
            requires
                b <= 0x7f,
        ;
        assert(rest =~= s.skip(1));
        lemma_ascii(rest);
        lemma_ascii_text(rest);
        assert(text_in(s) =~= Seq::new(s.len(), |i: int| s[i] as char));
    }
}

/// Text that came out stays.
pub proof fn lemma_text_goes_on(pieces: Seq<Seq<u8>>, n: int, m: int)
    requires
        0 <= n <= m,
    ensures
        processed(pieces, n).1.len() <= processed(pieces, m).1.len(),
        processed(pieces, m).1.take(processed(pieces, n).1.len() as int) == processed(pieces, n).1,
    decreases m,
{
    let a = processed(pieces, n).1;
    let b = processed(pieces, m).1;
    if n == m {
        assert(b.take(a.len() as int) =~= a);
    } else {
        lemma_text_goes_on(pieces, n, m - 1);
        let c = processed(pieces, m - 1).1;
        assert(b.take(a.len() as int) =~= c.take(a.len() as int));
    }
}

/// Bytes that are UTF-8 hold the text that they encode; of others `String::from_utf8_lossy` makes
/// one.
pub proof fn law_text_in(bytes: Seq<u8>)
    ensures
        valid_utf8(bytes) ==> text_in(bytes) == decode_utf8(bytes),
        !valid_utf8(bytes) ==> text_in(bytes) == lossy_text(bytes),
{
}

} // verus!

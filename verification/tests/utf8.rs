//! Text out of bytes that come in pieces.

use ccr::utf8_stream::Utf8StreamBuffer;

#[test]
fn every_cut_gives_the_same_text() {
    let s = "a é € 😀 z";
    let bytes = s.as_bytes();
    for i in 0..=bytes.len() {
        for j in i..=bytes.len() {
            let mut b = Utf8StreamBuffer::new();
            let mut out = b.process_bytes(&bytes[..i]);
            out.push_str(&b.process_bytes(&bytes[i..j]));
            out.push_str(&b.process_bytes(&bytes[j..]));
            assert_eq!(out, s);
        }
    }
}

#[test]
fn byte_by_byte() {
    let s = "€uro 😀";
    let mut b = Utf8StreamBuffer::new();
    let mut out = String::new();
    for x in s.as_bytes() {
        out.push_str(&b.process_bytes(&[*x]));
    }
    assert_eq!(out, s);
}

#[test]
fn a_character_waits_for_its_last_byte() {
    let mut b = Utf8StreamBuffer::new();
    assert_eq!(b.process_bytes(&[b'x', 0xe2, 0x82]), "x");
    assert_eq!(b.process_bytes(&[0xac]), "€");
}

#[test]
fn what_is_no_utf8_is_replaced() {
    let mut b = Utf8StreamBuffer::new();
    assert_eq!(b.process_bytes(&[b'a', 0xff, b'b']), "a\u{fffd}b");
    assert_eq!(b.process_bytes(&[0x80]), "\u{fffd}");
}

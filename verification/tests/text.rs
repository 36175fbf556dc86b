//! Text functions against those of the standard library.

use ccr::text;

#[test]
fn white_space_is_that_of_unicode() {
    for u in 0..=0x10ffffu32 {
        if let Some(c) = char::from_u32(u) {
            assert_eq!(text::is_space_char(c), c.is_whitespace(), "{:x}", u);
        }
    }
}

#[test]
fn trim_and_search() {
    for s in ["", " ", "  a b\t", "\u{3000}x\u{a0}", "data: [DONE]\n"] {
        assert_eq!(text::trim(s), s.trim());
    }
    assert!(text::contains("abcabc", "cab"));
    assert!(!text::contains("abc", "abd"));
    assert!(text::contains("abc", ""));
    assert!(text::starts_with("data: x", "data:"));
    assert_eq!(text::strip_prefix("data: x", "data:"), Some(" x".to_string()));
    assert_eq!(text::strip_prefix("dat", "data:"), None);
    assert_eq!(text::trim_end_matches("a``````", "```"), "a");
    assert!(text::same("é", "é"));
    assert!(!text::same("é", "e"));
    assert_eq!(text::byte_count("é€"), 5);
}

#[test]
fn join_and_concatenate() {
    let v = vec!["a".to_string(), "".to_string(), "b".to_string()];
    assert_eq!(text::join(&v, "\n"), v.join("\n"));
    assert_eq!(text::concat_all(&v), "ab");
    assert_eq!(text::join(&vec![], "\n"), "");
}

#[test]
fn decimal_numerals() {
    for i in [0, 7, 10, 1700000000, -1, -90, i64::MAX, i64::MIN] {
        assert_eq!(text::decimal_text(i), i.to_string());
    }
    assert_eq!(text::decimal_u64(u64::MAX), u64::MAX.to_string());
}

#[test]
fn lines_are_those_of_the_standard_library() {
    for s in [
        "",
        "\n",
        "a",
        "a\n",
        "a\nb",
        "a\r\nb\r",
        "\r\n\n",
        "a\r\r\nb\n\nc",
    ] {
        let expected: Vec<String> = s.lines().map(|l| l.to_string()).collect();
        assert_eq!(text::split_lines(s), expected, "{:?}", s);
    }
}

#[test]
fn ascii_letters_become_small() {
    let s = "Connection RESET by ÄPeer 42 @[`{";
    assert_eq!(text::to_ascii_lower(s), s.to_ascii_lowercase());
}

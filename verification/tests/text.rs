use nixvm::path::{lossy_text, utf8_text, zero_byte_message, zero_position, HostPath};
use nixvm::text::{
    chars_of, decimal_int_text, decimal_text, hex_text, is_space_char, lines_text, split_text,
    text_of, trim_text,
};

#[test]
fn numbers_in_decimal() {
    for n in [0u64, 7, 10, 42, 1000, 123_456_789, u64::MAX] {
        assert_eq!(decimal_text(n), n.to_string());
    }
    for i in [0i32, 1, -1, -10, 37, i32::MAX, i32::MIN] {
        assert_eq!(decimal_int_text(i), i.to_string());
    }
}

#[test]
fn numbers_in_hexadecimal() {
    assert_eq!(hex_text(0, 16), "0000000000000000");
    assert_eq!(hex_text(0xdead_beef, 16), "00000000deadbeef");
    assert_eq!(hex_text(u64::MAX, 16), "ffffffffffffffff");
    assert_eq!(hex_text(0x1234, 2), "34");
    for n in [1u64, 0xabc, 0x0123_4567_89ab_cdef] {
        assert_eq!(hex_text(n, 16), format!("{:016x}", n));
    }
}

#[test]
fn splitting_matches_the_standard_library() {
    for s in ["", ".", "a", "a.b", ".a.", "a..b", "\u{e4}.\u{1f600}"] {
        let expected: Vec<String> = s.split('.').map(|p| p.to_string()).collect();
        assert_eq!(split_text(s, '.'), expected);
    }
}

#[test]
fn lines_match_the_standard_library() {
    for s in [
        "", "\n", "a", "a\n", "a\nb", "a\r\nb\r\n", "a\r", "a\r\r\n", "\n\n", "a\n\r", "\r\n",
    ] {
        let expected: Vec<String> = s.lines().map(|l| l.to_string()).collect();
        assert_eq!(lines_text(s), expected, "{:?}", s);
    }
}

#[test]
fn white_space_is_that_of_unicode() {
    for code in 0..=0x10ffffu32 {
        if let Some(c) = char::from_u32(code) {
            assert_eq!(is_space_char(c), c.is_whitespace(), "{:?}", c);
        }
    }
}

#[test]
fn trimming_matches_the_standard_library() {
    for s in ["", " ", " a ", "a b", "\t\na\u{3000}", "a\n", "\u{a0}a b\u{2028}"] {
        assert_eq!(trim_text(s), s.trim());
    }
}

#[test]
fn characters_and_back() {
    let v = chars_of("a\u{e4}b");
    assert_eq!(v, vec!['a', '\u{e4}', 'b']);
    assert_eq!(text_of(&v, 1, 3), "\u{e4}b");
    assert_eq!(text_of(&v, 1, 1), "");
}

#[test]
fn bytes_that_are_text() {
    assert_eq!(utf8_text(vec![0xc3, 0xa4, 0x62]), Ok("\u{e4}b".to_string()));
    let bad = utf8_text(vec![0x61, 0xff]);
    assert_eq!(
        bad,
        Err("invalid utf-8 sequence of 1 bytes from index 1".to_string())
    );
    assert_eq!(lossy_text(&vec![0x61, 0xff, 0x62]), "a\u{fffd}b");
    assert_eq!(lossy_text(&vec![0x61, 0x62]), "ab");
}

#[test]
fn zero_bytes_are_found() {
    assert_eq!(zero_position("abc"), None);
    assert_eq!(zero_position("a\u{e4}\0b\0"), Some(3));
    let shown = std::format!("nul byte found in provided data at position: {}", 3);
    assert_eq!(zero_byte_message(3), shown);
}

#[test]
fn paths_are_joined_like_the_standard_library_does() {
    for (base, component) in [
        ("/a", "b"),
        ("/a/", "b"),
        ("", "b"),
        ("/a", "/b"),
        ("/a", ""),
        ("a", "b/c"),
    ] {
        let expected = std::path::Path::new(base).join(component);
        let joined = HostPath::from_text(base).join(component);
        assert_eq!(joined.show(), expected.to_str().unwrap());
    }
}

#[test]
fn paths_as_text() {
    let p = HostPath { bytes: vec![0x2f, 0xff] };
    assert_eq!(p.to_text(), None);
    assert_eq!(p.show(), "/\u{fffd}");
    let q = HostPath::from_text("/a\u{e4}");
    assert_eq!(q.to_text(), Some("/a\u{e4}".to_string()));
    assert_eq!(q.with_suffix(".x").show(), "/a\u{e4}.x");
    assert_eq!(q.clone().bytes, q.bytes);
}

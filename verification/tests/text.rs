use roger::text::{
    is_white_space, str_eq, strip_prefix, take_chars, to_decimal, to_decimal_i32, trim, trim_end,
    trim_end_char,
};

#[test]
fn white_space_is_that_of_unicode() {
    for u in 0..=0x10ffffu32 {
        if let Some(c) = char::from_u32(u) {
            assert_eq!(is_white_space(c), c.is_whitespace(), "{:x}", u);
        }
    }
}

#[test]
fn trims_like_the_standard_library() {
    for s in ["", " ", "a", " a", "a ", " a b ", "\u{3000}\u{e9}\u{a0}\u{85}", "\t\r\n", "\u{200b}x"] {
        assert_eq!(trim(s), s.trim());
        assert_eq!(trim(trim(s)), trim(s));
        assert_eq!(trim_end(s), s.trim_end());
    }
    for s in ["", "/", "a/", "/a//", "//", "\u{e9}/\u{e9}/"] {
        assert_eq!(trim_end_char(s, '/'), s.trim_end_matches('/'));
    }
}

#[test]
fn prefixes_and_equality() {
    assert!(str_eq("", "") && str_eq("\u{e9}a", "\u{e9}a"));
    assert!(!str_eq("a", "b") && !str_eq("a", "aa") && !str_eq("", "a"));
    assert_eq!(strip_prefix("data:x", "data:"), Some("x"));
    assert_eq!(strip_prefix("data:", "data:"), Some(""));
    assert_eq!(strip_prefix("data", "data:"), None);
    assert_eq!(strip_prefix("\u{e9}\u{e8}", "\u{e9}"), Some("\u{e8}"));
    assert_eq!(take_chars("\u{e9}\u{e8}x", 2), "\u{e9}\u{e8}");
    assert_eq!(take_chars("ab", 3), "ab");
}

#[test]
fn decimal_notation() {
    for n in [0u64, 7, 10, 99, 100, 4_294_967_295, u64::MAX] {
        assert_eq!(to_decimal(n), n.to_string());
    }
    for n in [0i32, -1, -10, 42, i32::MIN, i32::MAX] {
        assert_eq!(to_decimal_i32(n), n.to_string());
    }
}

use backend::text::{decimal_string, same_text, skip_chars, starts_with, trim_class, trim_end_class, CharClass};

#[test]
fn trim_whitespace_like_str_trim() {
    assert_eq!(trim_class("  \t http://host/ \n", CharClass::Whitespace), "http://host/");
    assert_eq!(trim_class("\u{a0}x\u{3000}", CharClass::Whitespace), "x");
}

#[test]
fn trim_slashes_at_both_ends() {
    assert_eq!(trim_class("//guacamole/api//", CharClass::Slash), "guacamole/api");
    assert_eq!(trim_class("///", CharClass::Slash), "");
}

#[test]
fn trim_end_keeps_the_start() {
    assert_eq!(trim_end_class("/base//", CharClass::Slash), "/base");
}

#[test]
fn prefixes_and_equality() {
    assert!(starts_with("https://x", "https://"));
    assert!(!starts_with("http://x", "https://"));
    assert!(!starts_with("ht", "http"));
    assert!(same_text("abc", "abc"));
    assert!(!same_text("abc", "abd"));
    assert_eq!(skip_chars("https://host", 8), "host");
}

#[test]
fn decimal_rendering_matches_to_string() {
    for n in [0u64, 7, 10, 5900, 65535, u64::MAX] {
        assert_eq!(decimal_string(n), n.to_string());
    }
}

#[test]
fn whitespace_test_agrees_with_char_is_whitespace() {
    for code in 0u32..=0x10FFFF {
        if let Some(c) = char::from_u32(code) {
            assert_eq!(backend::text::char_is_whitespace(c), c.is_whitespace(), "U+{:04X}", code);
        }
    }
}

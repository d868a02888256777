use monitor::text::{
    byte_len, contains_char, contains_text, decimal_i64, decimal_u64, is_blank, join, parse_u64, same_text,
    starts_with, trim, white,
};

#[test]
fn texts_are_compared_and_searched() {
    assert!(same_text("é", "é"));
    assert!(!same_text("é", "e"));
    assert!(starts_with("plugin_x", "plugin_"));
    assert!(!starts_with("plug", "plugin_"));
    assert!(contains_char("a:b", ':'));
    assert!(!contains_char("ab", ':'));
    assert!(contains_text("all fuel consumed", "fuel"));
    assert!(contains_text("abc", ""));
    assert!(!contains_text("fue", "fuel"));
    assert_eq!(byte_len("中a"), 4);
}

#[test]
fn whitespace_is_that_of_the_standard_library() {
    for n in 0..=0x10ffffu32 {
        if let Some(c) = char::from_u32(n) {
            assert_eq!(white(c), c.is_whitespace(), "{n:x}");
        }
    }
    assert_eq!(trim("\u{3000} a b\t\n"), "a b");
    assert_eq!(trim(" "), "");
    assert!(is_blank("\u{85}"));
    assert!(!is_blank("x"));
}

#[test]
fn numbers_are_written_and_read() {
    for n in [0, 7, 10, 1999, u64::MAX] {
        assert_eq!(decimal_u64(n), n.to_string());
        assert_eq!(parse_u64(&n.to_string()), Some(n));
    }
    for n in [0, -1, 42, i64::MIN, i64::MAX] {
        assert_eq!(decimal_i64(n), n.to_string());
    }
    for s in ["", "+", "-1", " 1", "1a", "18446744073709551616", "99999999999999999999999", "0x1"] {
        assert_eq!(parse_u64(s), None, "{s}");
        assert_eq!(s.parse::<u64>().ok(), None, "{s}");
    }
    assert_eq!(parse_u64("+007"), Some(7));
}

#[test]
fn parts_are_joined() {
    let parts = vec!["a".to_string(), "b".to_string(), "c".to_string()];
    assert_eq!(join(&parts, "; "), "a; b; c");
    assert_eq!(join(&Vec::new(), "; "), "");
}

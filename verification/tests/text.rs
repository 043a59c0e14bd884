use ndrpc::text::{is_white_space_char, last_segment_of, same_chars, trim};

#[test]
fn white_space_matches_std() {
    for u in 0u32..=0x10FFFF {
        if let Some(c) = char::from_u32(u) {
            assert_eq!(is_white_space_char(c), c.is_whitespace(), "U+{:04X}", u);
        }
    }
}

#[test]
fn trim_removes_surrounding_white_space() {
    assert_eq!(trim("  Some details \t\n"), "Some details");
    assert_eq!(trim("a b"), "a b");
    assert_eq!(trim(""), "");
    assert_eq!(trim(" \t\r\n "), "");
    assert_eq!(trim("\u{3000}x\u{85}\u{A0}"), "x");
    assert_eq!(trim("\u{2000}é ü\u{200A}"), "é ü");
}

#[test]
fn trim_matches_std() {
    let samples = [
        "", " ", "x", " x", "x ", " x ", "\u{1680}a\u{2028}", "ab  cd", "\u{202F}\u{205F}",
        "\u{180E}x\u{180E}", "\u{200B}y", "ß ", " 日本 ",
    ];
    for s in samples {
        assert_eq!(trim(s), s.trim(), "{:?}", s);
    }
}

#[test]
fn trim_is_idempotent() {
    for s in ["  a  ", "\tb\u{3000}", "", "c"] {
        assert_eq!(trim(trim(s)), trim(s));
    }
}

#[test]
fn last_segment_is_after_last_slash() {
    assert_eq!(last_segment_of("./presets/some_preset.yaml"), "some_preset.yaml");
    assert_eq!(last_segment_of("config.yaml"), "config.yaml");
    assert_eq!(last_segment_of("a/"), "");
    assert_eq!(last_segment_of(""), "");
    assert_eq!(last_segment_of("/x"), "x");
    for s in ["a/b/c", "abc", "a//", "/", "ü/ä"] {
        assert_eq!(last_segment_of(s), s.split('/').last().unwrap());
    }
}

#[test]
fn same_chars_compares_texts() {
    assert!(same_chars("1.0.0", "1.0.0"));
    assert!(!same_chars("1.0.0", "1.0.1"));
    assert!(!same_chars("1.0", "1.0.0"));
    assert!(same_chars("", ""));
}

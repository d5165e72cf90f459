use auralflow::text::{
    collapse_whitespace_text, is_blank_text, take_chars, text_equals, trim_text, white_space,
};

#[test]
fn whitespace_set_matches_std() {
    for code in 0u32..0x3100 {
        if let Some(c) = char::from_u32(code) {
            assert_eq!(white_space(c), c.is_whitespace(), "U+{code:04X}");
        }
    }
}

#[test]
fn trim_matches_std() {
    for s in ["", " ", " a ", "\u{a0}x y\u{2003}", "abc", "\n\t a\u{3000}"] {
        assert_eq!(trim_text(s), s.trim());
        assert_eq!(is_blank_text(s), s.trim().is_empty());
    }
}

#[test]
fn trim_is_idempotent() {
    let once = trim_text("  hola  ");
    assert_eq!(trim_text(&once), once);
}

#[test]
fn collapse_matches_split_whitespace() {
    for s in ["", "   ", "a", " a  b\t\nc ", "x\u{2028}y", "uno dos"] {
        let expected = s.split_whitespace().collect::<Vec<_>>().join(" ");
        assert_eq!(collapse_whitespace_text(s), expected);
    }
}

#[test]
fn collapse_is_idempotent() {
    let once = collapse_whitespace_text("  a \t b  ");
    assert_eq!(collapse_whitespace_text(&once), once);
}

#[test]
fn take_and_compare() {
    assert_eq!(take_chars("ñandú", 3), "ñan");
    assert_eq!(take_chars("ab", 5), "ab");
    assert!(text_equals("abc", "abc"));
    assert!(!text_equals("abc", "abd"));
}

use patchbay::text::{
    decimal_text, is_blank, is_word, path_to, push_padded, rank, same_bytes, same_text, Rank,
};

#[test]
fn strings_rank_by_their_bytes() {
    assert!(matches!(rank("a", "b"), Rank::Earlier));
    assert!(matches!(rank("b", "a"), Rank::Later));
    assert!(matches!(rank("a", "a"), Rank::Same));
    assert!(matches!(rank("", "a"), Rank::Earlier));
    assert!(matches!(rank("ab", "a"), Rank::Later));
    assert!(matches!(rank("z", "é"), Rank::Earlier));
    assert!(same_text("é", "é"));
    assert!(!same_text("é", "e"));
    assert!(same_bytes(b"ab", b"ab"));
    assert!(!same_bytes(b"ab", b"a"));
}

#[test]
fn words_are_told_from_other_text() {
    assert!(is_word("", false));
    assert!(is_word("aZ09-", false));
    assert!(!is_word("a_", false));
    assert!(is_word("a_", true));
    for text in ["a b", "a/", "`", "{", "@", "[", ":", "é", "\n"] {
        assert!(!is_word(text, true));
    }
}

#[test]
fn numbers_are_written_as_format_does() {
    for n in [0u64, 1, 9, 10, 99, 100, 12345, u64::MAX] {
        assert_eq!(decimal_text(n), n.to_string());
        let mut hex = String::new();
        push_padded(&mut hex, n, 16, 16);
        assert_eq!(hex, format!("{n:016x}"));
    }
}

#[test]
fn blank_text_is_what_trims_to_nothing() {
    for text in ["", " ", "\t\r\n\u{b}\u{c}", "\u{a0}\u{2003}\u{3000}", "x", " x ", "\u{200b}", "\0"] {
        assert_eq!(is_blank(text), text.trim().is_empty(), "{text:?}");
    }
}

#[test]
fn white_space_is_that_of_std() {
    for c in (0u32..=0x10ffff).filter_map(char::from_u32) {
        assert_eq!(is_blank(&c.to_string()), c.is_whitespace(), "{c:?}");
    }
}

#[test]
fn paths_are_joined() {
    assert_eq!(path_to(&b"/tmp/x".to_vec(), "f"), b"/tmp/x/f");
    assert_eq!(path_to(&b"/".to_vec(), "f"), b"/f");
    assert_eq!(path_to(&b"".to_vec(), "f"), b"f");
}

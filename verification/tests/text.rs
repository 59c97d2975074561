use zepi_agent_panel::text::{
    begins_with, decimal_text, is_blank, is_white_space, join_texts, joined, same_text,
};

#[test]
fn white_space_is_what_trimming_removes() {
    for n in 0..=0x10ffffu32 {
        if let Some(c) = char::from_u32(n) {
            assert_eq!(is_white_space(c), c.is_whitespace());
        }
    }
}

#[test]
fn blank_text_is_trimmed_away() {
    for text in ["", " ", "\n\u{2003}", "a", " a ", "\u{200b}"] {
        assert_eq!(is_blank(text), text.trim().is_empty());
    }
}

#[test]
fn numbers_are_written_in_decimal() {
    for n in [0, 9, 10, 99, 100, 1203, usize::MAX] {
        assert_eq!(decimal_text(n), n.to_string());
    }
}

#[test]
fn texts_are_compared_by_their_characters() {
    assert!(same_text("ü", "ü"));
    assert!(!same_text("u", "ü"));
    assert!(!same_text("a", "ab"));
    assert!(begins_with("/plan", '/'));
    assert!(!begins_with("plan/", '/'));
    assert!(!begins_with("", '/'));
}

#[test]
fn texts_are_joined() {
    assert_eq!(joined("a", "b"), "ab");
    let parts = ["a".to_owned(), "".to_owned(), "c".to_owned()];
    assert_eq!(join_texts(&parts, ", "), "a, , c");
    assert_eq!(join_texts(&parts[..1], ", "), "a");
    assert_eq!(join_texts(&[], ", "), "");
}

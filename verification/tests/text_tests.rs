use unipac::text::{contains_char, join_with, remove_char, same_text, split_all, split_once_at};

#[test]
fn split_once_at_first_separator() {
    let r = split_once_at("Package a b", ' ').unwrap();
    assert_eq!(r.0, "Package");
    assert_eq!(r.1, "a b");
}

#[test]
fn split_once_without_separator() {
    assert!(split_once_at("End", ' ').is_none());
}

#[test]
fn split_all_keeps_empty_pieces() {
    assert_eq!(split_all("a,,b,", ','), vec!["a", "", "b", ""]);
    assert_eq!(split_all("", ','), vec![""]);
}

#[test]
fn join_with_separator() {
    let parts = vec!["x".to_string(), "y z".to_string()];
    assert_eq!(join_with(&parts, " "), "x y z");
    assert_eq!(join_with(&Vec::new(), " "), "");
}

#[test]
fn remove_char_drops_every_occurrence() {
    assert_eq!(remove_char("a\0b\0", '\0'), "ab");
    assert!(contains_char("a.b", '.'));
    assert!(!contains_char("ab", '.'));
}

#[test]
fn same_text_compares_characters() {
    assert!(same_text("abc", "abc"));
    assert!(!same_text("abc", "abd"));
    assert!(!same_text("abc", "ab"));
}

use cottas_rs::text::{chars_of, ends_with, is_whitespace, join, same_text};

#[test]
fn white_space_is_that_of_char() {
    let mut n: u32 = 0;
    while n <= 0x10FFFF {
        if let Some(c) = char::from_u32(n) {
            assert_eq!(is_whitespace(c), c.is_whitespace(), "{n:#x}");
        }
        n += 1;
    }
}

#[test]
fn chars_of_gives_the_characters() {
    assert_eq!(chars_of(""), Vec::<char>::new());
    assert_eq!(chars_of("a\u{e9}\u{1f600}"), vec!['a', '\u{e9}', '\u{1f600}']);
}

#[test]
fn same_text_compares_whole_texts() {
    assert!(same_text("", ""));
    assert!(same_text("abc", "abc"));
    assert!(!same_text("abc", "abd"));
    assert!(!same_text("abc", "ab"));
    assert!(!same_text("", "a"));
}

#[test]
fn ends_with_compares_the_end() {
    assert!(ends_with(&chars_of("file.ttl"), ".ttl"));
    assert!(ends_with(&chars_of(".ttl"), ".ttl"));
    assert!(ends_with(&chars_of("anything"), ""));
    assert!(!ends_with(&chars_of("ttl"), ".ttl"));
    assert!(!ends_with(&chars_of("file.ttl "), ".ttl"));
    assert!(!ends_with(&chars_of("file.ttx"), ".ttl"));
}

#[test]
fn join_puts_the_separator_between() {
    let parts: Vec<String> = vec!["a".to_string(), "b".to_string(), "c".to_string()];
    assert_eq!(join(&parts, ", "), "a, b, c");
    assert_eq!(join(&parts[..1].to_vec(), ", "), "a");
    assert_eq!(join(&Vec::new(), ", "), "");
    assert_eq!(join(&vec![String::new(), String::new()], "-"), "-");
}

use shell::text::{
    all_white, chars_of, copy_str, is_white, join, push_decimal, same_text, split_at_white,
    split_words,
};

#[test]
fn words_split_on_unicode_whitespace() {
    assert_eq!(split_words("a\u{3000}b\u{85}c\u{A0} d"), vec!["a", "b", "c", "d"]);
    assert!(split_words(" \t\r\n").is_empty());
    assert_eq!(split_words("héllo  wörld"), vec!["héllo", "wörld"]);
}

#[test]
fn whitespace_classification_follows_char() {
    for c in ['a', ' ', '\t', '\n', '\u{2003}', '\u{200B}', '\u{FEFF}', '\u{1680}', '_'] {
        assert_eq!(is_white(c), c.is_whitespace(), "{:?}", c);
    }
    assert!(all_white(""));
    assert!(all_white(" \u{2028}"));
    assert!(!all_white(" x "));
}

#[test]
fn joining_and_copying() {
    let ws = vec!["a".to_string(), "".to_string(), "b c".to_string()];
    assert_eq!(join(&ws), "a  b c");
    assert_eq!(join(&Vec::new()), "");
    assert_eq!(copy_str("zß∂"), "zß∂");
    assert_eq!(chars_of("zß∂"), vec!['z', 'ß', '∂']);
}

#[test]
fn decimal_notation() {
    let mut s = String::from("n=");
    push_decimal(&mut s, 0);
    assert_eq!(s, "n=0");
    let mut t = String::new();
    push_decimal(&mut t, 1200345);
    assert_eq!(t, "1200345");
}

#[test]
fn text_equality_and_first_space() {
    assert!(same_text("echo", "echo"));
    assert!(!same_text("echo", "ech"));
    assert!(!same_text("echo", "echO"));
    assert_eq!(split_at_white("a b c"), ("a".to_string(), "b c".to_string()));
    assert_eq!(split_at_white(" lead"), (String::new(), "lead".to_string()));
    assert_eq!(split_at_white("none"), ("none".to_string(), String::new()));
    assert_eq!(split_at_white("echo\thi there"), ("echo".to_string(), "hi there".to_string()));
    assert_eq!(split_at_white("a\u{3000}b"), ("a".to_string(), "b".to_string()));
}

use notefs::text::{find_last, str_eq, str_lex_le};

#[test]
fn string_equality_is_exact() {
    assert!(str_eq("", ""));
    assert!(str_eq("abc", "abc"));
    assert!(!str_eq("abc", "abd"));
    assert!(!str_eq("abc", "ab"));
    assert!(!str_eq("md", "MD"));
}

#[test]
fn lexicographic_order_compares_by_scalar_value() {
    assert!(str_lex_le("", "anything"));
    assert!(str_lex_le("a", "b"));
    assert!(!str_lex_le("b", "a"));
    assert!(str_lex_le("a", "ab"));
    assert!(!str_lex_le("ab", "a"));
    assert!(str_lex_le("same", "same"));
    assert!(str_lex_le("A", "a"));
    assert!(str_lex_le("z", "\u{e9}"));
}

#[test]
fn the_last_occurrence_is_found() {
    assert_eq!(find_last("a/b/c", '/'), Some(3));
    assert_eq!(find_last("/c", '/'), Some(0));
    assert_eq!(find_last("abc", '/'), None);
    assert_eq!(find_last("", '/'), None);
    assert_eq!(find_last("x.tar.gz", '.'), Some(5));
}

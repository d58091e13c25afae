use fopener::text::u64_text;
use fopener::text::{is_blank, join_with, parse_u32, parse_u64, replace_all_exec, same_text, split_words};

#[test]
fn replacing() {
    assert_eq!(replace_all_exec("aXbXc", "X", "--"), "a--b--c");
    assert_eq!(replace_all_exec("aaaa", "aa", "b"), "bb");
    assert_eq!(replace_all_exec("aaa", "aa", "b"), "ba");
    assert_eq!(replace_all_exec("", "x", "y"), "");
    assert_eq!(replace_all_exec("h\u{e9}llo \u{e9}", "\u{e9}", "e"), "hello e");
}

#[test]
fn blanks() {
    assert!(is_blank(""));
    assert!(is_blank(" \t\n\u{a0}\u{2003}"));
    assert!(!is_blank(" a "));
}

#[test]
fn numbers() {
    assert_eq!(parse_u64("42"), Some(42));
    assert_eq!(parse_u64("+7"), Some(7));
    assert_eq!(parse_u64("18446744073709551615"), Some(u64::MAX));
    assert_eq!(parse_u64("18446744073709551616"), None);
    assert_eq!(parse_u64(""), None);
    assert_eq!(parse_u64("+"), None);
    assert_eq!(parse_u64("-1"), None);
    assert_eq!(parse_u64(" 1"), None);
    assert_eq!(parse_u64("1_000"), None);
    assert_eq!(parse_u32("4294967295"), Some(u32::MAX));
    assert_eq!(parse_u32("4294967296"), None);
    for s in ["0", "+0", "00012", "123abc", "+-1"] {
        assert_eq!(parse_u64(s), s.parse::<u64>().ok(), "{s}");
    }
}

#[test]
fn words_and_joins() {
    assert_eq!(split_words("  a  bc\td \n"), vec!["a", "bc", "d"]);
    assert!(split_words(" \t ").is_empty());
    assert_eq!(join_with(&vec!["a".into(), "b".into(), "c".into()], ", "), "a, b, c");
    assert_eq!(join_with(&vec![], ", "), "");
    assert!(same_text("abc", "abc"));
    assert!(!same_text("abc", "abd"));
    assert!(!same_text("abc", "ab"));
}

#[test]
fn decimal_numbers() {
    for n in [0u64, 7, 10, 99, 100, 1234567890, u64::MAX] {
        assert_eq!(u64_text(n), n.to_string());
    }
}

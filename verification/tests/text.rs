use wxauto_desktop::text::{
    char_is_space, chars_of, copy_texts, decimal_text, join2, join3, padded_text, replace_all,
    signed_text, split_lines, text_before, text_of, trim,
};
use wxauto_desktop::text_set::TextSet;

#[test]
fn numbers_in_decimal() {
    assert_eq!(decimal_text(0), "0");
    assert_eq!(decimal_text(9), "9");
    assert_eq!(decimal_text(10), "10");
    assert_eq!(decimal_text(u64::MAX), "18446744073709551615");
    assert_eq!(signed_text(-32000), "-32000");
    assert_eq!(signed_text(i64::MIN), "-9223372036854775808");
    assert_eq!(signed_text(7), "7");
    assert_eq!(padded_text(7, 2), "07");
    assert_eq!(padded_text(123, 2), "123");
    assert_eq!(padded_text(0, 4), "0000");
}

#[test]
fn trimming() {
    assert_eq!(trim("  a b \t\n"), "a b");
    assert_eq!(trim("\u{3000}x\u{a0}"), "x");
    assert_eq!(trim(" \r\n "), "");
    assert_eq!(trim(""), "");
}

#[test]
fn white_space_is_unicodes() {
    for n in 0u32..0x11_0000 {
        if let Some(c) = char::from_u32(n) {
            assert_eq!(char_is_space(c), c.is_whitespace(), "{n:x}");
        }
    }
}

#[test]
fn replacing() {
    for (s, pat, by) in [
        ("aXbX", "X", "YY"),
        ("aaa", "aa", "b"),
        ("none", "zz", "b"),
        ("{title}{title}", "{title}", "{title}"),
        ("", "x", "y"),
    ] {
        assert_eq!(replace_all(s, pat, by), s.replace(pat, by));
    }
}

#[test]
fn lines() {
    for s in ["", "a", "a\n", "a\nb", "a\r\nb\r\n", "\n\n", "a\rb\n", "x\r"] {
        let expected: Vec<String> = s.lines().map(|l| l.to_string()).collect();
        assert_eq!(split_lines(s), expected, "{s:?}");
    }
}

#[test]
fn order_is_that_of_strings() {
    let words = ["", "a", "ab", "b", "客户群", "张三", "李四", "\u{10000}", "\u{ffff}"];
    for a in words {
        for b in words {
            assert_eq!(text_before(a, b), a < b, "{a} {b}");
        }
    }
}

#[test]
fn pieces() {
    assert_eq!(chars_of("aé"), vec!['a', 'é']);
    assert_eq!(text_of(&chars_of("hello"), 1, 4), "ell");
    assert_eq!(join2("a", "b"), "ab");
    assert_eq!(join3("a", "b", "c"), "abc");
    assert_eq!(copy_texts(&vec!["x".to_string()]), vec!["x".to_string()]);
}

#[test]
fn set_of_texts() {
    let mut s = TextSet::new();
    assert!(!s.contains("a"));
    assert!(s.insert("a".to_string()));
    assert!(!s.insert("a".to_string()));
    assert!(s.insert("b".to_string()));
    s.remove("a");
    assert!(!s.contains("a"));
    assert!(s.contains("b"));
    s.remove("zzz");
    assert!(s.contains("b"));
}

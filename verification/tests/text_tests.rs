use rusty_live_server::text::{
    contains_char, find_char, first_token_str, leading_number_str, str_eq, str_has_prefix,
    trim_str, u64_to_string,
};

#[test]
fn string_equality_is_exact() {
    assert!(str_eq("", ""));
    assert!(str_eq("abc", "abc"));
    assert!(!str_eq("abc", "abd"));
    assert!(!str_eq("abc", "ab"));
    assert!(str_eq("答案", "答案"));
    assert!(!str_eq("答案", "答 案"));
}

#[test]
fn decimal_rendering() {
    assert_eq!(u64_to_string(0), "0");
    assert_eq!(u64_to_string(7), "7");
    assert_eq!(u64_to_string(10), "10");
    assert_eq!(u64_to_string(337), "337");
    assert_eq!(u64_to_string(1919810), "1919810");
    assert_eq!(u64_to_string(u64::MAX), "18446744073709551615");
}

#[test]
fn prefix_and_contains() {
    assert!(str_has_prefix("secret_abc", "secret_"));
    assert!(!str_has_prefix("secret", "secret_"));
    assert!(str_has_prefix("anything", ""));
    assert!(contains_char("7天", '天'));
    assert!(!contains_char("12小时", '天'));
}

#[test]
fn char_search_and_trim() {
    assert_eq!(find_char("a,b,c", ','), Some(1));
    assert_eq!(find_char("abc", ','), None);
    assert_eq!(trim_str("  10.0.0.1  "), "10.0.0.1");
    assert_eq!(trim_str("x"), "x");
    assert_eq!(trim_str("   "), "");
    // the separator set is the Unicode one, as str::trim uses
    assert_eq!(trim_str("\u{a0}7.7.7.7\u{3000}"), "7.7.7.7");
}

#[test]
fn separators_cover_unicode_whitespace() {
    for c in [
        ' ', '\t', '\n', '\r', '\u{b}', '\u{c}', '\u{85}', '\u{a0}', '\u{1680}', '\u{2000}',
        '\u{200a}', '\u{2028}', '\u{2029}', '\u{202f}', '\u{205f}', '\u{3000}',
    ] {
        assert!(c.is_whitespace());
        assert_eq!(first_token_str(&format!("{}word", c)), "word");
    }
    for c in ['a', '0', '_', '\u{200b}', '\u{feff}'] {
        assert!(!c.is_whitespace());
        assert_eq!(first_token_str(&format!("{}x y", c)), format!("{}x", c));
    }
}

#[test]
fn first_token_and_leading_number() {
    assert_eq!(first_token_str("hello world"), "hello");
    assert_eq!(first_token_str("  lead space"), "lead");
    assert_eq!(first_token_str("   "), "");
    assert_eq!(first_token_str(""), "");
    assert_eq!(leading_number_str("7天"), "7");
    assert_eq!(leading_number_str("10.5小时"), "10.5");
    assert_eq!(leading_number_str("约7天"), "");
}

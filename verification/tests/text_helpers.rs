use ostinato_radio::text::{
    concat3, i64_to_string, join_strings, parse_unsigned_str, split_str, split_whitespace,
    str_contains, trim_str, u64_to_string,
};

#[test]
fn split_keeps_empty_pieces() {
    let parts = split_str("status:play;;curpos:10;", ';');
    assert_eq!(parts, vec!["status:play", "", "curpos:10", ""]);
    assert_eq!(split_str("", ';'), vec![""]);
    assert_eq!(split_str("abc", ';'), vec!["abc"]);
}

#[test]
fn trim_removes_unicode_whitespace() {
    assert_eq!(trim_str("  \t play \n"), "play");
    assert_eq!(trim_str("\u{3000}x\u{a0}"), "x");
    assert_eq!(trim_str("   "), "");
}

#[test]
fn split_whitespace_drops_empty_words() {
    assert_eq!(split_whitespace("  soir   d'hiver "), vec!["soir", "d'hiver"]);
    assert!(split_whitespace(" \t ").is_empty());
}

#[test]
fn unsigned_parsing_follows_from_str() {
    assert_eq!(parse_unsigned_str("42", 255), Some(42));
    assert_eq!(parse_unsigned_str("+7", 255), Some(7));
    assert_eq!(parse_unsigned_str("256", 255), None);
    assert_eq!(parse_unsigned_str("", 255), None);
    assert_eq!(parse_unsigned_str("1a", 255), None);
    assert_eq!(parse_unsigned_str("18446744073709551615", u64::MAX), Some(u64::MAX));
    assert_eq!(parse_unsigned_str("18446744073709551616", u64::MAX), None);
}

#[test]
fn decimal_writing() {
    assert_eq!(u64_to_string(0), "0");
    assert_eq!(u64_to_string(1234567890), "1234567890");
    assert_eq!(i64_to_string(-45), "-45");
    assert_eq!(i64_to_string(i64::MIN), i64::MIN.to_string());
}

#[test]
fn joining_and_searching() {
    let parts = vec!["a".to_string(), "b".to_string(), "c".to_string()];
    assert_eq!(join_strings(&parts, ", "), "a, b, c");
    assert_eq!(join_strings(&[], ", "), "");
    assert!(str_contains("chill folk pour le soir", "soir"));
    assert!(!str_contains("chill", "folk"));
    assert_eq!(concat3("x", "-", "y"), "x-y");
}

use review::text::{contains_char, contains_str, digit_to_char, has_prefix, i64_to_string, parse_i32, parse_i64, parse_u64, parse_usize, str_eq, suffix_from, u64_to_string};

#[test]
fn decimal_text_of_numbers() {
    assert_eq!(u64_to_string(0), "0");
    assert_eq!(u64_to_string(1234567890), "1234567890");
    assert_eq!(u64_to_string(u64::MAX), "18446744073709551615");
    assert_eq!(i64_to_string(-42), "-42");
    assert_eq!(i64_to_string(i64::MIN), "-9223372036854775808");
    assert_eq!(i64_to_string(i64::MAX), "9223372036854775807");
    assert_eq!(digit_to_char(7), '7');
}

#[test]
fn text_round_trips_through_parsing() {
    for n in [0u64, 9, 10, 4096, u64::MAX] {
        assert_eq!(parse_u64(&u64_to_string(n)), Some(n));
    }
    for n in [i64::MIN, -1, 0, 77, i64::MAX] {
        assert_eq!(parse_i64(&i64_to_string(n)), Some(n));
    }
}

#[test]
fn parsing_follows_str_parse() {
    for s in ["", "+", "-", "12a", " 1", "+-1", "--1", "1.0", "007", "+7", "-0"] {
        assert_eq!(parse_i64(s), s.parse::<i64>().ok(), "{}", s);
        assert_eq!(parse_i32(s), s.parse::<i32>().ok(), "{}", s);
        assert_eq!(parse_u64(s), s.parse::<u64>().ok(), "{}", s);
        assert_eq!(parse_usize(s), s.parse::<usize>().ok(), "{}", s);
    }
    assert_eq!(parse_i32("2147483648"), None);
    assert_eq!(parse_i32("-2147483648"), Some(i32::MIN));
    assert_eq!(parse_u64("18446744073709551616"), None);
    assert_eq!(parse_u64("-1"), None);
}

#[test]
fn string_helpers() {
    assert!(str_eq("abc", "abc"));
    assert!(!str_eq("abc", "abd"));
    assert!(has_prefix("/api/cluster/x", "/api/cluster/"));
    assert!(!has_prefix("/api", "/api/cluster/"));
    assert_eq!(suffix_from("héllo", 2), "llo");
    assert!(contains_char("a/b", '/'));
    assert!(!contains_char("ab", '/'));
    assert!(contains_str("error: database is locked now", "database is locked"));
    assert!(!contains_str("database is lock", "database is locked"));
    assert!(contains_str("anything", ""));
}

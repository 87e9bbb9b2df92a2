use udp_director::text::{
    chars_eq_str, contains_text, lookup, lookup_last, parse_i64, parse_index, position,
    to_chars, u64_to_decimal,
};

#[test]
fn parse_i64_as_the_standard_library_does() {
    let cases = [
        "0", "7", "-7", "+7", "007", "-0", "+0", "9223372036854775807", "9223372036854775808",
        "-9223372036854775808", "-9223372036854775809", "", "-", "+", "1 ", " 1", "1_0", "٣",
        "12a", "--1", "+-1", "1.5", "99999999999999999999999999",
    ];
    for case in cases {
        assert_eq!(parse_i64(case), case.parse::<i64>().ok(), "case {:?}", case);
    }
    assert_eq!(parse_i64("-9223372036854775808"), Some(i64::MIN));
    assert_eq!(parse_i64("9223372036854775807"), Some(i64::MAX));
    assert_eq!(parse_i64("10"), Some(10));
}

#[test]
fn parse_index_as_the_standard_library_does() {
    let cases = [
        "0", "5", "+5", "-5", "-0", "", "+", "18446744073709551615", "18446744073709551616", "1x",
        "00012",
    ];
    for case in cases {
        assert_eq!(parse_index(case), case.parse::<usize>().ok(), "case {:?}", case);
    }
}

#[test]
fn decimal_text_as_the_standard_library_writes_it() {
    for n in [0u64, 1, 9, 10, 11, 99, 100, 7777, 65535, 1_000_000, u64::MAX] {
        assert_eq!(u64_to_decimal(n), n.to_string());
    }
    assert_eq!(u64_to_decimal(27015), "27015");
}

#[test]
fn association_lists() {
    let entries = vec![
        ("a".to_string(), 1),
        ("b".to_string(), 2),
        ("a".to_string(), 3),
    ];
    assert_eq!(lookup(&entries, "a"), Some(&1));
    assert_eq!(lookup_last(&entries, "a"), Some(&3));
    assert_eq!(lookup(&entries, "b"), Some(&2));
    assert_eq!(lookup_last(&entries, "b"), Some(&2));
    assert_eq!(lookup(&entries, "c"), None);
    assert_eq!(lookup_last(&entries, "c"), None);
    assert_eq!(position(&entries, "a"), Some(0));
    assert_eq!(position(&entries, "b"), Some(1));
    assert_eq!(position(&entries, ""), None);
}

#[test]
fn characters_and_comparison() {
    assert_eq!(to_chars("héllo"), vec!['h', 'é', 'l', 'l', 'o']);
    assert!(chars_eq_str("héllo", &vec!['h', 'é', 'l', 'l', 'o']));
    assert!(!chars_eq_str("hello", &vec!['h', 'é', 'l', 'l', 'o']));
    assert!(!chars_eq_str("hell", &vec!['h', 'e', 'l', 'l', 'o']));
    assert!(chars_eq_str("", &Vec::new()));
    let values = vec!["Ready".to_string(), "Allocated".to_string()];
    assert!(contains_text(&values, "Allocated"));
    assert!(!contains_text(&values, "ready"));
    assert!(!contains_text(&Vec::new(), ""));
}

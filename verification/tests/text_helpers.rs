use veil_core::text::{
    chars_of, chars_split_once, chars_split_once_seq, chars_trim, find_seq, i64_decimal, join_text, parse_i32,
    parse_u32, parse_u64, parse_usize, split_chars, split_lines, str_eq_ignore_case, str_less, text_is_empty,
    u64_decimal,
};

fn cs(s: &str) -> Vec<char> {
    s.chars().collect()
}

fn text(v: &[char]) -> String {
    v.iter().collect()
}

#[test]
fn number_parsing() {
    assert_eq!(parse_u64(&cs("18446744073709551615")), Some(u64::MAX));
    assert_eq!(parse_u64(&cs("18446744073709551616")), None);
    assert_eq!(parse_u64(&cs("+7")), Some(7));
    assert_eq!(parse_u64(&cs("")), None);
    assert_eq!(parse_u64(&cs("1a")), None);
    assert_eq!(parse_u32(&cs("4294967296")), None);
    assert_eq!(parse_usize(&cs("42")), Some(42));
    assert_eq!(parse_i32(&cs("-2147483648")), Some(i32::MIN));
    assert_eq!(parse_i32(&cs("2147483648")), None);
    assert_eq!(parse_i32(&cs("-")), None);
}

#[test]
fn decimal_text() {
    assert_eq!(text(&u64_decimal(0)), "0");
    assert_eq!(text(&u64_decimal(1234567890)), "1234567890");
    assert_eq!(text(&i64_decimal(-45)), "-45");
    assert_eq!(text(&i64_decimal(i64::MIN)), i64::MIN.to_string());
}

#[test]
fn splitting_and_trimming() {
    let parts = split_chars(&cs("a,,b,"), ',');
    let parts: Vec<String> = parts.iter().map(|p| text(p)).collect();
    assert_eq!(parts, vec!["a", "", "b", ""]);
    let lines = split_lines(&cs("one\r\ntwo\n\nthree"));
    let lines: Vec<String> = lines.iter().map(|p| text(p)).collect();
    assert_eq!(lines, vec!["one", "two", "", "three"]);
    assert_eq!(text(&chars_trim(&cs("  x y \t"))), "x y");
    let (k, v) = chars_split_once(&cs("key=a=b"), '=').unwrap();
    assert_eq!((text(&k), text(&v)), ("key".to_string(), "a=b".to_string()));
    assert!(chars_split_once(&cs("novalue"), '=').is_none());
    let (n, i) = chars_split_once_seq(&cs("name::id::x"), "::").unwrap();
    assert_eq!((text(&n), text(&i)), ("name".to_string(), "id::x".to_string()));
    assert_eq!(find_seq(&cs("abcabc"), &cs("ca")), Some(2));
    assert_eq!(find_seq(&cs("abc"), &cs("x")), None);
    assert_eq!(chars_of("hé"), vec!['h', 'é']);
}

#[test]
fn comparisons() {
    assert!(str_eq_ignore_case("Hello", "hELLO"));
    assert!(!str_eq_ignore_case("Hello", "Hell"));
    assert!(str_less("10", "2"));
    assert!(str_less("ab", "abc"));
    assert!(!str_less("b", "a"));
    assert!(!str_less("a", "a"));
    assert!(text_is_empty(""));
    assert!(!text_is_empty(" "));
    assert_eq!(join_text("a", "b"), "ab");
}

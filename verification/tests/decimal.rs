use fedsurf::decimal::{decimal_string, parse_unsigned_chars};
use fedsurf::text::{chars_of, replace_all, str_eq, str_has_prefix};

#[test]
fn decimal_strings() {
    assert_eq!(decimal_string(0), "0");
    assert_eq!(decimal_string(7), "7");
    assert_eq!(decimal_string(10), "10");
    assert_eq!(decimal_string(u64::MAX), "18446744073709551615");
}

#[test]
fn parsing_like_std() {
    let p = |s: &str, max: u64| parse_unsigned_chars(&chars_of(s), 0, max);
    assert_eq!(p("255", 255), Some(255));
    assert_eq!(p("256", 255), None);
    assert_eq!(p("+1", 255), Some(1));
    assert_eq!(p("", 255), None);
    assert_eq!(p("+", 255), None);
    assert_eq!(p("-1", 255), None);
    assert_eq!(p("00012", 255), Some(12));
    assert_eq!(p("18446744073709551615", u64::MAX), Some(u64::MAX));
    assert_eq!(p("18446744073709551616", u64::MAX), None);
    for s in ["0", "12", "+9", "300", "x", "1 ", " 1"] {
        assert_eq!(p(s, 255), s.parse::<u8>().ok().map(|v| v as u64));
    }
}

#[test]
fn replacing() {
    assert_eq!(replace_all("aaa", "aa", "b"), "ba");
    assert_eq!(replace_all("xyz", "q", "b"), "xyz");
    assert_eq!(replace_all("a.b.c", ".", "::"), "a::b::c");
    for (s, f, t) in [("abcabc", "bc", "X"), ("aaaa", "aa", "a"), ("", "a", "b")] {
        assert_eq!(replace_all(s, f, t), s.replace(f, t));
    }
}

#[test]
fn comparing() {
    assert!(str_eq("meta", "meta"));
    assert!(!str_eq("meta", "met"));
    assert!(str_has_prefix("tab-1", "tab-"));
    assert!(!str_has_prefix("ta", "tab-"));
}

use niri_remote::snap::get_snapped_pct;
use niri_remote::text::{
    contains, decimal_string, parse_u64, parse_usize, pad_to, push_text, same_text,
    string_from_chars, chars_of,
};

#[test]
fn snap_presets() {
    assert_eq!(get_snapped_pct(1920, 1920), 100);
    assert_eq!(get_snapped_pct(1700, 1920), 100);
    assert_eq!(get_snapped_pct(1280, 1920), 67);
    assert_eq!(get_snapped_pct(960, 1920), 50);
    assert_eq!(get_snapped_pct(640, 1920), 33);
    assert_eq!(get_snapped_pct(480, 1920), 25);
}

#[test]
fn snap_thresholds() {
    // exactly 85% is not above 85%
    assert_eq!(get_snapped_pct(85, 100), 67);
    assert_eq!(get_snapped_pct(86, 100), 100);
    // exactly 60% and 40% stay in the lower bucket
    assert_eq!(get_snapped_pct(60, 100), 50);
    assert_eq!(get_snapped_pct(40, 100), 33);
    // exactly 28% already counts as a third
    assert_eq!(get_snapped_pct(28, 100), 33);
    assert_eq!(get_snapped_pct(7, 25), 33);
    assert_eq!(get_snapped_pct(27, 100), 25);
}

#[test]
fn snap_zero_monitor_width_counts_as_one() {
    assert_eq!(get_snapped_pct(1, 0), 100);
    assert_eq!(get_snapped_pct(0, 0), 25);
}

#[test]
fn snap_huge_values_do_not_overflow() {
    assert_eq!(get_snapped_pct(u64::MAX, u64::MAX), 100);
    assert_eq!(get_snapped_pct(u64::MAX / 2, u64::MAX), 50);
}

#[test]
fn snap_law_monotone_example() {
    let mut last = 0;
    for w in 0..=2000u64 {
        let p = get_snapped_pct(w, 1000);
        assert!(p >= last);
        assert!([25, 33, 50, 67, 100].contains(&p));
        last = p;
    }
}

#[test]
fn parse_u64_cases() {
    assert_eq!(parse_u64("42"), Some(42));
    assert_eq!(parse_u64("+7"), Some(7));
    assert_eq!(parse_u64("007"), Some(7));
    assert_eq!(parse_u64(""), None);
    assert_eq!(parse_u64("+"), None);
    assert_eq!(parse_u64("-1"), None);
    assert_eq!(parse_u64("4a"), None);
    assert_eq!(parse_u64(" 4"), None);
    assert_eq!(parse_u64("18446744073709551615"), Some(u64::MAX));
    assert_eq!(parse_u64("18446744073709551616"), None);
    assert_eq!(parse_u64("99999999999999999999x"), None);
}

#[test]
fn parse_agrees_with_std() {
    for s in ["0", "12", "+3", "", "+", "-0", "1 ", "abc", "18446744073709551616", "٣"] {
        assert_eq!(parse_u64(s), s.parse::<u64>().ok(), "{:?}", s);
        assert_eq!(parse_usize(s), s.parse::<usize>().ok(), "{:?}", s);
    }
}

#[test]
fn decimal_strings() {
    assert_eq!(decimal_string(0), "0");
    assert_eq!(decimal_string(7), "7");
    assert_eq!(decimal_string(1234), "1234");
    assert_eq!(decimal_string(u64::MAX), u64::MAX.to_string());
}

#[test]
fn decimal_round_trip_law_example() {
    for n in [0u64, 9, 10, 99, 100, 123456789, u64::MAX] {
        assert_eq!(parse_u64(&decimal_string(n)), Some(n));
    }
}

#[test]
fn contains_cases() {
    assert!(contains("hello world", "lo w"));
    assert!(contains("abc", ""));
    assert!(contains("", ""));
    assert!(!contains("ab", "abc"));
    assert!(!contains("firefox", "fox!"));
    assert!(contains("aaab", "aab"));
}

#[test]
fn lowercase_and_text_helpers() {
    assert!(same_text("swap", "swap"));
    assert!(!same_text("swap", "swa"));
    assert_eq!(chars_of("héllo"), vec!['h', 'é', 'l', 'l', 'o']);
    assert_eq!(string_from_chars(&vec!['a', 'b']), "ab");
    let mut s = String::from("ab");
    push_text(&mut s, "cd");
    assert_eq!(s, "abcd");
    pad_to(&mut s, '.', 6);
    assert_eq!(s, "abcd..");
    pad_to(&mut s, '.', 3);
    assert_eq!(s, "abcd..");
}

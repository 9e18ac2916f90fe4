use epaper_server::text::{dec_u64, month_abbr, pad2, substr_th};

#[test]
fn decimal_formatting() {
    assert_eq!(dec_u64(0), "0");
    assert_eq!(dec_u64(7), "7");
    assert_eq!(dec_u64(2025), "2025");
    assert_eq!(dec_u64(1000000), "1000000");
}

#[test]
fn two_digit_padding() {
    assert_eq!(pad2(0), "00");
    assert_eq!(pad2(9), "09");
    assert_eq!(pad2(10), "10");
    assert_eq!(pad2(59), "59");
}

#[test]
fn month_abbreviations() {
    assert_eq!(month_abbr(1), "JAN");
    assert_eq!(month_abbr(6), "JUN");
    assert_eq!(month_abbr(12), "DEC");
}

#[test]
fn short_strings_come_back_unchanged() {
    assert_eq!(substr_th("hello".to_string(), 32), "hello");
    assert_eq!(substr_th(String::new(), 0), "");
    assert_eq!(substr_th("abc".to_string(), 3), "abc");
}

#[test]
fn long_strings_are_cut_with_an_ellipsis() {
    assert_eq!(substr_th("abcdef".to_string(), 3), "abc\u{2026}");
    let long = "x".repeat(40);
    let cut = substr_th(long, 32);
    assert_eq!(cut.chars().count(), 33);
    assert!(cut.ends_with('\u{2026}'));
}

#[test]
fn combining_marks_do_not_count_and_stay_attached() {
    // Thai "nam" with a vowel mark above: the mark must not count toward the
    // limit and must never be separated from its base character.
    let s = "\u{0E19}\u{0E49}\u{0E33}".to_string(); // base, tone mark, vowel
    assert_eq!(substr_th(s.clone(), 2), s);

    // Cutting right after a marked character keeps its marks.
    let t = "\u{0E19}\u{0E49}ab".to_string();
    let cut = substr_th(t, 1);
    assert_eq!(cut, "\u{0E19}\u{0E49}\u{2026}");
}

#[test]
fn visible_count_drives_the_cut() {
    // Five visible characters, marks interleaved; a limit of 3 keeps three
    // bases and their marks.
    let t = "a\u{0E31}b\u{0E47}cde".to_string();
    let cut = substr_th(t, 3);
    assert_eq!(cut, "a\u{0E31}b\u{0E47}c\u{2026}");
}

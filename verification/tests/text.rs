use desk_monitoring::text::{
    chars_of, decimal_string, find, str_equals, to_lowercase, to_uppercase,
    trim, trim_end, trim_start,
};

#[test]
fn trims_like_std() {
    for s in [
        "",
        "   ",
        "  a b  ",
        "\t\r\nx\u{85}",
        "\u{a0}\u{1680}y\u{2000}\u{200a}\u{2028}\u{2029}\u{202f}\u{205f}\u{3000}",
        "\u{200b}z\u{200b}",
        "ünï cödé",
    ] {
        assert_eq!(trim(s), s.trim());
        assert_eq!(trim_start(s), s.trim_start());
        assert_eq!(trim_end(s), s.trim_end());
    }
}

#[test]
fn find_first_occurrence() {
    let hay = chars_of("abcabc");
    assert_eq!(find(&hay, &chars_of("bc")), Some(1));
    assert_eq!(find(&hay, &chars_of("")), Some(0));
    assert_eq!(find(&hay, &chars_of("cab")), Some(2));
    assert_eq!(find(&hay, &chars_of("x")), None);
    assert_eq!(find(&chars_of("ab"), &chars_of("abc")), None);
}

#[test]
fn decimal_strings() {
    assert_eq!(decimal_string(0), "0");
    assert_eq!(decimal_string(7), "7");
    assert_eq!(decimal_string(10), "10");
    assert_eq!(decimal_string(u64::MAX), u64::MAX.to_string());
}

#[test]
fn small_helpers() {
    assert!(str_equals("abc", "abc"));
    assert!(!str_equals("abc", "abd"));
    assert!(!str_equals("ab", "abc"));
    assert_eq!(to_uppercase("straße"), "STRASSE");
    assert_eq!(to_lowercase("TmpFS"), "tmpfs");
}

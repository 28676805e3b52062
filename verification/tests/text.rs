use helligkeit::text::{
    after_last_separator_chars, chars_eq, chars_le_exec, chars_of, contains_chars, decimal_string,
    parse_usize_chars, string_of, trim_chars, white_space,
};

fn chars(s: &str) -> Vec<char> {
    s.chars().collect()
}

#[test]
fn decimal_of_zero_and_more() {
    assert_eq!(decimal_string(0), "0");
    assert_eq!(decimal_string(7), "7");
    assert_eq!(decimal_string(1234), "1234");
    assert_eq!(decimal_string(usize::MAX), usize::MAX.to_string());
}

#[test]
fn parse_accepts_what_from_str_accepts() {
    assert_eq!(parse_usize_chars(&chars("42")), Some(42));
    assert_eq!(parse_usize_chars(&chars("+5")), Some(5));
    assert_eq!(parse_usize_chars(&chars("007")), Some(7));
    assert_eq!(parse_usize_chars(&chars(&usize::MAX.to_string())), Some(usize::MAX));
}

#[test]
fn parse_rejects_what_from_str_rejects() {
    for s in ["", "+", "-", "-1", "1a", " 1", "++1", "1.0", "١"] {
        assert_eq!(parse_usize_chars(&chars(s)), None, "{s:?}");
        assert!(s.parse::<usize>().is_err(), "{s:?}");
    }
    let too_big = format!("{}0", usize::MAX);
    assert_eq!(parse_usize_chars(&chars(&too_big)), None);
}

#[test]
fn parse_agrees_with_from_str() {
    for s in ["0", "+0", "99", "+099", "123456789", "18446744073709551615", "18446744073709551616"] {
        assert_eq!(parse_usize_chars(&chars(s)), s.parse::<usize>().ok(), "{s:?}");
    }
}

#[test]
fn trim_removes_unicode_whitespace() {
    assert_eq!(trim_chars(&chars(" \t12\n")), chars("12"));
    assert_eq!(trim_chars(&chars("\u{a0}5\u{3000}")), chars("5"));
    assert_eq!(trim_chars(&chars("  ")), chars(""));
    assert_eq!(trim_chars(&chars("a b")), chars("a b"));
    for s in ["\u{85}x\u{2028}", "\u{1680}\u{2000}y\u{200a}", "\u{b}z\u{c}"] {
        assert_eq!(trim_chars(&chars(s)), chars(s.trim()));
    }
}

#[test]
fn white_space_agrees_with_char() {
    for c in ['\t', '\n', ' ', '\u{85}', '\u{a0}', '\u{1680}', '\u{2000}', '\u{202f}', '\u{205f}',
        '\u{3000}', 'a', '0', '\u{200b}', '\u{feff}']
    {
        assert_eq!(white_space(c), c.is_whitespace(), "{c:?}");
    }
}

#[test]
fn separator_splits_like_rsplit() {
    for s in ["input3::capslock", "a:::b", "x", "x:", "::", "tpacpi::kbd_backlight", "a::b::c", ""] {
        let expected = s.rsplit("::").next().unwrap_or(s);
        assert_eq!(after_last_separator_chars(&chars(s)), chars(expected), "{s:?}");
    }
}

#[test]
fn contains_finds_substrings() {
    assert!(contains_chars(&chars("intel_backlight"), &chars("back")));
    assert!(contains_chars(&chars("intel_backlight"), &chars("")));
    assert!(!contains_chars(&chars("intel"), &chars("intel_backlight")));
    assert!(!contains_chars(&chars("acpi_video0"), &chars("intel")));
}

#[test]
fn order_is_the_order_of_strings() {
    let words = ["", "a", "ab", "b", "B", "acpi_video0", "intel_backlight", "ä", "z"];
    for x in words {
        for y in words {
            assert_eq!(chars_le_exec(&chars(x), &chars(y)), x <= y, "{x:?} {y:?}");
        }
    }
}

#[test]
fn chars_round_trip() {
    let s = "grüße";
    assert_eq!(chars_of(s), chars(s));
    assert_eq!(string_of(&chars(s)), s);
    assert!(chars_eq(&chars(s), &chars(s)));
    assert!(!chars_eq(&chars(s), &chars("gruesse")));
}

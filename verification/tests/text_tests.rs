use volta_wave::text::{decimal_string, find_first, is_white_space_char, lines, to_chars, trim};

#[test]
fn trim_strips_unicode_whitespace() {
    assert_eq!(trim("  hello world \t\n"), "hello world");
    assert_eq!(trim("\u{3000}lyric\u{a0}"), "lyric");
    assert_eq!(trim("   "), "");
    assert_eq!(trim(""), "");
    assert_eq!(trim("x"), "x");
}

#[test]
fn whitespace_matches_std() {
    for c in ['\t', '\n', ' ', '\u{85}', '\u{a0}', '\u{1680}', '\u{2000}', '\u{200a}', '\u{2028}', '\u{202f}', '\u{205f}', '\u{3000}', 'a', '0', '\u{200b}', '\u{180e}'] {
        assert_eq!(is_white_space_char(c), c.is_whitespace(), "{:?}", c);
    }
}

#[test]
fn lines_matches_std_lines() {
    for s in ["", "a", "a\n", "a\nb", "a\r\nb\r\n", "a\rb", "\n\n", "x\r", "one\n\ntwo\r\n\r\n"] {
        let expected: Vec<String> = s.lines().map(|l| l.to_string()).collect();
        assert_eq!(lines(s), expected, "{:?}", s);
    }
}

#[test]
fn find_first_gives_first_occurrence() {
    let h = to_chars("a - b - c");
    let p = to_chars(" - ");
    assert_eq!(find_first(&h, &p), Some(1));
    assert_eq!(find_first(&to_chars("abc"), &p), None);
    assert_eq!(find_first(&to_chars("abc"), &to_chars("")), Some(0));
}

#[test]
fn decimal_numerals() {
    assert_eq!(decimal_string(0), "0");
    assert_eq!(decimal_string(7), "7");
    assert_eq!(decimal_string(1234567890), "1234567890");
    assert_eq!(decimal_string(u64::MAX), u64::MAX.to_string());
}

use bonsai_local::text::{
    ascii_digit, chars_of, joined, range_contains, range_ends_with, range_equals,
    range_starts_with, ranges_equal, scan_backward, scan_forward, trim_range, whitespace,
    without_trailing, CharClass,
};

#[test]
fn whitespace_is_the_unicode_property() {
    for code in 0..=0x10ffffu32 {
        if let Some(c) = char::from_u32(code) {
            assert_eq!(whitespace(c), c.is_whitespace(), "U+{code:04X}");
            assert_eq!(ascii_digit(c), c.is_ascii_digit(), "U+{code:04X}");
        }
    }
}

#[test]
fn char_classes() {
    assert!(CharClass::Whitespace.test('\t'));
    assert!(!CharClass::Whitespace.test('x'));
    assert!(CharClass::NonWhitespace.test('x'));
    assert!(!CharClass::NonWhitespace.test('\u{3000}'));
    assert!(CharClass::Only('/').test('/'));
    assert!(!CharClass::Only('/').test('\\'));
    assert!(CharClass::Except(',').test(';'));
    assert!(!CharClass::Except(',').test(','));
}

#[test]
fn chars_of_counts_characters_not_bytes() {
    assert_eq!(chars_of(""), Vec::<char>::new());
    assert_eq!(chars_of("aé漢"), vec!['a', 'é', '漢']);
}

#[test]
fn scans_stop_at_the_first_character_outside_the_class() {
    let v = chars_of("  ab  ");
    assert_eq!(scan_forward(&v, 0, 6, CharClass::Whitespace), 2);
    assert_eq!(scan_forward(&v, 0, 1, CharClass::Whitespace), 1);
    assert_eq!(scan_forward(&v, 2, 6, CharClass::Whitespace), 2);
    assert_eq!(scan_forward(&v, 2, 6, CharClass::NonWhitespace), 4);
    assert_eq!(scan_forward(&v, 3, 3, CharClass::NonWhitespace), 3);
    assert_eq!(scan_backward(&v, 0, 6, CharClass::Whitespace), 4);
    assert_eq!(scan_backward(&v, 5, 6, CharClass::Whitespace), 5);
    assert_eq!(scan_backward(&v, 0, 4, CharClass::Whitespace), 4);
    assert_eq!(scan_backward(&v, 0, 2, CharClass::Whitespace), 0);
    assert_eq!(scan_forward(&v, 0, 6, CharClass::Except('b')), 3);
    assert_eq!(scan_forward(&v, 0, 6, CharClass::Except('z')), 6);
}

#[test]
fn trim_range_agrees_with_trim() {
    for text in ["", " ", "a", "  a b\t", "\u{a0}x y\u{2028}", "\n\n", "ab", " \u{200b} "] {
        let v = chars_of(text);
        let (from, to) = trim_range(&v, 0, v.len(), CharClass::Whitespace);
        let got: String = v[from..to].iter().collect();
        assert_eq!(got, text.trim(), "{text:?}");
    }
    for text in ["", "\"", "\"\"", "\"a\"", "a\"", "\"\"a\"b\"\"", "\"\"\""] {
        let v = chars_of(text);
        let (from, to) = trim_range(&v, 0, v.len(), CharClass::Only('"'));
        let got: String = v[from..to].iter().collect();
        assert_eq!(got, text.trim_matches('"'), "{text:?}");
    }
}

#[test]
fn range_comparisons() {
    let v = chars_of("proto=https");
    let key = chars_of("proto=");
    assert!(range_starts_with(&v, 0, v.len(), &key));
    assert!(!range_starts_with(&v, 1, v.len(), &key));
    assert!(!range_starts_with(&v, 0, 5, &key));
    assert!(range_starts_with(&v, 3, 3, &chars_of("")));
    assert!(range_ends_with(&v, 0, v.len(), &chars_of("https")));
    assert!(!range_ends_with(&v, 0, v.len() - 1, &chars_of("https")));
    assert!(!range_ends_with(&v, 8, v.len(), &chars_of("https")));
    assert!(range_equals(&v, 6, 11, &chars_of("https")));
    assert!(!range_equals(&v, 6, 10, &chars_of("https")));
    assert!(!range_equals(&v, 5, 11, &chars_of("https")));
    assert!(ranges_equal(&v, 0, 2, &chars_of("xprx"), 1, 3));
    assert!(!ranges_equal(&v, 0, 2, &chars_of("xprx"), 1, 4));
    assert!(!ranges_equal(&v, 0, 2, &chars_of("xprx"), 0, 2));
    assert!(ranges_equal(&v, 4, 4, &chars_of(""), 0, 0));
    assert!(range_contains(&v, 0, v.len(), '='));
    assert!(!range_contains(&v, 6, v.len(), '='));
    assert!(!range_contains(&v, 0, 5, '='));
}

#[test]
fn without_trailing_agrees_with_trim_end_matches() {
    for text in ["", "/", "//", "a/", "/a", "a//b//", "http://x/"] {
        assert_eq!(without_trailing(text, '/'), text.trim_end_matches('/'), "{text:?}");
    }
}

#[test]
fn concat_joins() {
    assert_eq!(joined("", ""), "");
    assert_eq!(joined("ab", "cd"), "abcd");
}

use kazi::text::{char_is_whitespace, chars_of, decimal_string, find_seq, string_from_range, trimmed};

#[test]
fn every_unicode_white_space_is_trimmed() {
    for c in [' ', '\t', '\n', '\u{b}', '\u{c}', '\r', '\u{85}', '\u{a0}', '\u{1680}', '\u{2000}', '\u{200a}', '\u{2028}', '\u{2029}', '\u{202f}', '\u{205f}', '\u{3000}'] {
        let v = chars_of(&format!("{c}x{c}"));
        assert_eq!(trimmed(&v, 0, v.len()), "x");
    }
    for c in ['a', '-', '\u{180e}', '\u{200b}', '越'] {
        let v = chars_of(&format!("{c}x{c}"));
        assert_eq!(trimmed(&v, 0, v.len()), format!("{c}x{c}"));
    }
}

#[test]
fn slicing() {
    let v = chars_of("héllo");
    assert_eq!(v, vec!['h', 'é', 'l', 'l', 'o']);
    assert_eq!(string_from_range(&v, 1, 3), "él");
    assert_eq!(string_from_range(&v, 2, 2), "");
}

#[test]
fn trimming() {
    let v = chars_of("  \t a b \n ");
    assert_eq!(trimmed(&v, 0, v.len()), "a b");
    assert_eq!(trimmed(&v, 0, 3), "");
}

#[test]
fn searching() {
    let s = chars_of("ab\n---cd\n---");
    let p = chars_of("\n---");
    assert_eq!(find_seq(&s, &p, 0), Some(2));
    assert_eq!(find_seq(&s, &p, 3), Some(8));
    assert_eq!(find_seq(&s, &p, 9), None);
    assert_eq!(find_seq(&s, &chars_of("zz"), 0), None);
}

#[test]
fn decimal_numerals() {
    assert_eq!(decimal_string(0), "0");
    assert_eq!(decimal_string(7), "7");
    assert_eq!(decimal_string(10), "10");
    assert_eq!(decimal_string(1203), "1203");
    assert_eq!(decimal_string(usize::MAX), usize::MAX.to_string());
}

#[test]
fn white_space_class() {
    for c in [' ', '\t', '\n', '\r', '\u{85}', '\u{a0}', '\u{2000}', '\u{3000}'] {
        assert!(char_is_whitespace(c));
        assert_eq!(char_is_whitespace(c), c.is_whitespace());
    }
    for c in ['a', '-', '\u{180e}', '\u{200b}', '\u{10ffff}'] {
        assert!(!char_is_whitespace(c));
    }
    for u in 0u32..0x4000 {
        if let Some(c) = char::from_u32(u) {
            assert_eq!(char_is_whitespace(c), c.is_whitespace(), "{:x}", u);
        }
    }
}

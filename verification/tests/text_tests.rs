use ibmcloud_mcp_server::text::{chars_of, i32_to_decimal, is_blank, is_white_space_char, str_eq, trim, u64_to_decimal};

#[test]
fn trim_removes_unicode_whitespace_at_both_ends() {
    assert_eq!(trim(" \t a b \n"), "a b");
    assert_eq!(trim("\u{3000}x\u{a0}\u{2028}"), "x");
    assert_eq!(trim(""), "");
    assert_eq!(trim("   "), "");
    assert_eq!(trim("inner  space"), "inner  space");
    for s in [" a ", "\u{85}b\u{205f}", "ü x ü", "\r\n", "x\u{200b}"] {
        assert_eq!(trim(s), s.trim());
    }
}

#[test]
fn trim_is_idempotent() {
    for s in [" a ", "\n\tb c\u{3000}", "", "  "] {
        let once = trim(s);
        assert_eq!(trim(&once), once);
    }
}

#[test]
fn whitespace_matches_std() {
    for c in ['\t', '\n', '\u{b}', '\u{c}', '\r', ' ', '\u{85}', '\u{a0}', '\u{1680}', '\u{2000}', '\u{200a}', '\u{2028}', '\u{2029}', '\u{202f}', '\u{205f}', '\u{3000}', 'a', '0', '\u{200b}', '\u{180e}', '\u{feff}'] {
        assert_eq!(is_white_space_char(c), c.is_whitespace(), "{:?}", c);
    }
}

#[test]
fn blank_lines() {
    assert!(is_blank(""));
    assert!(is_blank(" \t\r"));
    assert!(!is_blank(" {} "));
}

#[test]
fn decimal_rendering() {
    assert_eq!(u64_to_decimal(0), "0");
    assert_eq!(u64_to_decimal(7), "7");
    assert_eq!(u64_to_decimal(10), "10");
    assert_eq!(u64_to_decimal(1234567890), "1234567890");
    assert_eq!(u64_to_decimal(u64::MAX), u64::MAX.to_string());
    assert_eq!(i32_to_decimal(-1), "-1");
    assert_eq!(i32_to_decimal(0), "0");
    assert_eq!(i32_to_decimal(127), "127");
    assert_eq!(i32_to_decimal(i32::MIN), i32::MIN.to_string());
    assert_eq!(i32_to_decimal(i32::MAX), i32::MAX.to_string());
}

#[test]
fn decimal_round_trips() {
    for n in [0u64, 1, 9, 10, 99, 100, 65535, 4294967296, u64::MAX] {
        assert_eq!(u64_to_decimal(n).parse::<u64>().unwrap(), n);
    }
}

#[test]
fn string_helpers() {
    assert!(str_eq("abc", "abc"));
    assert!(!str_eq("abc", "abd"));
    assert!(!str_eq("ab", "abc"));
    assert_eq!(chars_of("añb"), vec!['a', 'ñ', 'b']);
}

use pointify::text::{
    ascii_lowercase, decimal, ends_with, find_char, is_whitespace, owned, starts_with, str_eq,
    trim,
};

#[test]
fn trims_unicode_whitespace() {
    assert_eq!(trim("  a b \t\n"), "a b");
    assert_eq!(trim("\u{3000}x\u{a0}"), "x");
    assert_eq!(trim("   "), "");
    for c in [' ', '\t', '\n', '\r', '\u{85}', '\u{2028}', '\u{3000}'] {
        assert_eq!(is_whitespace(c), c.is_whitespace());
    }
    assert!(!is_whitespace('x'));
}

#[test]
fn ascii_lowercase_leaves_other_characters() {
    assert_eq!(ascii_lowercase("AbC-É"), "abc-É");
    assert_eq!(ascii_lowercase("TEAM"), "team");
}

#[test]
fn prefix_suffix_and_search() {
    assert!(starts_with("pointify-firmware-1.elf", "pointify-firmware-"));
    assert!(!starts_with("po", "pointify"));
    assert!(ends_with("a.elf", ".elf"));
    assert!(!ends_with("a.elx", ".elf"));
    assert_eq!(find_char("a.b.c", '.'), Some(1));
    assert_eq!(find_char("abc", '.'), None);
    assert!(str_eq("abc", "abc"));
    assert!(!str_eq("abc", "abd"));
    assert_eq!(owned("x"), "x");
}

#[test]
fn decimal_rendering() {
    assert_eq!(decimal(0), "0");
    assert_eq!(decimal(9), "9");
    assert_eq!(decimal(1234567890123), "1234567890123");
    assert_eq!(decimal(u128::MAX), u128::MAX.to_string());
}

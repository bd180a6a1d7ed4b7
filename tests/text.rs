use campus_api::text::{contains, find, parse_i32, replace_all, strip_prefix, strip_suffix, trim, trim_end, trim_start};

#[test]
fn trimming_unicode_space() {
    assert_eq!(trim_start("\u{a0}\t x "), "x ");
    assert_eq!(trim_end(" x\u{3000}\n"), " x");
    assert_eq!(trim("  \u{2003}a b\r\n"), "a b");
    assert_eq!(trim(""), "");
}

#[test]
fn searching() {
    assert_eq!(find("Prüfungstermin: 12", "termin"), Some(8));
    assert_eq!(find("abc", "abcd"), None);
    assert!(contains("/images/green.png", "green.png"));
    assert!(!contains("/images/red.png", "green.png"));
    assert_eq!(strip_prefix(", SR 1", ", "), Some("SR 1".to_string()));
    assert_eq!(strip_suffix("ab, Prüfungstermin: ", ", Prüfungstermin: "), Some("ab".to_string()));
    assert_eq!(strip_suffix("ab", "abc"), None);
}

#[test]
fn replacing() {
    assert_eq!(replace_all("a<br>b<br>", "<br>", " "), "a b ");
    assert_eq!(replace_all("aaa", "aa", "b"), "ba");
    assert_eq!(replace_all("x", "", "y"), "x");
}

#[test]
fn integers() {
    assert_eq!(parse_i32("42"), Some(42));
    assert_eq!(parse_i32("+7"), Some(7));
    assert_eq!(parse_i32("-2147483648"), Some(i32::MIN));
    assert_eq!(parse_i32("2147483648"), None);
    assert_eq!(parse_i32("99999999999999999999"), None);
    assert_eq!(parse_i32(""), None);
    assert_eq!(parse_i32("-"), None);
    assert_eq!(parse_i32("4 "), None);
}

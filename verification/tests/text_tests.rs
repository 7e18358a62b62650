use astral_auto_patcher::text::{
    contains, decimal_string, ends_with, eq_ignore_ascii_case, join, starts_with, to_ascii_lowercase,
    to_ascii_uppercase, trim,
};

#[test]
fn trim_matches_str_trim() {
    for s in ["", "  a b  ", "\u{a0}x\u{3000}", "\t\n\r", "\u{200b}y"] {
        assert_eq!(trim(s), s.trim());
    }
}

#[test]
fn ascii_case() {
    assert_eq!(to_ascii_uppercase("abcÄz_1"), "ABCÄZ_1");
    assert_eq!(to_ascii_lowercase("ABCÄZ_1"), "abcÄz_1");
    assert!(eq_ignore_ascii_case("AssetBundles", "ASSETBUNDLES"));
    assert!(!eq_ignore_ascii_case("ä", "Ä"));
}

#[test]
fn patterns() {
    assert!(starts_with("astral://x", "astral://"));
    assert!(!starts_with("astral:", "astral://"));
    assert!(ends_with("a.ZIP", ".ZIP"));
    assert!(contains("A-INT_STEAM-B", "-INT_STEAM-"));
    assert!(contains("abc", ""));
    assert!(!contains("ab", "abc"));
}

#[test]
fn decimals_and_joins() {
    assert_eq!(decimal_string(0), "0");
    assert_eq!(decimal_string(10), "10");
    assert_eq!(decimal_string(u64::MAX), u64::MAX.to_string());
    assert_eq!(join(&vec!["a".to_string(), "b".to_string()], ", "), "a, b");
    assert_eq!(join(&Vec::new(), ", "), "");
}

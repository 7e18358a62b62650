use astral_auto_patcher::semver::{is_semver_newer, normalize_semver, parse_semver_tuple};

#[test]
fn normalize_strips_prefix_and_suffix() {
    assert_eq!(normalize_semver("v2.1.0"), "2.1.0");
    assert_eq!(normalize_semver("V2.1.0-pre"), "2.1.0");
    assert_eq!(normalize_semver("vvV1.0-a-b"), "1.0");
    assert_eq!(normalize_semver("Vv1"), "v1");
    assert_eq!(normalize_semver(""), "");
}

#[test]
fn tuple_defaults_and_extra_components() {
    assert_eq!(parse_semver_tuple("2"), Some((2, 0, 0)));
    assert_eq!(parse_semver_tuple("2.5"), Some((2, 5, 0)));
    assert_eq!(parse_semver_tuple("1.2.3.4"), Some((1, 2, 3)));
    assert_eq!(parse_semver_tuple("+1.+2.3"), Some((1, 2, 3)));
    assert_eq!(parse_semver_tuple("18446744073709551615.0.0"), Some((u64::MAX, 0, 0)));
}

#[test]
fn tuple_refuses_non_numbers() {
    assert_eq!(parse_semver_tuple(""), None);
    assert_eq!(parse_semver_tuple("1..2"), None);
    assert_eq!(parse_semver_tuple("1.x"), None);
    assert_eq!(parse_semver_tuple("-1.0.0"), None);
    assert_eq!(parse_semver_tuple("+"), None);
    assert_eq!(parse_semver_tuple("18446744073709551616"), None);
    assert_eq!(parse_semver_tuple("1.0.\u{661}"), None);
}

#[test]
fn newer_compares_lexicographically() {
    assert!(is_semver_newer("2.0.1", "2.0.0"));
    assert!(is_semver_newer("2.1", "2.0.9"));
    assert!(is_semver_newer("10.0.0", "9.9.9"));
    assert!(!is_semver_newer("2.0.0", "2.0"));
    assert!(!is_semver_newer("1.9.9", "2.0.0"));
    assert!(!is_semver_newer("x", "1.0.0"));
    assert!(!is_semver_newer("3.0.0", "bad"));
}

#[test]
fn newer_is_a_strict_order() {
    let vs = ["1.0.0", "1.0.1", "1.1", "2", "2.0.0", "bad"];
    for a in vs {
        assert!(!is_semver_newer(a, a));
        for b in vs {
            if is_semver_newer(a, b) {
                assert!(!is_semver_newer(b, a));
            }
            for c in vs {
                if is_semver_newer(a, b) && is_semver_newer(b, c) {
                    assert!(is_semver_newer(a, c));
                }
            }
        }
    }
}

#[test]
fn normalized_versions_have_no_dash() {
    for v in ["v1-2-3", "2.0.0-pre", "-x", "V-"] {
        assert!(!normalize_semver(v).contains('-'));
    }
}

#[test]
fn rendered_versions_parse_back() {
    for (a, b, c) in [(0u64, 0u64, 0u64), (1, 2, 3), (10, 0, 7), (u64::MAX, 42, u64::MAX)] {
        assert_eq!(parse_semver_tuple(&format!("{a}.{b}.{c}")), Some((a, b, c)));
    }
}

#[test]
fn omitted_zero_parts_are_not_newer() {
    assert!(!is_semver_newer("2.0", "2.0.0"));
    assert!(!is_semver_newer("2.0.0", "2.0"));
    assert!(!is_semver_newer("2", "2.0.0"));
    assert!(!is_semver_newer("2.0.0", "2"));
}

#[test]
fn unparsable_versions_are_never_newer() {
    assert!(!is_semver_newer("latest", "1.0.0"));
    assert!(!is_semver_newer("1.0.0", "latest"));
    assert!(!is_semver_newer("2.0.0-pre", "1.0.0"));
    assert!(!is_semver_newer("1.0.0", "2.0.0-pre"));
}

#[test]
fn rendered_versions_compare_by_their_numbers() {
    assert!(is_semver_newer(&format!("{}.{}.{}", 3, 0, 0), &format!("{}.{}.{}", 2, 9, 9)));
    assert!(!is_semver_newer(&format!("{}.{}.{}", 2, 9, 9), &format!("{}.{}.{}", 3, 0, 0)));
    assert!(is_semver_newer("1.10.0", "1.9.0"));
}

use astral_auto_patcher::error::PatcherError;
use astral_auto_patcher::target::{
    check_patch_target, is_supported_patch_target, resolve_patch_target, resolve_rules_api,
};

#[test]
fn supported_targets_are_the_two_editions() {
    assert!(is_supported_patch_target("INT_STEAM"));
    assert!(is_supported_patch_target("CN_BILIBILI"));
    assert!(!is_supported_patch_target("int_steam"));
    assert!(!is_supported_patch_target(""));
}

#[test]
fn resolve_trims_and_upper_cases() {
    assert_eq!(resolve_patch_target(Some("  int_steam \n")).ok(), Some("INT_STEAM".to_string()));
    assert_eq!(resolve_patch_target(Some("Cn_Bilibili")).ok(), Some("CN_BILIBILI".to_string()));
}

#[test]
fn resolve_uses_unicode_upper_casing() {
    // U+0131 (dotless i) upper-cases to an ASCII 'I'
    assert_eq!(resolve_patch_target(Some("\u{131}nt_steam")).ok(), Some("INT_STEAM".to_string()));
}

#[test]
fn resolve_is_idempotent_on_success() {
    let first = resolve_patch_target(Some(" cn_bilibili ")).ok().unwrap();
    let second = resolve_patch_target(Some(first.as_str())).ok().unwrap();
    assert_eq!(first, second);
}

#[test]
fn resolve_refuses_blank_targets() {
    assert!(matches!(resolve_patch_target(None), Err(PatcherError::EmptyPatchTarget)));
    assert!(matches!(resolve_patch_target(Some("   ")), Err(PatcherError::EmptyPatchTarget)));
    assert!(matches!(resolve_patch_target(Some("\u{3000}\t")), Err(PatcherError::EmptyPatchTarget)));
}

#[test]
fn resolve_refuses_unknown_targets_with_upper_cased_name() {
    match resolve_patch_target(Some(" steam_cn ")) {
        Err(PatcherError::UnsupportedPatchTarget(t)) => assert_eq!(t, "STEAM_CN"),
        _ => panic!("expected an unsupported target"),
    }
}

#[test]
fn unsupported_target_message() {
    let e = resolve_patch_target(Some("x")).err().unwrap();
    assert_eq!(e.message(), "지원하지 않는 패치 대상입니다.\nX\n지원 대상: INT_STEAM, CN_BILIBILI");
    let blank = resolve_patch_target(None).err().unwrap();
    assert_eq!(
        blank.message(),
        "패치 실행 대상이 비어 있습니다.\n지원 형식: astral://patch/<TARGET>\nTARGET: INT_STEAM, CN_BILIBILI"
    );
}

#[test]
fn check_patch_target_keeps_supported_text() {
    assert_eq!(check_patch_target("INT_STEAM".to_string()).ok(), Some("INT_STEAM".to_string()));
    assert!(matches!(
        check_patch_target("INT_STEAMX".to_string()),
        Err(PatcherError::UnsupportedPatchTarget(_))
    ));
}

#[test]
fn rules_api_per_target() {
    assert_eq!(
        resolve_rules_api("INT_STEAM").ok(),
        Some("https://raw.githubusercontent.com/maynut02/astralparty-korean-patch/refs/heads/main/src/astral_patch/patch/rules/int_steam.json")
    );
    assert_eq!(
        resolve_rules_api("CN_BILIBILI").ok(),
        Some("https://raw.githubusercontent.com/maynut02/astralparty-korean-patch/refs/heads/main/src/astral_patch/patch/rules/cn_bilibili.json")
    );
    let e = resolve_rules_api("OTHER").err().unwrap();
    assert_eq!(e.message(), "현재 지원하지 않는 대상입니다.\nOTHER");
}

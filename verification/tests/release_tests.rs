use astral_auto_patcher::error::PatcherError;
use astral_auto_patcher::release::{
    plan_self_update, prepared_patch_detail, select_patch_asset, GithubAsset, GithubRelease, SelfUpdateDecision,
};

fn release(tag: &str, names: &[&str]) -> GithubRelease {
    GithubRelease {
        tag_name: tag.to_string(),
        assets: names
            .iter()
            .map(|n| GithubAsset { name: n.to_string(), browser_download_url: format!("https://dl/{n}") })
            .collect(),
    }
}

#[test]
fn patch_asset_for_target() {
    let r = release(
        "1.2.0",
        &["astralparty-korean-patch-CN_BILIBILI-1.2.0.zip", "AstralParty-Korean-Patch-int_steam-1.2.0.ZIP", "x.zip"],
    );
    assert_eq!(select_patch_asset(&r, "INT_STEAM").ok(), Some(1));
    assert_eq!(select_patch_asset(&r, "cn_bilibili").ok(), Some(0));
    let e = select_patch_asset(&r, "OTHER").err().unwrap();
    assert!(matches!(e, PatcherError::PatchAssetNotFound(_)));
    assert_eq!(e.message(), "OTHER에 해당하는 패치 ZIP 에셋을 찾지 못했습니다.");
}

#[test]
fn self_update_only_for_newer_release() {
    let r = release("v2.0.0", &["AstralAutoPatcher.exe"]);
    assert!(matches!(plan_self_update(&r, "2.0.0", &None), SelfUpdateDecision::UpToDate));
    let newer = release("v2.1.0-pre", &["Setup-AstralAutoPatcher.exe", "notes.txt", "AstralAutoPatcher.exe"]);
    match plan_self_update(&newer, "2.0.0", &None) {
        SelfUpdateDecision::Update { latest_version, asset_index } => {
            assert_eq!(latest_version, "2.1.0");
            assert_eq!(asset_index, 2);
        }
        _ => panic!("expected an update"),
    }
}

#[test]
fn self_update_prefers_the_running_name() {
    let r = release("3.0.0", &["AstralAutoPatcher.exe", "renamed.EXE"]);
    match plan_self_update(&r, "2.0.0", &Some("RENAMED.exe".to_string())) {
        SelfUpdateDecision::Update { asset_index, .. } => assert_eq!(asset_index, 1),
        _ => panic!("expected an update"),
    }
    assert!(matches!(
        plan_self_update(&r, "2.0.0", &Some("other.exe".to_string())),
        SelfUpdateDecision::NoExecutableAsset
    ));
}

#[test]
fn prepared_detail_warns_on_pre_release() {
    assert_eq!(prepared_patch_detail("1.0.0", "a.zip"), "[버전] 1.0.0\n[파일] a.zip");
    assert_eq!(
        prepared_patch_detail("1.0.0-pre", "a.zip"),
        "[버전] 1.0.0-pre\n[파일] a.zip\n⚠ Pre-release 버전에서는 일부 번역되지 않은 요소가 존재할 수 있습니다."
    );
}

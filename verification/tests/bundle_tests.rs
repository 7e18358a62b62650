use astral_auto_patcher::bundle::{apply_patch_bundle, copy_failure_message, DirEntry, DirSearch, SearchStep};
use astral_auto_patcher::error::PatcherError;

fn entry(path: &str, name: &str) -> DirEntry {
    DirEntry { path: path.to_string(), file_name: Some(name.to_string()) }
}

#[test]
fn search_is_depth_first_last_added_first() {
    let mut s = DirSearch::new("assetbundles", entry("/r", "r"), true);
    match s.next() {
        SearchStep::Explore(p) => assert_eq!(p, "/r"),
        _ => panic!(),
    }
    s.push_subdirectories(vec![entry("/r/a", "a"), entry("/r/b", "b")]);
    match s.next() {
        SearchStep::Explore(p) => assert_eq!(p, "/r/b"),
        _ => panic!(),
    }
    s.push_subdirectories(vec![entry("/r/b/AssetBundles", "AssetBundles")]);
    match s.next() {
        SearchStep::Found(p) => assert_eq!(p, "/r/b/AssetBundles"),
        _ => panic!(),
    }
    match s.next() {
        SearchStep::Explore(p) => assert_eq!(p, "/r/a"),
        _ => panic!(),
    }
    assert!(matches!(s.next(), SearchStep::Exhausted));
}

#[test]
fn search_of_missing_root_is_exhausted() {
    let mut s = DirSearch::new("x", entry("/x", "x"), false);
    assert!(matches!(s.next(), SearchStep::Exhausted));
    let mut t = DirSearch::new("x", DirEntry { path: "/".to_string(), file_name: None }, true);
    assert!(matches!(t.next(), SearchStep::Explore(_)));
}

#[test]
fn bundle_plan_and_errors() {
    let plan = apply_patch_bundle(
        "INT_STEAM",
        "X",
        Some("X/AssetBundles".to_string()),
        Some("X/StandaloneWindows64".to_string()),
        "G",
        "L",
    )
    .ok()
    .unwrap();
    assert_eq!(plan.copies.len(), 2);
    assert_eq!((plan.copies[0].source.as_str(), plan.copies[0].target.as_str()), ("X/AssetBundles", "L"));
    assert_eq!((plan.copies[1].source.as_str(), plan.copies[1].target.as_str()), ("X/StandaloneWindows64", "G"));
    assert_eq!(plan.detail, "[AssetBundles]\nL\n[StandaloneWindows64]\nG");
    let e = apply_patch_bundle("INT_STEAM", "X", None, None, "G", "L").err().unwrap();
    assert_eq!(e.message(), "압축 해제 결과에서 AssetBundles 폴더를 찾지 못했습니다.\nX");
    let e2 = apply_patch_bundle("INT_STEAM", "X", Some("a".to_string()), None, "G", "L").err().unwrap();
    assert_eq!(e2.message(), "압축 해제 결과에서 StandaloneWindows64 폴더를 찾지 못했습니다.\nX");
    let e3 = apply_patch_bundle("KR", "X", Some("a".to_string()), Some("b".to_string()), "G", "L").err().unwrap();
    assert!(matches!(e3, PatcherError::UnsupportedTarget(_)));
}

#[test]
fn copy_failure_messages() {
    assert_eq!(copy_failure_message("a", "b", false, true), "파일 복사에 실패했습니다.\na -> b");
    assert_eq!(
        copy_failure_message("a", "b", true, true),
        "파일 복사에 실패했습니다.\na -> b\n[확인] 게임과 런처를 완전히 종료한 뒤 다시 시도하세요.\n[권한] Program Files 아래 경로는 관리자 권한이 필요할 수 있습니다."
    );
}

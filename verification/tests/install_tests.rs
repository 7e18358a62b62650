use astral_auto_patcher::removal::DeletionOutcome;
use astral_auto_patcher::install::{
    already_installed_detail, cleanup_legacy_v1_artifacts, deferred_delete_script, installed_detail,
    protocol_command, protocol_icon, protocol_registration_detail, resume_args, sort_legacy_outcomes,
    source_cleanup_note,
    FailedRemoval, LegacyExeCleanup, LegacyRegistryCleanup, SourceCleanup,
};

#[test]
fn relaunch_arguments() {
    assert_eq!(resume_args(Some("CN_BILIBILI")), vec!["--resume-patch".to_string(), "CN_BILIBILI".to_string()]);
    assert_eq!(resume_args(None), vec!["--resume-install".to_string()]);
}

#[test]
fn protocol_registration_texts() {
    let c = protocol_command("C:\\P\\a.exe");
    assert_eq!(c, "\"C:\\P\\a.exe\" \"%1\"");
    assert_eq!(protocol_icon("C:\\P\\a.exe"), "\"C:\\P\\a.exe\",1");
    assert_eq!(protocol_registration_detail(&c), "[HKCU\\Software\\Classes\\astral]\n\"C:\\P\\a.exe\" \"%1\"");
}

#[test]
fn deferred_delete_escapes_quotes() {
    assert_eq!(
        deferred_delete_script("C:\\a\"b.exe"),
        "$p=\"C:\\a`\"b.exe\"; for($i=0; $i -lt 600; $i++) { try { Remove-Item -LiteralPath $p -Force -ErrorAction Stop; break } catch { Start-Sleep -Milliseconds 500 } }"
    );
}

#[test]
fn cleanup_notes_and_details() {
    assert_eq!(source_cleanup_note(SourceCleanup::Scheduled), "");
    assert_eq!(source_cleanup_note(SourceCleanup::AlreadyGone), "원본 실행 파일이 이미 없어 정리할 파일이 없습니다.");
    assert_eq!(already_installed_detail("C:\\P"), "프로그램이 이미 설치 경로에서 실행 중입니다.\nC:\\P");
    assert_eq!(installed_detail("C:\\P\\a.exe", "n", false), "C:\\P\\a.exe\nn");
    assert_eq!(
        installed_detail("C:\\P\\a.exe", "n", true),
        "프로그램을 최신 버전으로 업데이트했습니다.\nC:\\P\\a.exe\nn"
    );
}

#[test]
fn legacy_cleanup_report() {
    let exes = LegacyExeCleanup::Searched {
        removed: vec!["A".to_string()],
        not_found: Vec::new(),
        failed: vec![FailedRemoval { path: "B".to_string(), error: "denied".to_string() }],
    };
    assert_eq!(
        cleanup_legacy_v1_artifacts(&exes, &LegacyRegistryCleanup::Absent),
        "[v1 실행 파일]\n삭제 완료 1개\n- A\n미존재 0개\n-\n삭제 실패 1개\n- B (denied)\n\n[HKEY_CLASSES_ROOT\\astral]\n대상이 없어 건너뜀"
    );
    assert_eq!(
        cleanup_legacy_v1_artifacts(
            &LegacyExeCleanup::SteamNotFound("no steam".to_string()),
            &LegacyRegistryCleanup::DeleteFailed("e".to_string())
        ),
        "[v1 실행 파일]\nSteam 경로를 찾지 못해 건너뜀\nno steam\n\n[HKEY_CLASSES_ROOT\\astral]\n삭제 실패\ne"
    );
}

#[test]
fn legacy_outcomes_are_sorted_path_by_path() {
    let paths: Vec<String> = ["C:\\a.exe", "D:\\b.exe", "E:\\c.exe", "F:\\d.exe"].iter().map(|s| s.to_string()).collect();
    let outcomes = vec![
        DeletionOutcome::Missing,
        DeletionOutcome::Removed,
        DeletionOutcome::Failed("denied".to_string()),
        DeletionOutcome::Removed,
    ];
    match sort_legacy_outcomes(&paths, &outcomes) {
        LegacyExeCleanup::Searched { removed, not_found, failed } => {
            assert_eq!(removed, vec!["D:\\b.exe".to_string(), "F:\\d.exe".to_string()]);
            assert_eq!(not_found, vec!["C:\\a.exe".to_string()]);
            assert_eq!(failed.len(), 1);
            assert_eq!(failed[0].path, "E:\\c.exe");
            assert_eq!(failed[0].error, "denied");
            assert_eq!(removed.len() + not_found.len() + failed.len(), paths.len());
        }
        LegacyExeCleanup::SteamNotFound(_) => panic!("the libraries were searched"),
    }
}

#[test]
fn legacy_outcomes_of_no_library_are_empty() {
    match sort_legacy_outcomes(&Vec::new(), &Vec::new()) {
        LegacyExeCleanup::Searched { removed, not_found, failed } => {
            assert!(removed.is_empty() && not_found.is_empty() && failed.is_empty());
        }
        LegacyExeCleanup::SteamNotFound(_) => panic!("the libraries were searched"),
    }
}

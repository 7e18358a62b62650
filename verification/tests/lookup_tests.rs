use astral_auto_patcher::error::PatcherError;
use astral_auto_patcher::lookup::{
    find_cn_bilibili_game_install_dir, find_game_install_dir, find_local_feimo_path, registry_path,
    require_existing_path,
};

#[test]
fn lookups_dispatch_on_target() {
    let r = find_game_install_dir("INT_STEAM", || Ok("steam".to_string()), || Ok("bili".to_string()));
    assert_eq!(r, Ok("steam".to_string()));
    let r = find_local_feimo_path("CN_BILIBILI", || Ok("steam".to_string()), || Err("bili".to_string()));
    assert_eq!(r, Err("bili".to_string()));
    let r = find_game_install_dir("X", || panic!(), || panic!());
    assert_eq!(r, Err("현재 지원하지 않는 대상입니다.\nX".to_string()));
}

#[test]
fn registry_paths_are_cleaned() {
    assert_eq!(registry_path("  \"C:\\Games\\Astral\"\0\0 "), "\"C:\\Games\\Astral\"\0\0".trim().trim_matches('\0').trim_matches('"'));
    assert_eq!(registry_path(" \"D:\\x\" "), "D:\\x");
    assert_eq!(registry_path("\0\"E:\\y\"\0"), "E:\\y");
}

#[test]
fn existing_paths() {
    assert_eq!(require_existing_path("p", true).ok(), Some("p".to_string()));
    let e = require_existing_path("p", false).err().unwrap();
    assert_eq!(e.message(), "경로가 존재하지 않습니다.\np");
}

#[test]
fn bilibili_game_dir_decisions() {
    let e = find_cn_bilibili_game_install_dir("R", false, "R\\D", true).err().unwrap();
    assert!(matches!(e, PatcherError::BilibiliGameRootMissing(_)));
    assert_eq!(e.message(), "레지스트리에 등록된 bilibili 게임 경로가 존재하지 않습니다.\nR");
    let e2 = find_cn_bilibili_game_install_dir("R", true, "R\\D", false).err().unwrap();
    assert_eq!(e2.message(), "bilibili Astral Party 설치 경로를 찾지 못했습니다.\n[확인] R\\D");
    assert_eq!(find_cn_bilibili_game_install_dir("R", true, "R\\D", true).ok(), Some("R\\D".to_string()));
}

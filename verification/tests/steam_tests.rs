use astral_auto_patcher::error::PatcherError;
use astral_auto_patcher::steam::{
    extract_vdf_quoted_values, find_int_steam_game_install_dir, find_steam_library_roots, library_root_key,
    lines_of, push_unique_library_root, vdf_path_in_line,
};

#[test]
fn quoted_values_of_a_vdf_line() {
    assert_eq!(
        extract_vdf_quoted_values("\t\t\"path\"\t\t\"D:\\\\SteamLibrary\""),
        vec!["path".to_string(), "D:\\\\SteamLibrary".to_string()]
    );
    assert_eq!(extract_vdf_quoted_values("\"a\" \"unterminated"), vec!["a".to_string()]);
    assert_eq!(extract_vdf_quoted_values("no quotes"), Vec::<String>::new());
    assert_eq!(extract_vdf_quoted_values("\"\""), vec!["".to_string()]);
}

#[test]
fn vdf_path_lines() {
    assert_eq!(vdf_path_in_line("\"PATH\" \"E:\\\\Games\\\\Steam\""), Some("E:\\Games\\Steam".to_string()));
    assert_eq!(vdf_path_in_line("\"label\" \"x\""), None);
    assert_eq!(vdf_path_in_line("\"path\" \"   \""), None);
    assert_eq!(vdf_path_in_line("\"path\""), None);
    assert_eq!(vdf_path_in_line("\"path\" \"a\\\\\\b\""), Some("a\\\\b".to_string()));
}

#[test]
fn lines_follow_str_lines() {
    for text in ["", "a", "a\n", "a\r\nb", "\n", "a\n\nb\r", "x\r\r\n"] {
        let expected: Vec<String> = text.lines().map(|l| l.to_string()).collect();
        assert_eq!(lines_of(text), expected, "{:?}", text);
    }
}

#[test]
fn library_keys() {
    assert_eq!(library_root_key("C:/Program Files (x86)/Steam/"), "c:\\program files (x86)\\steam");
    assert_eq!(library_root_key("\\\\"), "");
}

#[test]
fn push_unique_skips_seen_and_empty_keys() {
    let mut roots = Vec::new();
    let mut seen = Vec::new();
    push_unique_library_root(&mut roots, &mut seen, "C:\\Steam".to_string());
    push_unique_library_root(&mut roots, &mut seen, "c:/steam/".to_string());
    push_unique_library_root(&mut roots, &mut seen, "/".to_string());
    push_unique_library_root(&mut roots, &mut seen, "D:\\Lib".to_string());
    assert_eq!(roots, vec!["C:\\Steam".to_string(), "D:\\Lib".to_string()]);
    assert_eq!(seen, vec!["c:\\steam".to_string(), "d:\\lib".to_string()]);
}

#[test]
fn library_roots_from_libraryfolders() {
    let vdf = "\"libraryfolders\"\r\n{\r\n\t\"0\"\r\n\t{\r\n\t\t\"path\"\t\t\"C:\\\\Program Files (x86)\\\\Steam\"\r\n\t}\r\n\t\"1\"\r\n\t{\r\n\t\t\"path\"\t\t\"D:\\\\SteamLibrary\"\r\n\t}\r\n}\r\n";
    let roots = find_steam_library_roots("c:/program files (x86)/steam".to_string(), Some(vdf.to_string()));
    assert_eq!(roots, vec!["c:/program files (x86)/steam".to_string(), "D:\\SteamLibrary".to_string()]);
    let only = find_steam_library_roots("C:\\Steam".to_string(), None);
    assert_eq!(only, vec!["C:\\Steam".to_string()]);
}

#[test]
fn library_roots_never_repeat_a_key() {
    let vdf = "\"path\" \"D:\\\\A\"\n\"path\" \"d:/a/\"\n\"path\" \"E:\\\\B\"\n\"path\" \"D:\\\\A\"";
    let roots = find_steam_library_roots("C:\\S".to_string(), Some(vdf.to_string()));
    assert_eq!(roots, vec!["C:\\S".to_string(), "D:\\A".to_string(), "E:\\B".to_string()]);
    let keys: Vec<String> = roots.iter().map(|r| library_root_key(r)).collect();
    for (i, a) in keys.iter().enumerate() {
        for b in keys.iter().skip(i + 1) {
            assert_ne!(a, b);
        }
    }
}

#[test]
fn game_dir_is_first_existing_candidate() {
    let c = vec!["A".to_string(), "B".to_string(), "C".to_string()];
    assert_eq!(find_int_steam_game_install_dir(&c, &vec![false, true, true]).ok(), Some("B".to_string()));
    let e = find_int_steam_game_install_dir(&c, &vec![false, false, false]).err().unwrap();
    assert!(matches!(e, PatcherError::GameInstallDirNotFound(_)));
    assert_eq!(e.message(), "Astral Party 설치 경로를 찾지 못했습니다.\n[확인 대상]\n- A\n- B\n- C");
    let none = find_int_steam_game_install_dir(&Vec::new(), &Vec::new()).err().unwrap();
    assert_eq!(none.message(), "Astral Party 설치 경로를 찾지 못했습니다.\n[확인 대상]\n-");
}

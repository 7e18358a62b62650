use astral_auto_patcher::error::PatcherError;
use astral_auto_patcher::removal::{
    collect_remove_root_ids, format_removal_report, partition_removals, DeletionOutcome, PatchRuleDocument,
    PatchRuleTask,
};
use astral_auto_patcher::report::{format_path_list, format_root_ids};

fn task(source: Option<&str>, root_id: Option<&str>) -> PatchRuleTask {
    PatchRuleTask { source: source.map(|s| s.to_string()), root_id: root_id.map(|s| s.to_string()) }
}

#[test]
fn root_ids_are_filtered_trimmed_and_deduplicated() {
    let doc = PatchRuleDocument {
        tasks: vec![
            task(Some("AssetBundles"), Some(" abc ")),
            task(Some("StreamingAssets"), Some("zzz")),
            task(Some("assetbundles"), Some("ABC")),
            task(None, Some("nosource")),
            task(Some("ASSETBUNDLES"), None),
            task(Some("AssetBundles"), Some("   ")),
            task(Some("AssetBundles"), Some("def")),
        ],
    };
    let ids = collect_remove_root_ids(&doc, "url").ok().unwrap();
    assert_eq!(ids, vec!["abc".to_string(), "def".to_string()]);
}

#[test]
fn no_root_ids_is_an_error_naming_the_rules() {
    let doc = PatchRuleDocument { tasks: vec![task(Some("Other"), Some("x"))] };
    let e = collect_remove_root_ids(&doc, "https://rules").err().unwrap();
    assert!(matches!(e, PatcherError::NoAssetBundleRootIds(_)));
    assert_eq!(e.message(), "제거 규칙에서 AssetBundles 대상 root_id를 찾지 못했습니다.\nhttps://rules");
}

#[test]
fn bullet_lists() {
    assert_eq!(format_root_ids(&Vec::new()), "-");
    assert_eq!(format_root_ids(&vec!["a".to_string(), "b".to_string()]), "- a\n- b");
    assert_eq!(format_path_list(&vec!["C:\\x".to_string()]), "- C:\\x");
}

#[test]
fn removal_report() {
    let r = format_removal_report("D:\\feimo", &vec!["a".to_string(), "b".to_string()], &Vec::new());
    assert_eq!(r, "[대상]\nD:\\feimo\n[삭제 완료] 2개\n- a\n- b\n[미존재] 0개\n-");
}

fn ids(names: &[&str]) -> Vec<String> {
    names.iter().map(|s| s.to_string()).collect()
}

#[test]
fn removals_split_into_deleted_and_missing_in_order() {
    let root_ids = ids(&["a", "b", "c", "d"]);
    let outcomes = vec![
        DeletionOutcome::Removed,
        DeletionOutcome::Missing,
        DeletionOutcome::Removed,
        DeletionOutcome::Missing,
    ];
    let (removed, missing) = partition_removals(&root_ids, &outcomes).unwrap();
    assert_eq!(removed, ids(&["a", "c"]));
    assert_eq!(missing, ids(&["b", "d"]));
    assert_eq!(removed.len() + missing.len(), root_ids.len());
}

#[test]
fn removals_of_nothing_list_nothing() {
    let (removed, missing) = partition_removals(&Vec::new(), &Vec::new()).unwrap();
    assert!(removed.is_empty());
    assert!(missing.is_empty());
}

#[test]
fn a_failed_removal_ends_the_run_with_its_message() {
    let root_ids = ids(&["a", "b", "c"]);
    let outcomes = vec![DeletionOutcome::Removed, DeletionOutcome::Failed("locked".to_string())];
    assert_eq!(partition_removals(&root_ids, &outcomes), Err("locked".to_string()));
}

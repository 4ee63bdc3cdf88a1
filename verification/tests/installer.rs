use qtex::installer::{cleanup_old_versions, get_qtex_dir, get_versions_dir, is_stale, legacy_markers, qtex_dir_under, setup_installation, stale, versions_dir_under};

fn strings(items: &[&str]) -> Vec<String> {
    items.iter().map(|s| s.to_string()).collect()
}

#[test]
fn installation_directory_lies_under_home() {
    assert_eq!(qtex_dir_under(&Some("/home/alice".to_string())), "/home/alice/.qtex");
    assert_eq!(qtex_dir_under(&Some("/".to_string())), "/.qtex");
    assert_eq!(qtex_dir_under(&None), "./.qtex");
    assert_eq!(versions_dir_under("/home/alice/.qtex"), "/home/alice/.qtex/versions");
}

#[test]
fn directories_of_the_current_user() {
    let qtex = get_qtex_dir();
    assert!(qtex.ends_with(".qtex"));
    let versions = get_versions_dir();
    assert!(versions.ends_with(".qtex/versions"));
    assert_eq!(versions, versions_dir_under(&qtex));
}

#[test]
fn legacy_markers_are_three_paths() {
    assert_eq!(
        legacy_markers("/h/.qtex"),
        strings(&["/h/.qtex/runtime", "/h/.qtex/package.json", "/h/.qtex/index.js"])
    );
}

#[test]
fn setup_wipes_only_a_legacy_layout() {
    let clean = setup_installation("1.2.3", "/h/.qtex", &vec![false, false, false]);
    assert_eq!(clean.wipe, None);
    assert_eq!(clean.versions_dir, "/h/.qtex/versions");
    assert_eq!(clean.version_dir, "/h/.qtex/versions/1.2.3");
    let legacy = setup_installation("1.2.3", "/h/.qtex", &vec![false, false, true]);
    assert_eq!(legacy.wipe, Some("/h/.qtex".to_string()));
    assert_eq!(legacy.version_dir, "/h/.qtex/versions/1.2.3");
    assert_eq!(setup_installation("1.2.3", "/h/.qtex", &Vec::new()).wipe, None);
}

#[test]
fn stale_rule() {
    assert!(stale(true, true, true, false));
    assert!(!stale(true, true, false, false));
    assert!(!stale(true, true, false, true));
    assert!(stale(true, false, false, false));
    assert!(!stale(true, false, true, true));
    assert!(!stale(false, true, true, false));
    assert!(!stale(false, false, false, false));
}

#[test]
fn older_versions_are_stale() {
    assert!(is_stale("1.2.2", "1.2.3"));
    assert!(is_stale("0.9.0", "1.0.0"));
    assert!(is_stale("1.0.0-alpha", "1.0.0"));
    assert!(is_stale("1.9.0", "1.10.0"));
    assert!(!is_stale("1.2.3", "1.2.3"));
    assert!(!is_stale("1.2.4", "1.2.3"));
    assert!(!is_stale("2.0.0", "1.2.3"));
    assert!(!is_stale("not-a-version", "1.2.3"));
    assert!(!is_stale("1.2", "1.2.3"));
    assert!(!is_stale("", "1.2.3"));
}

#[test]
fn unknown_current_version_makes_every_version_stale() {
    assert!(is_stale("1.2.3", "dev"));
    assert!(is_stale("9.9.9", "dev"));
    assert!(!is_stale("tmp", "dev"));
    assert!(!is_stale("dev", "dev"));
}

#[test]
fn cleanup_lists_stale_directories_in_order() {
    let installed = strings(&["1.0.0", "cache", "1.2.3", "0.3.1", "2.0.0", "1.2.3-rc.1"]);
    assert_eq!(cleanup_old_versions("1.2.3", &installed), strings(&["1.0.0", "0.3.1", "1.2.3-rc.1"]));
    assert_eq!(cleanup_old_versions("1.2.3", &Vec::new()), Vec::<String>::new());
    assert_eq!(cleanup_old_versions("dev", &installed), strings(&["1.0.0", "1.2.3", "0.3.1", "2.0.0", "1.2.3-rc.1"]));
}

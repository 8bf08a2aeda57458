use fastfileocr_core::configuration::{check_data_path, check_owner, data_root, initial_language, Preferences};
use fastfileocr_core::updates::default_repository;

#[test]
fn saved_preferences_preserve_workspace_and_use_the_build_repository() {
    let saved = Preferences {
        project_root: Some("C:/documents/project".into()),
        github_repository: "example/FastFileOCR".into(),
        ..Preferences::default()
    };
    let mut loaded = saved.adopt(default_repository()).unwrap();
    assert_eq!(loaded.project_root.as_deref(), Some("C:/documents/project"));
    assert_eq!(loaded.github_repository, default_repository());
    loaded.schema_version = 99;
    assert!(loaded.validate().is_err());
}

#[test]
fn blank_repository_uses_default_without_changing_saved_settings() {
    let mut saved = Preferences::default();
    saved.github_repository.clear();
    saved.language = "ja".into();
    saved.scan.use_layout = false;
    assert!(saved.validate().is_ok());
    let loaded = saved.adopt(default_repository()).unwrap();
    assert_eq!(loaded.github_repository, default_repository());
    assert_eq!(loaded.language, "ja");
    assert!(!loaded.scan.use_layout);
}

#[test]
fn repository_from_ipc_or_legacy_settings_cannot_override_update_source() {
    for repository in ["other/project", "", "https://example.invalid"] {
        let decoded = Preferences {
            github_repository: repository.into(),
            language: "ko".into(),
            check_updates: false,
            ..Preferences::default()
        };
        let decoded = decoded.adopt(default_repository()).unwrap();
        assert_eq!(decoded.github_repository, default_repository());
        assert_eq!(decoded.language, "ko");
        assert!(!decoded.check_updates);
    }
}

#[test]
fn rejects_invalid_ownership_marker() {
    assert!(check_owner(Some("another app"), false).is_err());
    assert!(check_owner(Some("FastFileOCR data v1\n"), false).is_ok());
}

#[test]
fn refuses_unmarked_nonempty_directory() {
    assert!(check_owner(None, false).is_err());
    assert!(check_owner(None, true).is_ok());
}

#[test]
fn preferences_reject_unknown_languages_and_bad_repositories() {
    let mut p = Preferences::default();
    assert_eq!(p.schema_version, 1);
    assert_eq!(p.language, "en");
    p.language = "fr".into();
    assert_eq!(p.validate().err().unwrap(), "@i18n(invalidLanguage,)");
    p.language = "en".into();
    p.github_repository = "no slash".into();
    assert_eq!(p.validate().err().unwrap(), "@i18n(invalidRepository,)");
    let fresh = Preferences::fresh(Some("ko"));
    assert_eq!(fresh.language, "ko");
    assert_eq!(Preferences::fresh(Some("de")).language, "en");
    assert_eq!(initial_language(None), "en");
}

#[test]
fn the_data_root_prefers_the_override_then_the_installer_choice() {
    assert_eq!(data_root(Some("/env"), Some("/reg"), "/local"), "/env");
    assert_eq!(data_root(None, Some("/reg"), "/local"), "/reg");
    assert_eq!(data_root(None, Some("  "), "/local"), "/local/FastFileOCR");
    assert_eq!(data_root(None, None, "/local"), "/local/FastFileOCR");
}

#[test]
fn interface_preferences_never_change_workspace_or_scan_settings() {
    let mut current = Preferences::default();
    current.project_root = Some("/work".into());
    current.scan.mode = "table".into();
    let mut incoming = Preferences::default();
    incoming.language = "ja".into();
    incoming.project_root = Some("/elsewhere".into());
    incoming.scan.mode = "comic".into();
    current.replace(incoming).unwrap();
    assert_eq!(current.language, "ja");
    assert_eq!(current.project_root.as_deref(), Some("/work"));
    assert_eq!(current.scan.mode, "table");
    let mut bad = Preferences::default();
    bad.language = "xx".into();
    assert!(current.replace(bad).is_err());
    assert_eq!(current.language, "ja");
}

#[test]
fn interface_preferences_never_change_the_update_source() {
    let mut current = Preferences::default();
    let mut incoming = Preferences::default();
    incoming.github_repository = "other/project".into();
    incoming.check_updates = false;
    current.replace(incoming).unwrap();
    assert_eq!(current.github_repository, default_repository());
    assert!(!current.check_updates);
    let mut malformed = Preferences::default();
    malformed.github_repository = "no slash".into();
    malformed.language = "ko".into();
    current.replace(malformed).unwrap();
    assert_eq!(current.github_repository, default_repository());
    assert_eq!(current.language, "ko");
}

#[test]
fn a_build_may_name_its_own_update_source() {
    assert_eq!(Preferences::for_build(Some(" owner/fork ")).github_repository, "owner/fork");
    assert_eq!(Preferences::for_build(Some("  ")).github_repository, default_repository());
    assert_eq!(Preferences::for_build(None).github_repository, default_repository());
    assert_eq!(Preferences::for_build(Some("owner/fork")).language, "en");
}

#[test]
fn data_roots_must_be_deep_absolute_and_not_links() {
    assert!(check_data_path(true, true, 3, None).is_ok());
    assert!(check_data_path(true, true, 4, Some(false)).is_ok());
    assert_eq!(check_data_path(true, true, 2, None).err().unwrap(), "@i18n(unsafeDataPath,)");
    assert!(check_data_path(false, true, 5, None).is_err());
    assert!(check_data_path(true, false, 5, None).is_err());
    assert!(check_data_path(true, true, 5, Some(true)).is_err());
}

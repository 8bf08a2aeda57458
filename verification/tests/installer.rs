use fastfileocr_core::installer::{
    claimable, marked_ours, path_usable, protected, removals, resolve, same, within, Error, Selected,
};

fn facts(marked: bool, has_parent: bool, populated: bool) -> Selected {
    Selected { absolute: true, marked, has_parent, populated }
}

#[test]
fn populated_parent_uses_a_child_and_never_adopts_unrelated_data() {
    let none: Vec<String> = vec![];
    let root = resolve("C:/parent", "C:/apps/FastFileOCR", true, "parent", facts(false, true, true), true, &none, &none).unwrap();
    assert_eq!(root, "C:/parent/FastFileOCR");
    let root = resolve("C:/parent/FastFileOCR", "C:/apps/x", true, "FastFileOCR", facts(false, true, true), true, &none, &none).unwrap();
    assert_eq!(root, "C:/parent/FastFileOCR/Data");
    let root = resolve("C:/marked", "C:/apps/x", true, "marked", facts(true, true, true), true, &none, &none).unwrap();
    assert_eq!(root, "C:/marked");
}

#[test]
fn an_empty_parent_of_the_app_resolves_consistently_before_and_after_install() {
    let none: Vec<String> = vec![];
    let before = resolve("C:/shared", "C:/shared/application", true, "shared", facts(false, true, false), true, &none, &none).unwrap();
    let after = resolve("C:/shared", "C:/shared/application", true, "shared", facts(false, true, true), true, &none, &none).unwrap();
    assert_eq!(before, after);
    assert_eq!(before, "C:/shared/FastFileOCR");
    let app_in_data = resolve("C:/shared", "C:/shared/FastFileOCR", true, "shared", facts(false, true, false), true, &none, &none);
    assert_eq!(app_in_data, Err(Error::Unsafe));
}

#[test]
fn reinstall_keeps_settings_and_app_folder_gets_a_data_child() {
    let none: Vec<String> = vec![];
    let root = resolve("C:/App", "c:/app", true, "App", facts(false, true, true), true, &none, &none).unwrap();
    assert_eq!(root, "C:/App/Data");
}

#[test]
fn protected_folders_are_refused() {
    let system = vec!["C:/Windows".to_string(), "C:/Program Files".to_string()];
    let homes = vec!["C:/Users/kim".to_string()];
    assert!(protected("c:/windows/system32", &system, &homes));
    assert!(protected("C:/users/KIM", &system, &homes));
    assert!(!protected("C:/Users/kim/data", &system, &homes));
    assert!(!protected("C:/WindowsOld", &system, &homes));
    assert_eq!(
        resolve("C:/Users/kim", "C:/apps/x", true, "kim", facts(true, true, false), true, &system, &homes),
        Err(Error::Unsafe)
    );
    let none: Vec<String> = vec![];
    assert_eq!(resolve("C:/", "C:/apps/x", true, "", facts(false, false, true), false, &none, &none), Err(Error::Unsafe));
}

#[test]
fn deletion_choices_are_independent_and_preserve_unmanaged_files() {
    assert_eq!(removals(true, false), ["settings.json", "settings-backups", "models", "runtimes", "logs", "updates"]);
    assert_eq!(removals(false, true), ["workspaces"]);
    assert!(removals(false, false).is_empty());
    assert_eq!(removals(true, true).len(), 7);
    assert!(!removals(true, true).iter().any(|n| n == "personal.txt"));
}

#[test]
fn paths_compare_without_ascii_case() {
    assert!(same("C:/Data", "c:/data"));
    assert!(!same("C:/Data", "C:/Data2"));
    assert!(within("C:/Data/child", "c:/data"));
    assert!(within("C:/Data", "C:/Data/"));
    assert!(!within("C:/Database", "C:/Data"));
}

#[test]
fn relative_paths_and_parent_segments_are_refused() {
    let none: Vec<String> = vec![];
    let mut relative = facts(false, true, true);
    relative.absolute = false;
    assert_eq!(resolve("relative", "C:/app", true, "relative", relative, true, &none, &none), Err(Error::Unsafe));
    assert_eq!(resolve("C:/a/../b", "C:/app", true, "b", facts(false, true, true), true, &none, &none), Err(Error::Unsafe));
    assert_eq!(resolve("C:/a", "C:/x/../app", true, "a", facts(false, true, true), true, &none, &none), Err(Error::Unsafe));
    assert_eq!(resolve("C:/a", "app", false, "a", facts(false, true, true), true, &none, &none), Err(Error::Unsafe));
    assert!(path_usable("C:/a/..b", true));
    assert!(!path_usable("C:\\a\\..", true));
}

#[test]
fn only_an_unlinked_directory_with_our_marker_is_owned() {
    assert!(claimable(true, false).is_ok());
    assert_eq!(claimable(false, false), Err(Error::Unsafe));
    assert_eq!(claimable(true, true), Err(Error::Unsafe));
    assert!(marked_ours(false, "FastFileOCR data v1\n").is_ok());
    assert_eq!(marked_ours(false, "another app"), Err(Error::Unsafe));
    assert_eq!(marked_ours(true, "FastFileOCR data v1"), Err(Error::Unsafe));
}

#[test]
fn containment_compares_components() {
    assert!(within("c:/windows//system32", "C:/Windows/./"));
    assert!(within("C:\\Windows\\.\\System32", "c:/windows"));
    assert!(within("C:/Windows", "C:/Windows"));
    assert!(!within("C:/WindowsOld/x", "C:/Windows"));
    assert!(!within("C:/Win", "C:/Windows"));
    let system = vec!["C:\\Windows\\\\".to_string()];
    let none: Vec<String> = vec![];
    assert!(protected("c:/windows/./temp", &system, &none));
}

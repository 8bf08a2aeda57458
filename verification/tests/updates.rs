use fastfileocr_core::updates::{
    default_repository, expected_checksum, installer_language, parse_release, repository_from,
    qualify, valid_repository, verify_installer, ApiRelease, Asset, Lookup, Updater,
};

fn release(version: &str, repository: &str) -> ApiRelease {
    let name = format!("FastFileOCR_{version}_x64-setup.exe");
    let base = format!("https://github.com/{repository}/releases/download/v{version}");
    ApiRelease {
        tag_name: format!("v{version}"),
        draft: false,
        prerelease: false,
        assets: vec![
            Asset { name: name.clone(), browser_download_url: format!("{base}/{name}"), size: 500 },
            Asset {
                name: format!("{name}.sha256"),
                browser_download_url: format!("{base}/{name}.sha256"),
                size: 100,
            },
        ],
    }
}

#[test]
fn validates_release_origin_version_and_checksum_pair() {
    let json = release("2.1.0", "example/FastFileOCR");
    assert!(parse_release(&json, "example/FastFileOCR", "2.0.0").unwrap().is_some());
    assert!(parse_release(&json, "example/FastFileOCR", "2.1.0").unwrap().is_none());
    assert!(parse_release(&json, "other/repo", "2.0.0").is_err());
    let mut wrong = release("2.1.0", "example/FastFileOCR");
    wrong.assets[1].browser_download_url =
        "https://github.com/example/FastFileOCR/releases/download/v2.0.0/FastFileOCR_2.1.0_x64-setup.exe.sha256".into();
    assert!(parse_release(&wrong, "example/FastFileOCR", "2.0.0").is_err());
    let mut wrong = release("2.1.0", "example/FastFileOCR");
    wrong.assets.pop();
    assert!(parse_release(&wrong, "example/FastFileOCR", "2.0.0").is_err());
    let mut wrong = release("2.1.0", "example/FastFileOCR");
    wrong.prerelease = true;
    assert!(parse_release(&wrong, "example/FastFileOCR", "2.0.0").unwrap().is_none());
    assert!(!valid_repository("../repo"));
    assert!(!valid_repository("https://github.com/a/b"));
}

#[test]
fn no_public_release_is_distinct_from_an_unavailable_repository() {
    let mut updater = Updater::new("2.0.0");
    updater.check("example/FastFileOCR", Lookup::Unreleased).unwrap();
    assert_eq!(updater.snapshot().status, "unreleased");
    assert!(updater.snapshot().error.is_none());
    assert!(updater.pending().is_err());
    assert!(updater.check("not a repository", Lookup::Unreleased).is_err());
    assert_eq!(updater.snapshot().status, "unreleased");
}

#[test]
fn latest_release_check_exposes_matching_installer_and_clears_stale_download() {
    let version = "99.0.0";
    let name = format!("FastFileOCR_{version}_x64-setup.exe");
    let base = format!("https://github.com/example/FastFileOCR/releases/download/v{version}");
    let mut updater = Updater::new("2.0.0");
    updater.check("example/FastFileOCR", Lookup::Latest(release("98.0.0", "example/FastFileOCR"))).unwrap();
    updater.start_download(&"a".repeat(64)).unwrap();
    updater.advance(500).unwrap();
    updater.complete(500, &"a".repeat(64), &"a".repeat(64), "outdated.exe".into()).unwrap();
    assert!(updater.installer().is_ok());
    updater.check("example/FastFileOCR", Lookup::Latest(release(version, "example/FastFileOCR"))).unwrap();
    let progress = updater.snapshot();
    assert_eq!(progress.status, "available");
    assert_eq!(progress.version, version);
    assert_eq!(progress.downloaded, 0);
    assert!(updater.installer().is_err());
    assert_eq!(updater.pending().unwrap().url, format!("{base}/{name}"));
}

#[test]
fn repository_names_are_owner_and_name() {
    assert!(valid_repository("example/FastFileOCR"));
    assert!(valid_repository("a-b_c.d/e"));
    assert!(!valid_repository("a/b/c"));
    assert!(!valid_repository("a/"));
    assert!(!valid_repository("./b"));
    assert!(!valid_repository("a/.."));
    assert!(!valid_repository("a b/c"));
    assert_eq!(default_repository(), "jinhyeonseo01/FastFileOCR");
    assert_eq!(repository_from(Some("  x/y ")), "x/y");
    assert_eq!(repository_from(Some("   ")), "jinhyeonseo01/FastFileOCR");
    assert_eq!(repository_from(None), "jinhyeonseo01/FastFileOCR");
}

#[test]
fn checksum_files_give_their_first_word_in_lower_case() {
    let hex = "ABCDEF0123456789abcdef0123456789ABCDEF0123456789abcdef0123456789";
    let text = format!("  {hex}  FastFileOCR_2.1.0_x64-setup.exe\n");
    assert_eq!(expected_checksum(&text).unwrap(), hex.to_lowercase());
    assert!(expected_checksum("xyz file").is_err());
    assert!(expected_checksum("").is_err());
    assert!(verify_installer("ab", "ab").is_ok());
    assert!(verify_installer("ab", "cd").is_err());
}

#[test]
fn downloads_refuse_extra_bytes_and_wrong_checksums() {
    let mut updater = Updater::new("1.0.0");
    assert!(updater.start_download("x").is_err());
    updater.check("example/FastFileOCR", Lookup::Latest(release("1.2.0", "example/FastFileOCR"))).unwrap();
    assert!(updater.start_download("not hex").is_err());
    let expected = updater.start_download(&"0".repeat(64)).unwrap();
    assert_eq!(updater.snapshot().status, "downloading");
    assert_eq!(updater.snapshot().total, 500);
    assert!(updater.advance(501).is_err());
    assert!(updater.complete(499, &expected, &expected, "f.exe".into()).is_err());
    assert!(updater.complete(500, "1", &expected, "f.exe".into()).is_err());
    updater.complete(500, &expected, &expected, "f.exe".into()).unwrap();
    assert_eq!(updater.snapshot().status, "ready");
    assert_eq!(updater.installer().unwrap(), "f.exe");
    assert_eq!(installer_language("ko"), "1042");
    assert_eq!(installer_language("ja"), "1041");
    assert_eq!(installer_language("fr"), "1033");
}

#[test]
fn releases_with_build_metadata_or_bad_tags() {
    let mut bad = release("2.1.0", "example/FastFileOCR");
    bad.tag_name = "vnext".into();
    assert!(parse_release(&bad, "example/FastFileOCR", "2.0.0").is_err());
    let draft = ApiRelease { draft: true, ..release("3.0.0", "example/FastFileOCR") };
    assert!(parse_release(&draft, "example/FastFileOCR", "2.0.0").unwrap().is_none());
    assert!(parse_release(&release("3.0.0", "example/FastFileOCR"), "example/FastFileOCR", "x").is_err());
    let r = parse_release(&release("10.0.0", "example/FastFileOCR"), "example/FastFileOCR", "9.9.9").unwrap().unwrap();
    assert_eq!(r.version, "10.0.0");
    assert_eq!(r.bytes, 500);
    assert_eq!(r.name, "FastFileOCR_10.0.0_x64-setup.exe");
}

#[test]
fn operations_show_their_start_and_failure() {
    let mut updater = Updater::new("1.0.0");
    updater.begin_operation(false);
    assert_eq!(updater.snapshot().status, "checking");
    updater.fail("offline".into());
    assert_eq!(updater.snapshot().status, "error");
    assert_eq!(updater.snapshot().error.as_deref(), Some("offline"));
    updater.begin_operation(true);
    assert_eq!(updater.snapshot().status, "downloading");
    assert!(updater.snapshot().error.is_none());
    assert_eq!(updater.snapshot().current_version, "1.0.0");
}

#[test]
fn assets_qualify_only_under_the_tag_path_with_a_bounded_size() {
    let api = release("3.0.1", "example/FastFileOCR");
    let rel = qualify(&api, "example/FastFileOCR", "3.0.1").unwrap().unwrap();
    assert_eq!(rel.name, "FastFileOCR_3.0.1_x64-setup.exe");
    assert_eq!(rel.bytes, 500);
    assert_eq!(rel.checksum_url, format!("{}.sha256", rel.url));
    assert_eq!(qualify(&api, "example/FastFileOCR", "3.0.2").err().unwrap(), "@i18n(updateNoInstaller,)");
    let mut empty = release("3.0.1", "example/FastFileOCR");
    empty.assets[0].size = 0;
    assert_eq!(qualify(&empty, "example/FastFileOCR", "3.0.1").err().unwrap(), "@i18n(updateInvalidAsset,)");
    let mut no_sum = release("3.0.1", "example/FastFileOCR");
    no_sum.assets.pop();
    assert_eq!(qualify(&no_sum, "example/FastFileOCR", "3.0.1").err().unwrap(), "@i18n(updateNoChecksum,)");
}

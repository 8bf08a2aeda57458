use fastfileocr_core::download::{Control, Downloads, FileSizes, ModelFile};
use fastfileocr_core::runtimes::{
    cuda_supported, entry_action, plain_file, required, vulkan_supported, EntryAction, Hardware,
    Manifest, Receipt, FileRecord, RuntimeTarget, Runtimes,
};

#[test]
fn automatic_mode_downloads_at_most_one_gpu_backend() {
    assert_eq!(
        Hardware {
            cuda: true,
            vulkan: true
        }
        .candidates("auto"),
        ["cuda", "cpu"]
    );
    assert_eq!(
        Hardware {
            cuda: false,
            vulkan: true
        }
        .candidates("auto"),
        ["vulkan", "cpu"]
    );
    assert_eq!(Hardware::default().candidates("auto"), ["cpu"]);
    assert_eq!(Hardware::default().candidates("cuda"), ["cuda"]);
}

#[test]
fn failed_probes_count_as_absent_backends() {
    let h = Hardware::detect(None, Some(true));
    assert!(!h.cuda);
    assert!(h.vulkan);
}

#[test]
fn cuda_needs_a_recent_driver_and_a_turing_device() {
    let devices = vec![Some((6, 1)), Some((7, 5))];
    assert!(cuda_supported(true, 13000, 12080, &devices));
    assert!(!cuda_supported(true, 12000, 12080, &devices));
    assert!(!cuda_supported(false, 13000, 12080, &devices));
    assert!(!cuda_supported(true, 13000, 12080, &vec![Some((7, 0)), None]));
    assert!(vulkan_supported(true, 0, 1));
    assert!(!vulkan_supported(true, 0, 0));
    assert!(!vulkan_supported(false, 0, 1));
}

#[test]
fn archive_names_must_be_plain() {
    assert!(plain_file("ggml.dll"));
    assert!(!plain_file(""));
    assert!(!plain_file(".."));
    assert!(!plain_file("a/b.dll"));
    assert!(!plain_file("c:evil.dll"));
}

#[test]
fn extraction_rejects_traversal_and_keeps_only_engine_files() {
    assert!(entry_action("../escape.dll", false, None, false, false, 1, 0).is_err());
    assert!(entry_action("a\\engine.dll", true, Some("engine.dll"), false, false, 1, 0).is_err());
    assert!(entry_action("link.dll", true, Some("link.dll"), true, false, 1, 0).is_err());
    assert!(matches!(entry_action("dir/", true, None, false, true, 0, 0), Ok(EntryAction::Skip)));
    assert!(matches!(entry_action("readme.txt", true, Some("readme.txt"), false, false, 5, 0), Ok(EntryAction::Skip)));
    match entry_action("bin/GGML.DLL", true, Some("GGML.DLL"), false, false, 10, 5).unwrap() {
        EntryAction::Extract { name, total } => {
            assert_eq!(name, "GGML.DLL");
            assert_eq!(total, 15);
        }
        EntryAction::Skip => panic!("a library is extracted"),
    }
    assert!(entry_action("llama-server.exe", true, Some("llama-server.exe"), false, false, 2, 4294967295).is_err());
}

#[test]
fn an_installed_engine_lists_every_required_file() {
    let names = required("vulkan");
    assert_eq!(names.len(), 7);
    assert_eq!(names[6], "ggml-vulkan.dll");
    let archive = ModelFile {
        name: "engine.zip".into(),
        bytes: 3,
        sha256: "abc".into(),
        layout: false,
        repository: None,
        revision: None,
        url: None,
    };
    let files = names
        .iter()
        .map(|n| FileRecord { name: n.clone(), bytes: 1, sha256: "x".into() })
        .collect::<Vec<_>>();
    let good = Receipt {
        owner: "FastFileOCR runtime v1".into(),
        archives: vec!["abc".into()],
        files,
    };
    assert!(good.fits("vulkan", &vec![engine_archive()]));
    assert!(!good.fits("cuda", &vec![engine_archive()]));
    let stranger = Receipt { owner: "someone".into(), archives: vec!["abc".into()], files: vec![] };
    assert!(!stranger.fits("vulkan", &vec![archive]));
}

fn engine_archive() -> ModelFile {
    ModelFile {
        name: "engine.zip".into(),
        bytes: 3,
        sha256: "abc".into(),
        layout: false,
        repository: None,
        revision: None,
        url: None,
    }
}

#[test]
fn gpu_engines_are_cached_by_version_and_cpu_ships_with_the_app() {
    let archive = ModelFile {
        name: "engine.zip".into(),
        bytes: 10,
        sha256: "abc".into(),
        layout: false,
        repository: None,
        revision: None,
        url: Some("https://example.invalid/engine.zip".into()),
    };
    let manifest = Manifest {
        version: "b1".into(),
        cuda_driver_minimum: 12080,
        files: vec![("vulkan".into(), vec![archive])],
    };
    let mut r = Runtimes::new("/data");
    match r.ensure("/app", "cpu", &manifest).unwrap() {
        RuntimeTarget::Bundled(p) => assert_eq!(p, "/app/runtime/cpu"),
        _ => panic!("the CPU engine is bundled"),
    }
    match r.ensure("/app", "vulkan", &manifest).unwrap() {
        RuntimeTarget::Download { root, version_root, downloads, files } => {
            assert_eq!(root, "/data/runtimes/b1/vulkan");
            assert_eq!(version_root, "/data/runtimes/b1");
            assert_eq!(downloads, "/data/runtimes/b1/downloads/vulkan");
            assert_eq!(files.len(), 1);
            let sizes = vec![FileSizes { complete: None, partial: Some(4) }];
            r.start(Downloads::for_files(downloads, files, &sizes));
        }
        _ => panic!("a GPU engine is downloaded"),
    }
    assert_eq!(r.active().unwrap().snapshot().status, "interrupted");
    assert!(r.ensure("/app", "cuda", &manifest).is_err());
    assert!(r.ensure("/app", "metal", &manifest).is_err());
    r.cancel();
    assert!(r.active().unwrap().control() == Control::CancelRequested);
    assert!(r.ensure("/app", "cpu", &manifest).is_err());
    r.reset();
    assert!(r.active().is_none());
    assert!(r.ensure("/app", "cpu", &manifest).is_ok());
    r.start(Downloads::for_files("/x".into(), vec![], &vec![]));
    r.active_mut().unwrap().pause();
    assert!(r.active().is_some());
}

#[test]
fn installed_files_must_match_their_receipt_records() {
    let record = FileRecord { name: "llama-server.exe".into(), bytes: 10, sha256: "ab".into() };
    assert!(record.in_place(true, 10));
    assert!(!record.in_place(true, 9));
    assert!(!record.in_place(false, 10));
    let outside = FileRecord { name: "../llama-server.exe".into(), bytes: 10, sha256: "ab".into() };
    assert!(!outside.in_place(true, 10));
    assert!(record.digest_is("ab"));
    assert!(!record.digest_is("AB"));
}

use base64::Engine as _;
use fastfileocr_core::download::{
    check_sizes, content_end, received_after, request_end, resume_offset,
    transfer_complete, Control, Downloads, FileAction, FileEvent, FileSizes, Manifest, ModelFile,
};

fn file(name: &str, bytes: u64, layout: bool) -> ModelFile {
    ModelFile {
        name: name.into(),
        bytes,
        sha256: "00".into(),
        layout,
        repository: None,
        revision: None,
        url: None,
    }
}

#[test]
fn range_resume_never_appends_a_full_response_or_wrong_range() {
    assert_eq!(resume_offset(206, Some("bytes 5-9/10"), 5, 10).unwrap(), 5);
    assert_eq!(resume_offset(200, None, 5, 10).unwrap(), 0);
    assert!(resume_offset(206, Some("bytes 0-9/10"), 5, 10).is_err());
    assert!(resume_offset(206, Some("bytes 5-10/11"), 5, 10).is_err());
    assert!(resume_offset(403, None, 0, 10).is_err());
}

#[test]
fn restart_discovers_partial_files_without_treating_them_as_ready() {
    let manifest = Manifest {
        repository: "PaddlePaddle/model".into(),
        revision: "abc".into(),
        files: vec![file("model.gguf", 100, false), file("layout.safetensors", 50, true)],
    };
    let sizes = vec![FileSizes { complete: None, partial: Some(7) }, FileSizes { complete: None, partial: None }];
    let mut restored = Downloads::new("/models", manifest, false, &sizes);
    assert_eq!(restored.directory(), "/models/abc");
    assert_eq!(restored.snapshot().status, "interrupted");
    assert_eq!(restored.snapshot().downloaded, 7);
    assert_eq!(restored.snapshot().total, 100);
    restored.cancel();
    let paused = restored.checkpoint_begin();
    assert!(restored.checkpoint_end(paused).is_err());
}

#[test]
fn pause_resumes_installation_stage_and_cancel_preserves_partials() {
    let mut dl = Downloads::for_files("/runtimes".into(), vec![], &vec![]);
    dl.stage("extracting");
    dl.pause();
    let paused = dl.checkpoint_begin();
    assert_eq!(dl.snapshot().status, "paused");
    dl.resume();
    dl.checkpoint_end(paused).unwrap();
    assert_eq!(dl.snapshot().status, "extracting");
    dl.pause();
    let paused = dl.checkpoint_begin();
    dl.cancel();
    assert!(dl.checkpoint_end(paused).is_err());
    dl.stage("extracting");
    dl.pause();
    assert!(dl.control() == Control::CancelRequested);
    let paused = dl.checkpoint_begin();
    assert!(dl.checkpoint_end(paused).is_err());
}

#[test]
fn complete_files_make_a_download_ready() {
    let files = vec![file("a", 3, false), file("b", 4, false)];
    let sizes = vec![FileSizes { complete: Some(3), partial: None }, FileSizes { complete: Some(4), partial: None }];
    let dl = Downloads::for_files("/r".into(), files, &sizes);
    assert_eq!(dl.snapshot().kind, "runtime");
    assert_eq!(dl.snapshot().status, "ready");
    assert_eq!(dl.snapshot().downloaded, 7);
}

#[test]
fn unknown_models_have_no_download() {
    let manifest = Manifest { repository: "r".into(), revision: "v".into(), files: vec![] };
    assert!(Downloads::for_model("/m", "missing", manifest, false, &vec![]).is_err());
}

#[test]
fn files_come_from_their_pinned_revision() {
    let manifest = Manifest {
        repository: "org/repo".into(),
        revision: "rev1".into(),
        files: vec![file("w.gguf", 1, false)],
    };
    let dl = Downloads::new("/m", manifest, false, &vec![FileSizes { complete: None, partial: None }]);
    assert_eq!(dl.snapshot().status, "idle");
    let f = file("w.gguf", 1, false);
    assert_eq!(dl.file_url(&f), "https://huggingface.co/org/repo/resolve/rev1/w.gguf");
}

#[test]
fn chunks_and_retries_are_bounded() {
    assert_eq!(request_end(0, 10), 9);
    assert_eq!(request_end(0, 100 * 1024 * 1024), 32 * 1024 * 1024 - 1);
    assert_eq!(content_end("bytes 5-9/10"), Some(10));
    assert_eq!(content_end("bytes 5"), None);
    assert_eq!(received_after(5, 5, 10).unwrap(), 10);
    assert!(received_after(6, 5, 10).is_err());
    assert!(transfer_complete(10, 10).is_ok());
    assert!(transfer_complete(9, 10).is_err());
}

#[test]
fn errors_name_a_stop_as_cancelled() {
    let mut dl = Downloads::for_files("/r".into(), vec![], &vec![]);
    dl.report_error(&Err("boom".into()));
    assert_eq!(dl.snapshot().status, "error");
    dl.cancel();
    dl.report_error(&Err("stop".into()));
    assert_eq!(dl.snapshot().status, "cancelled");
    assert_eq!(dl.snapshot().error.as_deref(), Some("stop"));
}

#[test]
fn refused_statuses_are_named_with_their_reason() {
    let e = resume_offset(403, None, 0, 10).err().unwrap();
    let encoded = e.strip_prefix("@i18n(downloadStatus,").unwrap().strip_suffix(')').unwrap();
    let bytes = base64::engine::general_purpose::URL_SAFE_NO_PAD.decode(encoded).unwrap();
    let args: Vec<String> = serde_json::from_slice(&bytes).unwrap();
    assert_eq!(args, ["403 Forbidden"]);
    assert_eq!(resume_offset(206, None, 0, 10).err().unwrap(), "@i18n(missingRange,)");
}

fn fetch_file(name: &str, bytes: u64) -> ModelFile {
    ModelFile {
        name: name.into(),
        bytes,
        sha256: "0".repeat(64),
        layout: false,
        repository: None,
        revision: None,
        url: Some(format!("https://example.invalid/{name}")),
    }
}

#[test]
fn a_file_is_renamed_only_after_its_part_checks_out() {
    let files = vec![fetch_file("a.bin", 100)];
    let sizes = vec![FileSizes { complete: None, partial: Some(40) }];
    let mut d = Downloads::for_files("/r".into(), files, &sizes);
    d.begin(true, &sizes);
    assert!(matches!(d.step(0, FileEvent::Start), FileAction::Check));
    assert!(matches!(d.step(0, FileEvent::Checked(false)), FileAction::DropFinal));
    assert!(matches!(d.step(0, FileEvent::PartialSize(Some(40))), FileAction::Request { offset: 40, end: 99 }));
    assert_eq!(d.snapshot().status, "downloading");
    assert_eq!(d.snapshot().downloaded, 40);
    assert!(!d.awaits(&FileEvent::Verified(true)));
    let failed = FileEvent::Transferred { error: Some("timeout".into()), offset: 40 };
    assert!(matches!(d.step(0, failed), FileAction::Wait { ms: 1000 }));
    assert!(matches!(d.step(0, FileEvent::Waited), FileAction::Request { offset: 40, end: 99 }));
    let done = FileEvent::Transferred { error: None, offset: 100 };
    assert!(matches!(d.step(0, done), FileAction::Verify));
    assert_eq!(d.snapshot().status, "checking");
    assert!(matches!(d.step(0, FileEvent::Verified(true)), FileAction::Rename));
    assert_eq!(d.completed(), 100);
}

#[test]
fn a_bad_part_is_discarded_and_three_stalled_attempts_give_up() {
    let files = vec![fetch_file("a.bin", 100), fetch_file("b.bin", 50)];
    let sizes = vec![FileSizes { complete: Some(100), partial: None }, FileSizes { complete: None, partial: Some(80) }];
    let mut d = Downloads::for_files("/r".into(), files, &sizes);
    d.begin(true, &sizes);
    d.step(0, FileEvent::Start);
    assert!(matches!(d.step(0, FileEvent::Checked(true)), FileAction::Next));
    assert_eq!(d.completed(), 100);
    d.step(1, FileEvent::Start);
    d.step(1, FileEvent::Checked(false));
    assert!(matches!(d.step(1, FileEvent::PartialSize(Some(80))), FileAction::DropPartial));
    assert!(matches!(d.step(1, FileEvent::PartialSize(None)), FileAction::Request { offset: 0, end: 49 }));
    d.step(1, FileEvent::Transferred { error: None, offset: 50 });
    match d.step(1, FileEvent::Verified(false)) {
        FileAction::Discard(m) => assert_eq!(m, "@i18n(modelHashMismatch,)"),
        _ => panic!("a bad part must be discarded"),
    }
    assert_eq!(d.snapshot().status, "error");
    d.step(1, FileEvent::Start);
    d.step(1, FileEvent::Checked(false));
    d.step(1, FileEvent::PartialSize(Some(10)));
    let stalled = || FileEvent::Transferred { error: Some("reset".into()), offset: 10 };
    assert!(matches!(d.step(1, stalled()), FileAction::Wait { ms: 1000 }));
    d.step(1, FileEvent::Waited);
    assert!(matches!(d.step(1, stalled()), FileAction::Wait { ms: 2000 }));
    d.step(1, FileEvent::Waited);
    assert!(matches!(d.step(1, stalled()), FileAction::Fail(_)));
}

#[test]
fn a_failed_attempt_that_made_progress_does_not_count() {
    let files = vec![fetch_file("a.bin", 100)];
    let sizes = vec![FileSizes { complete: None, partial: None }];
    let mut d = Downloads::for_files("/r".into(), files, &sizes);
    d.begin(true, &sizes);
    d.step(0, FileEvent::Start);
    d.step(0, FileEvent::Checked(false));
    d.step(0, FileEvent::PartialSize(None));
    let stalled = FileEvent::Transferred { error: Some("reset".into()), offset: 0 };
    assert!(matches!(d.step(0, stalled), FileAction::Wait { ms: 1000 }));
    d.step(0, FileEvent::Waited);
    let progressed = FileEvent::Transferred { error: Some("reset".into()), offset: 30 };
    assert!(matches!(d.step(0, progressed), FileAction::Wait { ms: 0 }));
    assert!(matches!(d.step(0, FileEvent::Waited), FileAction::Request { offset: 30, end: 99 }));
}

#[test]
fn sizes_that_do_not_fit_are_refused_before_a_download_is_made() {
    let files = vec![fetch_file("a.bin", u64::MAX), fetch_file("b.bin", 1)];
    let sizes = vec![FileSizes { complete: None, partial: None }; 2];
    assert_eq!(check_sizes(&files, &sizes, true).err().unwrap(), "@i18n(modelTooLarge,)");
    let one = vec![FileSizes { complete: None, partial: None }];
    assert!(check_sizes(&vec![fetch_file("a.bin", u64::MAX)], &one, true).is_ok());
    assert!(check_sizes(&files, &one, true).is_err());
}

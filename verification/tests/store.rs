use fastfileocr_core::recognition::{whole_page, PageRecognition};
use fastfileocr_core::store::{confined, inside, ModelOption, Page, Settings, Store};

fn page(name: &str) -> Page {
    Page::new(
        name.into(),
        format!("sources/{name}.png"),
        1,
        format!("pages/{name}.jpg"),
        format!("pages/{name}-thumb.jpg"),
        100,
        100,
    )
}

#[test]
fn restores_interrupted_queue_without_losing_completed_text() {
    let mut s = Store::create("/documents", "복구");
    let mut p = Page::new(
        "a".into(),
        "sources/a.png".into(),
        1,
        "pages/a.jpg".into(),
        "pages/a-thumb.jpg".into(),
        100,
        100,
    );
    p.status = "processing".into();
    p.raw_text = "preserve".into();
    s.project.pages.push(p);
    let reopened = Store::open(s.root, s.project).unwrap();
    assert_eq!(reopened.project.pages[0].status, "queued");
    assert_eq!(reopened.project.pages[0].raw_text, "preserve");
}

#[test]
fn rejects_traversal_and_recovers_backup() {
    assert!(inside("/w", "../secret").is_err());
    assert!(inside("/w", "a/../../secret").is_err());
    assert!(inside("/w", "/etc/passwd").is_err());
    assert!(inside("/w", "C:secret").is_err());
    assert_eq!(inside("/w", "1:x").unwrap(), "/w/1:x");
    assert_eq!(inside("/w", "가:x").unwrap(), "/w/가:x");
    assert!(inside("/w", "").is_err());
    assert_eq!(inside("/w", "pages/a.jpg").unwrap(), "/w/pages/a.jpg");
    assert_eq!(inside("/w/", "pages/..a.jpg").unwrap(), "/w/pages/..a.jpg");
}

#[test]
fn new_projects_are_named_and_placed_by_their_id() {
    let s = Store::create("/docs", "  Invoice  ");
    assert_eq!(s.project.name, "Invoice");
    assert_eq!(s.project.schema_version, 2);
    assert_eq!(s.project.id.len(), 36);
    assert_eq!(s.root, format!("/docs/Glyph-{}", &s.project.id[..8]));
    assert_eq!(Store::create("/docs", "   ").project.name, "새 문서");
}

#[test]
fn reopening_refuses_old_schemas_bad_settings_and_outside_paths() {
    let mut s = Store::create("/d", "x");
    s.project.schema_version = 1;
    assert!(Store::open(s.root.clone(), s.project).is_err());
    let mut s = Store::create("/d", "x");
    s.project.settings.device = "tpu".into();
    assert_eq!(Store::open(s.root.clone(), s.project).err().unwrap(), "지원하지 않는 장치입니다.");
    let mut s = Store::create("/d", "x");
    let mut p = page("a");
    p.image = "../outside.jpg".into();
    s.project.pages.push(p);
    assert!(Store::open(s.root.clone(), s.project).is_err());
}

#[test]
fn settings_validation_follows_the_documented_limits() {
    let mut s = Settings::default();
    assert!(s.validate().is_ok());
    s.device = "cuda".into();
    assert!(s.validate().is_ok());
    s.max_tokens = 511;
    assert_eq!(s.validate().err().unwrap(), "출력 토큰은 512~16384여야 합니다.");
    s.max_tokens = 16384;
    s.instructions = "가".repeat(4001);
    assert!(s.validate().is_err());
    s.instructions = "가".repeat(4000);
    assert!(s.validate().is_ok());
    s.mode = "poetry".into();
    assert_eq!(s.validate().err().unwrap(), "지원하지 않는 인식 모드입니다.");
}

#[test]
fn prompts_follow_the_mode_and_append_trimmed_instructions() {
    let mut s = Settings::default();
    s.mode = "table".into();
    assert_eq!(s.prompt(), "Table Recognition:");
    s.instructions = "  keep units  ".into();
    assert_eq!(s.prompt(), "Table Recognition:\nkeep units");
    s.mode = "unknown".into();
    s.instructions = "   ".into();
    assert_eq!(s.prompt(), "OCR:");
}

#[test]
fn pages_are_found_by_id_and_changed_in_place() {
    let mut s = Store::create("/d", "x");
    s.project.pages.push(page("a"));
    s.project.pages.push(page("b"));
    let id = s.project.pages[1].id.clone();
    assert_eq!(s.page(&id).unwrap().name, "b");
    assert_eq!(s.page_index(&id).unwrap(), 1);
    s.page_mut(&id).unwrap().status = "done".into();
    assert_eq!(s.project.pages[1].status, "done");
    assert_eq!(s.project.pages[0].status, "queued");
    assert_eq!(s.page("missing").err().unwrap(), "페이지를 찾지 못했습니다.");
    assert!(s.page_mut("missing").is_err());
}

#[test]
fn editing_splits_blocks_and_keeps_the_raw_answer() {
    let mut p = page("a");
    p.raw_text = "# 원문".into();
    p.edit("# 편집\n\n본문".into());
    assert_eq!(p.raw_text, "# 원문");
    assert_eq!(p.markdown, "# 편집\n\n본문");
    assert_eq!(p.blocks.len(), 2);
    assert_eq!(p.blocks[0].text, "편집");
}

#[test]
fn a_finished_scan_records_result_settings_and_time() {
    let mut p = page("a");
    p.begin_scan();
    assert_eq!(p.status, "processing");
    let result: PageRecognition = whole_page("raw".into(), "# T".into(), vec![], None, None, None);
    p.finish_scan(42, false, Ok(result), &Settings::default());
    assert_eq!(p.status, "done");
    assert_eq!(p.elapsed_ms, 42);
    assert_eq!(p.raw_text, "raw");
    assert_eq!(p.blocks[0].kind, "heading");
    assert!(p.recognized_with.is_some());
    let mut q = page("b");
    q.begin_scan();
    q.finish_scan(1, false, Err("engine".into()), &Settings::default());
    assert_eq!(q.status, "error");
    assert_eq!(q.error.as_deref(), Some("engine"));
    let mut c = page("c");
    c.begin_scan();
    c.finish_scan(1, true, Err("x".into()), &Settings::default());
    assert_eq!(c.status, "queued");
    assert!(c.error.is_none());
}

#[test]
fn settings_copies_keep_model_options() {
    let mut s = Settings::default();
    s.model_options.push(ModelOption { model_id: "paddleocr-vl-1.6".into(), max_tokens: Some(4096), values: "{\"maxTokens\":4096}".into() });
    let c = s.duplicate();
    assert_eq!(c.model_options.len(), 1);
    assert_eq!(c.model_options[0].max_tokens, Some(4096));
    assert_eq!(c.model_id, "paddleocr-vl-1.6");
}

#[test]
fn scans_follow_document_order_once_per_page() {
    let mut s = Store::create("/d", "x");
    s.project.pages.push(page("a"));
    s.project.pages.push(page("b"));
    s.project.pages.push(page("c"));
    let a = s.project.pages[0].id.clone();
    let c = s.project.pages[2].id.clone();
    let order = s.scan_order(Some(vec![c.clone(), a.clone(), c.clone()])).unwrap();
    assert_eq!(order, [a.clone(), c.clone()]);
    assert_eq!(s.scan_order(None).unwrap().len(), 3);
    assert_eq!(s.scan_order(Some(vec!["nope".into()])).err().unwrap(), "페이지를 찾지 못했습니다.");
    assert_eq!(s.scan_order(Some(vec![])).err().unwrap(), "@i18n(noPages,)");
    let empty = Store::create("/d", "y");
    assert!(empty.scan_order(None).is_err());
}

#[test]
fn edits_are_bounded_and_removal_needs_a_known_page() {
    let mut s = Store::create("/d", "x");
    s.project.pages.push(page("a"));
    s.project.pages.push(page("b"));
    let a = s.project.pages[0].id.clone();
    assert_eq!(s.edit_page(&a, "x".repeat(4 * 1024 * 1024 + 1)).err().unwrap(), "@i18n(resultTooLarge,)");
    s.edit_page(&a, "# new".into()).unwrap();
    assert_eq!(s.project.pages[0].blocks[0].kind, "heading");
    assert!(s.edit_page("missing", "x".into()).is_err());
    assert!(s.remove_page("missing").is_err());
    s.remove_page(&a).unwrap();
    assert_eq!(s.project.pages.len(), 1);
    assert_eq!(s.project.pages[0].name, "b");
}

#[test]
fn an_ended_scan_leaves_no_page_in_recognition() {
    let mut s = Store::create("/d", "x");
    let mut p = page("a");
    p.status = "processing".into();
    p.raw_text = "kept".into();
    s.project.pages.push(p);
    s.project.pages.push(page("b"));
    s.project.requeue_processing();
    assert_eq!(s.project.pages[0].status, "queued");
    assert!(s.project.pages[0].warning.is_none());
    assert_eq!(s.project.pages[0].raw_text, "kept");
    assert_eq!(fastfileocr_core::store::scan_end(Ok(()), false), "@i18n(scanCompleted,)");
    assert_eq!(fastfileocr_core::store::scan_end(Err("boom".into()), false), "boom");
    assert_eq!(fastfileocr_core::store::scan_end(Err("boom".into()), true), "@i18n(scanCancelled,)");
}

#[test]
fn page_ids_are_hyphenated_version_four_uuids() {
    let p = page("a");
    let id: Vec<char> = p.id.chars().collect();
    assert_eq!(id.len(), 36);
    for (i, c) in id.iter().enumerate() {
        if [8, 13, 18, 23].contains(&i) {
            assert_eq!(*c, '-');
        } else {
            assert!(c.is_ascii_digit() || ('a'..='f').contains(c));
        }
    }
    assert_eq!(id[14], '4');
    assert!(['8', '9', 'a', 'b'].contains(&id[19]));
    assert_ne!(page("a").id, p.id);
}

#[test]
fn a_path_that_leads_out_through_a_link_is_refused() {
    assert!(confined(None, "/w").is_ok());
    assert!(confined(Some("/w/pages/a.jpg"), "/w").is_ok());
    assert!(confined(Some("/w"), "/w").is_ok());
    assert_eq!(confined(Some("/secret/a.jpg"), "/w").err().unwrap(), "프로젝트 밖의 파일에는 접근할 수 없습니다.");
    assert!(confined(Some("/wx/a.jpg"), "/w").is_err());
    assert!(confined(Some(r"C:\w\pages\a.jpg"), r"C:\w").is_ok());
}

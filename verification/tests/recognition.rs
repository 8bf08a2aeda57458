use fastfileocr_core::recognition::{is_skipped, no_regions, titled_markdown, whole_page, RegionTexts};
use fastfileocr_core::store::Region;

fn region(label: &str) -> Region {
    Region {
        id: "r".into(),
        order: 1,
        label: label.into(),
        bbox: [0, 0, 0, 0],
        confidence: 0,
        raw_text: String::new(),
        markdown: String::new(),
        ocr_mode: String::new(),
        status: "detected".into(),
        warning: None,
    }
}

#[test]
fn titles_become_headings_in_document_mode() {
    assert_eq!(titled_markdown("  Report ".into(), "document", "doc_title"), "# Report");
    assert_eq!(titled_markdown("Part".into(), "document", "paragraph_title"), "## Part");
    assert_eq!(titled_markdown("Body".into(), "document", "text"), "Body");
    assert_eq!(titled_markdown("Report".into(), "text", "doc_title"), "Report");
    assert_eq!(titled_markdown("   ".into(), "document", "doc_title"), "   ");
}

#[test]
fn region_answers_are_joined_and_blank_markdown_is_dropped() {
    let mut texts = RegionTexts::new();
    let mut a = region("text");
    let mut b = region("figure_caption");
    texts.record(&mut a, "raw a".into(), "A".into(), None, None);
    texts.record(&mut b, "raw b".into(), "  ".into(), None, Some("table".into()));
    assert_eq!(a.status, "done");
    assert_eq!(b.warning.as_deref(), Some("table"));
    let page = texts.finish(vec![a, b]);
    assert_eq!(page.raw, "raw a\n\nraw b");
    assert_eq!(page.markdown, "A");
    assert_eq!(page.warning.as_deref(), Some("@i18n(regionWarnings,)"));
    assert_eq!(page.regions.len(), 2);
}

#[test]
fn images_holding_text_are_skipped() {
    assert!(is_skipped("image", true));
    assert!(!is_skipped("image", false));
    assert!(!is_skipped("table", true));
    let mut r = region("image");
    r.skip();
    assert_eq!(r.status, "skipped");
}

#[test]
fn whole_page_warnings_prefer_the_engine() {
    let p = whole_page("r".into(), "m".into(), vec![], Some("engine".into()), Some("table".into()), Some(no_regions()));
    assert_eq!(p.warning.as_deref(), Some("engine"));
    let p = whole_page("r".into(), "m".into(), vec![], None, None, Some(no_regions()));
    assert_eq!(p.warning.as_deref(), Some("@i18n(noRegions,)"));
}

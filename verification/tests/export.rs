use fastfileocr_core::export::{render, save, Export};
use fastfileocr_core::store::{Page, Region, Settings, Store};

fn page(name: &str) -> Page {
    Page::new(name.into(), "sources/a.png".into(), 1, "pages/a.jpg".into(), "pages/a-thumb.jpg".into(), 100, 200)
}

fn text(e: Export) -> String {
    match e {
        Export::Text(t) => t,
        Export::Structured(_) => panic!("a text export"),
    }
}

#[test]
fn structured_export_records_incomplete_pages_and_raw_response() {
    let mut s = Store::create("/tmp", "test");
    let mut p = page("원본.png");
    p.raw_text = "# 원문".into();
    p.edit("# 편집".into());
    p.status = "done".into();
    s.project.pages.push(p);
    s.project.pages.push(page("다음.png"));
    let v = match render(&s.project, "json").unwrap() {
        Export::Structured(v) => v,
        Export::Text(_) => panic!("a structured export"),
    };
    assert_eq!(v.pages.len(), 2);
    assert_eq!(v.pages[0].raw_text, "# 원문");
    assert_eq!(v.pages[0].blocks[0].text, "편집");
    assert!(v.pages[1].blocks.is_empty());
    assert!(v.pages[0].regions.is_empty());
    assert!(v.pages[0].settings.is_none());
    assert_eq!(v.pages[0].text, "편집");
    assert_eq!(v.pages[0].markdown, "# 편집");
    assert_eq!(v.pages[1].status, "queued");
    assert!(!v.coordinates_available);
    assert_eq!(v.schema_version, 2);
    assert_eq!(v.project_name, "test");
}

#[test]
fn markdown_text_and_html_exports_skip_empty_pages() {
    let mut s = Store::create("/tmp", "A & <B>");
    let mut a = page("a");
    a.edit("# One\n\n- item".into());
    let mut b = page("b");
    b.edit("Two".into());
    let mut t = page("t");
    t.edit("raw *text*".into());
    let mut with = Settings::default();
    with.mode = "text".into();
    t.recognized_with = Some(with);
    s.project.pages.push(a);
    s.project.pages.push(page("empty"));
    s.project.pages.push(b);
    s.project.pages.push(t);
    assert_eq!(text(render(&s.project, "md").unwrap()), "# One\n\n- item\n\n---\n\nTwo\n\n---\n\nraw *text*");
    assert_eq!(text(render(&s.project, "txt").unwrap()), "One\n\nitem\n\n\u{c}\n\nTwo\n\n\u{c}\n\nraw *text*");
    let html = text(render(&s.project, "html").unwrap());
    assert!(html.contains("<title>A &amp; &lt;B&gt;</title>"));
    assert_eq!(html.matches("<section class=\"page\">").count(), 3);
    assert!(html.contains("Content-Security-Policy"));
}

#[test]
fn empty_projects_and_unknown_formats_are_refused() {
    let s = Store::create("/tmp", "x");
    assert_eq!(render(&s.project, "md").err().unwrap(), "@i18n(noExport,)");
    let mut s = Store::create("/tmp", "x");
    let mut a = page("a");
    a.edit("text".into());
    s.project.pages.push(a);
    assert_eq!(render(&s.project, "pdf").err().unwrap(), "@i18n(invalidExport,)");
}

#[test]
fn saving_requires_the_matching_extension() {
    let mut s = Store::create("/tmp", "x");
    let mut a = page("a");
    a.edit("text".into());
    s.project.pages.push(a);
    assert!(matches!(save(&s.project, "/out/Doc.MD", "md"), Ok(Export::Text(_))));
    let e = save(&s.project, "/out/doc.txt", "md").err().unwrap();
    assert!(e.starts_with("@i18n(exportExtension,"));
    assert!(save(&s.project, "/out/doc", "md").is_err());
}

#[test]
fn structured_export_marks_coordinates_and_region_text() {
    let mut s = Store::create("/tmp", "r");
    let mut p = page("a");
    p.edit("one\n\ntwo".into());
    let region = |order: usize, markdown: &str| Region {
        id: format!("r{order}"),
        order,
        label: "text".into(),
        bbox: [0, 0, 10, 10],
        confidence: 0,
        raw_text: markdown.into(),
        markdown: markdown.into(),
        ocr_mode: "text".into(),
        status: "done".into(),
        warning: None,
    };
    p.regions = vec![region(0, "one"), region(1, "  "), region(2, "two")];
    s.project.pages.push(p);
    let mut q = page("b");
    q.edit("other".into());
    q.regions = vec![region(0, "else")];
    let mut with = Settings::default();
    with.mode = "table".into();
    q.recognized_with = Some(with);
    s.project.pages.push(q);
    match render(&s.project, "json").unwrap() {
        Export::Structured(v) => {
            assert!(v.coordinates_available);
            assert_eq!(v.pages[0].regions.len(), 3);
            assert_eq!(v.pages[0].regions[2].bbox, [0, 0, 10, 10]);
            assert_eq!(v.pages[0].regions[2].order, 2);
            assert_eq!(v.pages[1].regions[0].markdown, "else");
            assert_eq!(v.pages[1].settings.as_ref().map(|x| x.mode.as_str()), Some("table"));
            assert!(v.pages[0].region_text_matches_document);
            assert!(!v.pages[1].region_text_matches_document);
        }
        Export::Text(_) => panic!("a structured export"),
    }
    s.project.settings.model_id = "other-model".into();
    assert!(render(&s.project, "json").is_err());
}

use fastfileocr_core::document::{blocks, blocks_of, plain_text, safe_html, MdEvent, TagKind};

#[test]
fn preserves_korean_table_and_order() {
    let b = blocks("# 견적서\n\n고객: 김진\n\n| 품목 | 금액 |\n| --- | --- |\n| 책 | 12,000 |\n\n- 첫째\n- 둘째\n");
    assert_eq!(
        b.iter().map(|x| x.kind.as_str()).collect::<Vec<_>>(),
        ["heading", "paragraph", "table", "list"]
    );
    assert_eq!(b[0].level, Some(1));
    assert_eq!(b[2].rows.as_ref().unwrap()[1], ["책", "12,000"]);
}

#[test]
fn code_symbols_and_jamo_are_not_decoded() {
    assert_eq!(
        plain_text("```js\nconst ㄱ = 'ㅅㅁ';\n```"),
        "const ㄱ = 'ㅅㅁ';"
    );
}

#[test]
fn untrusted_html_cannot_execute_or_load_images() {
    let html = safe_html("<script>alert(1)</script><img src='https://example.com/x'><p onclick='evil()'>hello</p>");
    assert!(!html.contains("<script"));
    assert!(!html.contains("<img"));
    assert!(!html.contains("onclick"));
}

#[test]
fn plain_text_separates_blocks_with_blank_lines() {
    assert_eq!(plain_text("# Title\n\nBody text\n\n---\n\nEnd"), "Title\n\nBody text\n\n\n\nEnd");
}

#[test]
fn table_rows_become_tab_separated_text() {
    let b = blocks("| a | b |\n| - | - |\n| 1 | 2 |\n");
    assert_eq!(b.len(), 1);
    assert_eq!(b[0].kind, "table");
    assert_eq!(b[0].text, "a\tb\t\n1\t2");
    assert!(b[0].cells.is_none());
}

#[test]
fn html_block_with_table_becomes_a_table_block() {
    let b = blocks("<table><tr><td colspan=\"2\">A</td></tr><tr><td>B</td><td>C</td></tr></table>\n");
    assert_eq!(b.len(), 1);
    assert_eq!(b[0].kind, "table");
    assert_eq!(b[0].text, "A\t\nB\tC");
    let cells = b[0].cells.as_ref().unwrap();
    assert_eq!(cells[0].column_span, 2);
    assert_eq!(b[0].rows.as_ref().unwrap()[1], ["B", "C"]);
}

#[test]
fn separator_and_heading_levels_are_kept() {
    let b = blocks("## Two\n\n---\n\n### Three\n");
    assert_eq!(b.len(), 3);
    assert_eq!(b[0].level, Some(2));
    assert_eq!(b[1].kind, "separator");
    assert_eq!(b[1].markdown, "---");
    assert_eq!(b[2].level, Some(3));
}

#[test]
fn code_math_and_breaks_count_as_text_and_footnotes_are_ignored() {
    let events = vec![
        MdEvent::Start(TagKind::Heading(1)),
        MdEvent::Text("T".into()),
        MdEvent::End(TagKind::Heading(1), "# T".into()),
        MdEvent::Start(TagKind::Paragraph),
        MdEvent::Code("x".into()),
        MdEvent::SoftBreak,
        MdEvent::InlineMath("y".into()),
        MdEvent::HardBreak,
        MdEvent::FootnoteReference("1".into()),
        MdEvent::DisplayMath("z".into()),
        MdEvent::End(TagKind::Paragraph, "`x`\n$y$".into()),
        MdEvent::Rule,
        MdEvent::InlineHtml("<br>".into()),
    ];
    let b = blocks_of(&events);
    assert_eq!(b.len(), 4);
    assert_eq!(b[0].kind, "heading");
    assert_eq!(b[0].level, Some(1));
    assert_eq!(b[0].text, "T");
    assert_eq!(b[1].kind, "paragraph");
    assert_eq!(b[1].text, "x\ny\nz");
    assert_eq!(b[1].markdown, "`x`\n$y$");
    assert_eq!(b[2].kind, "separator");
    assert_eq!(b[3].kind, "html");
    assert_eq!(b[3].text, "<br>");
}

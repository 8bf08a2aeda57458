use fastfileocr_core::table::{escape, html_cells, normalize, otsl_html};

#[test]
fn merged_cells_preserved_and_text_escaped() {
    let html = otsl_html("<fcel>A < B<lcel><fcel>C<nl><ucel><xcel><fcel>D<nl>").unwrap();
    let (rows, cells) = html_cells(&html).unwrap();
    assert_eq!(cells[0].column_span, 2);
    assert_eq!(cells[0].row_span, 2);
    assert_eq!(cells[0].text, "A < B");
    assert_eq!(rows[1][2], "D");
    assert!(html.contains("A &lt; B"));
}

#[test]
fn malformed_table_keeps_raw_instead_of_inventing_cells() {
    let raw = "<fcel>A<fcel>B<nl><fcel>C<nl>";
    let (text, warning) = normalize(raw, "table");
    assert!(text.contains(raw));
    assert!(warning.is_some());
    assert!(otsl_html("<lcel><nl>").is_err());
}

#[test]
fn missing_first_cell_marker_is_visible_and_warns() {
    let raw = "Item<fcel>Quantity<fcel>Amount<nl><fcel>Pen<fcel>3<fcel>3000<nl>";
    let (text, warning) = normalize(raw, "table");
    assert!(warning.is_some());
    assert!(text.starts_with("~~~text"));
    assert!(text.contains(raw));
}

#[test]
fn empty_and_unicode_cells_are_preserved() {
    let html = otsl_html("<fcel>품명<fcel>금액<nl><ecel><fcel>15,000원<nl>").unwrap();
    let (rows, _) = html_cells(&html).unwrap();
    assert_eq!(rows[1], ["", "15,000원"]);
}

#[test]
fn escape_replaces_the_four_markup_characters() {
    assert_eq!(escape("<a href=\"x\">&</a>"), "&lt;a href=&quot;x&quot;&gt;&amp;&lt;/a&gt;");
    assert_eq!(escape("plain"), "plain");
}

#[test]
fn text_outside_table_mode_is_untouched() {
    let raw = "<fcel>A<nl>";
    let (text, warning) = normalize(raw, "document");
    assert_eq!(text, raw);
    assert!(warning.is_none());
}

#[test]
fn decoded_cells_tile_the_grid_exactly() {
    let html = otsl_html("<fcel>A<lcel><fcel>B<nl><fcel>C<fcel>D<fcel>E<nl>").unwrap();
    let (rows, cells) = html_cells(&html).unwrap();
    let covered: usize = cells.iter().map(|c| c.row_span * c.column_span).sum();
    assert_eq!(covered, rows.len() * rows[0].len());
    assert_eq!(rows[0], ["A", "", "B"]);
}

//! Exports of a project as Markdown, plain text, sanitized HTML, or structured data.
use crate::document::{blocks_view, copy_blocks, document_text, Block, BlockView, join_texts, join_with, plain_text, safe_html, safe_markup};
use crate::i18n::{f, key_args_text, key_text, text};
use crate::store::{copy_regions, pages_view, regions_view, Page, Settings, SettingsView, PageView, Project, ProjectView, Region, RegionView};
use crate::strings::{chars_of, lowercase, same_text, to_lower, trim, trimmed};
use crate::table::{escape, escape_text, texts_of};
use vstd::prelude::*;

verus! {

/// One page of the structured export: the page's fields, its blocks, the settings it
/// was recognized with and its regions with their coordinates, reading order and
/// texts, and what the export computes of it.
pub struct StructuredPage {
    pub id: String,
    pub source_name: String,
    pub source_page: u32,
    pub width: u32,
    pub height: u32,
    pub status: String,
    pub raw_text: String,
    pub markdown: String,
    pub text: String,
    pub blocks: Vec<Block>,
    pub settings: Option<Settings>,
    pub regions: Vec<Region>,
    pub region_text_matches_document: bool,
    pub warning: Option<String>,
    pub error: Option<String>,
    pub elapsed_ms: u64,
}

/// A structured page as values.
pub struct StructuredPageView {
    pub id: Seq<char>,
    pub source_name: Seq<char>,
    pub source_page: u32,
    pub width: u32,
    pub height: u32,
    pub status: Seq<char>,
    pub raw_text: Seq<char>,
    pub markdown: Seq<char>,
    pub text: Seq<char>,
    pub blocks: Seq<BlockView>,
    pub settings: Option<SettingsView>,
    pub regions: Seq<RegionView>,
    pub region_text_matches_document: bool,
    pub warning: Option<Seq<char>>,
    pub error: Option<Seq<char>>,
    pub elapsed_ms: u64,
}

impl View for StructuredPage {
    type V = StructuredPageView;

    open spec fn view(&self) -> StructuredPageView {
        StructuredPageView {
            id: self.id@,
            source_name: self.source_name@,
            source_page: self.source_page,
            width: self.width,
            height: self.height,
            status: self.status@,
            raw_text: self.raw_text@,
            markdown: self.markdown@,
            text: self.text@,
            blocks: blocks_view(self.blocks@),
            settings: match self.settings {
                Some(x) => Some(x@),
                None => None,
            },
            regions: regions_view(self.regions@),
            region_text_matches_document: self.region_text_matches_document,
            warning: crate::download::opt_view(self.warning),
            error: crate::download::opt_view(self.error),
            elapsed_ms: self.elapsed_ms,
        }
    }
}

/// The structured export of a project: every page, recognized or not, in order.
pub struct Structured {
    pub schema_version: u32,
    pub model_id: String,
    pub project_id: String,
    pub project_name: String,
    pub updated_at: u64,
    pub coordinates_available: bool,
    pub pages: Vec<StructuredPage>,
}

/// The structured export as values.
pub struct StructuredView {
    pub schema_version: u32,
    pub model_id: Seq<char>,
    pub project_id: Seq<char>,
    pub project_name: Seq<char>,
    pub updated_at: u64,
    pub coordinates_available: bool,
    pub pages: Seq<StructuredPageView>,
}

impl View for Structured {
    type V = StructuredView;

    open spec fn view(&self) -> StructuredView {
        StructuredView {
            schema_version: self.schema_version,
            model_id: self.model_id@,
            project_id: self.project_id@,
            project_name: self.project_name@,
            updated_at: self.updated_at,
            coordinates_available: self.coordinates_available,
            pages: structured_views(self.pages@),
        }
    }
}

/// Structured pages as values.
pub open spec fn structured_views(pages: Seq<StructuredPage>) -> Seq<StructuredPageView> {
    pages.map_values(|q: StructuredPage| q@)
}

/// The structured pages of project pages.
pub open spec fn structured_pages(pages: Seq<PageView>) -> Seq<StructuredPageView> {
    pages.map_values(|q: PageView| structured_page(q))
}

/// What an export consists of.
pub enum Export {
    /// The project as structured data, which the caller serializes.
    Structured(Structured),
    /// The exported text.
    Text(String),
}

/// An export as values.
pub enum ExportView {
    Structured(StructuredView),
    Text(Seq<char>),
}

/// An export as values.
pub open spec fn export_view(e: Export) -> ExportView {
    match e {
        Export::Structured(x) => ExportView::Structured(x@),
        Export::Text(t) => ExportView::Text(t@),
    }
}

/// The Markdown of the regions that hold any, in order.
pub open spec fn region_texts(regions: Seq<RegionView>) -> Seq<Seq<char>>
    decreases regions.len(),
{
    if regions.len() == 0 {
        Seq::empty()
    } else {
        let earlier = region_texts(regions.drop_last());
        if trim(regions.last().markdown).len() > 0 {
            earlier.push(regions.last().markdown)
        } else {
            earlier
        }
    }
}

/// A page in the structured export: its fields, blocks, settings and regions, its
/// plain text, and whether the
/// Markdown of its regions, joined by blank lines, is its document.
pub open spec fn structured_page(p: PageView) -> StructuredPageView {
    StructuredPageView {
        id: p.id,
        source_name: p.name,
        source_page: p.source_page,
        width: p.width,
        height: p.height,
        status: p.status,
        raw_text: p.raw_text,
        markdown: p.markdown,
        text: page_text(p),
        blocks: p.blocks,
        settings: p.recognized_with,
        regions: p.regions,
        region_text_matches_document: join_with(region_texts(p.regions), "\n\n"@) == p.markdown,
        warning: p.warning,
        error: p.error,
        elapsed_ms: p.elapsed_ms,
    }
}

/// The structured export of a project: schema 2, the project's model, id, name and
/// time of change, whether any page has regions, and every page.
pub open spec fn structured(p: ProjectView) -> StructuredView {
    StructuredView {
        schema_version: 2,
        model_id: p.settings.model_id,
        project_id: p.id,
        project_name: p.name,
        updated_at: p.updated_at,
        coordinates_available: exists|i: int| 0 <= i < p.pages.len() && #[trigger] p.pages[i].regions.len() > 0,
        pages: structured_pages(p.pages),
    }
}

/// Whether a page was recognized in text mode, whose output is plain text already.
pub open spec fn text_mode(p: PageView) -> bool {
    p.recognized_with matches Some(s) && s.mode == "text"@
}

/// The plain text of a page.
pub open spec fn page_text(p: PageView) -> Seq<char> {
    if text_mode(p) {
        p.markdown
    } else {
        document_text(p.markdown)
    }
}

/// One value per page that has Markdown, in page order.
pub open spec fn per_page(pages: Seq<PageView>, value: spec_fn(PageView) -> Seq<char>) -> Seq<Seq<char>>
    decreases pages.len(),
{
    if pages.len() == 0 {
        Seq::empty()
    } else {
        let earlier = per_page(pages.drop_last(), value);
        if pages.last().markdown.len() > 0 {
            earlier.push(value(pages.last()))
        } else {
            earlier
        }
    }
}

/// A page's section of the HTML export.
pub open spec fn section(p: PageView) -> Seq<char> {
    "<section class=\"page\">"@ + safe_markup(p.markdown) + "</section>"@
}

/// The HTML document before the title.
pub open spec fn html_head() -> Seq<char> {
    "<!doctype html><html><meta charset=\"utf-8\"><meta name=\"viewport\" content=\"width=device-width,initial-scale=1\"><meta http-equiv=\"Content-Security-Policy\" content=\"default-src 'none'; style-src 'unsafe-inline'\"><title>"@
}

/// The HTML document between the title and the sections.
pub open spec fn html_style() -> Seq<char> {
    "</title><style>body{max-width:900px;margin:48px auto;padding:0 24px;font:16px/1.8 system-ui;color:#243e59}table{border-collapse:collapse;width:100%}td,th{border:1px solid #d4e3f2;padding:8px;text-align:left}pre{white-space:pre-wrap;background:#f2f7fd;padding:16px}.page{break-after:page;margin-bottom:64px}@media print{body{margin:0}}</style><body>"@
}

/// The HTML document after the sections.
pub open spec fn html_tail() -> Seq<char> {
    "</body></html>"@
}

/// What exporting a project in a format gives: structured data for `json` (an error
/// when the project's model is unknown); an error
/// when no page has Markdown; otherwise the pages with Markdown, joined by rules in
/// Markdown, by form feeds in plain text, or as sanitized sections of one HTML page
/// titled with the escaped project name; an error for any other format.
pub open spec fn rendered(p: ProjectView, format: Seq<char>) -> Result<ExportView, Seq<char>> {
    if format == "json"@ {
        if p.settings.model_id == crate::models::default_model_text() {
            Ok(ExportView::Structured(structured(p)))
        } else {
            Err(crate::models::unknown_model())
        }
    } else if per_page(p.pages, |q: PageView| q.markdown).len() == 0 {
        Err(key_text("noExport"@))
    } else if format == "md"@ {
        Ok(ExportView::Text(join_with(per_page(p.pages, |q: PageView| q.markdown), "\n\n---\n\n"@)))
    } else if format == "txt"@ {
        Ok(ExportView::Text(join_with(per_page(p.pages, |q: PageView| page_text(q)), "\n\n\u{c}\n\n"@)))
    } else if format == "html"@ {
        Ok(
            ExportView::Text(
                html_head() + escape_text(p.name) + html_style() + join_with(
                    per_page(p.pages, |q: PageView| section(q)),
                    "\n"@,
                ) + html_tail(),
            ),
        )
    } else {
        Err(key_text("invalidExport"@))
    }
}

/// The plain text of a page.
pub fn text_of_page(p: &Page) -> (r: String)
    ensures
        r@ == page_text(p@),
{
    let text = match &p.recognized_with {
        Some(s) => same_text(s.mode.as_str(), "text"),
        None => false,
    };
    if text {
        p.markdown.clone()
    } else {
        plain_text(p.markdown.as_str())
    }
}

/// One text per page with Markdown: its Markdown (`kind` 0), its plain text (1) or
/// its HTML section (2).
fn collect(pages: &Vec<Page>, kind: u8) -> (r: Vec<String>)
    requires
        kind < 3,
    ensures
        kind == 0 ==> texts_of(r@) == per_page(pages_view(pages@), |q: PageView| q.markdown),
        kind == 1 ==> texts_of(r@) == per_page(pages_view(pages@), |q: PageView| page_text(q)),
        kind == 2 ==> texts_of(r@) == per_page(pages_view(pages@), |q: PageView| section(q)),
{
    let ghost all = pages_view(pages@);
    let ghost value = if kind == 0 {
        |q: PageView| q.markdown
    } else if kind == 1 {
        |q: PageView| page_text(q)
    } else {
        |q: PageView| section(q)
    };
    let mut r: Vec<String> = Vec::new();
    let mut i: usize = 0;
    while i < pages.len()
        invariant
            all == pages_view(pages@),
            kind < 3,
            value == (if kind == 0 {
                |q: PageView| q.markdown
            } else if kind == 1 {
                |q: PageView| page_text(q)
            } else {
                |q: PageView| section(q)
            }),
            i <= pages.len(),
            texts_of(r@) == per_page(all.take(i as int), value),
        decreases pages.len() - i,
    {
        let p = &pages[i];
        assert(all.take(i + 1).drop_last() =~= all.take(i as int));
        assert(all.take(i + 1).last() == p@);
        if chars_of(p.markdown.as_str()).len() > 0 {
            let t = if kind == 0 {
                p.markdown.clone()
            } else if kind == 1 {
                text_of_page(p)
            } else {
                let mut s = "<section class=\"page\">".to_string();
                s.append(safe_html(p.markdown.as_str()).as_str());
                s.append("</section>");
                s
            };
            let ghost before = r@;
            r.push(t);
            assert(texts_of(r@) =~= texts_of(before).push(t@));
        }
        i += 1;
    }
    assert(all.take(pages.len() as int) =~= all);
    r
}

/// The Markdown of the regions that hold any, in order.
fn region_markdown(regions: &Vec<Region>) -> (r: Vec<String>)
    ensures
        texts_of(r@) == region_texts(regions_view(regions@)),
{
    let ghost all = regions_view(regions@);
    let mut r: Vec<String> = Vec::new();
    let mut i: usize = 0;
    while i < regions.len()
        invariant
            all == regions_view(regions@),
            i <= regions.len(),
            texts_of(r@) == region_texts(all.take(i as int)),
        decreases regions.len() - i,
    {
        let q = &regions[i];
        assert(all.take(i + 1).drop_last() =~= all.take(i as int));
        assert(all.take(i + 1).last() == q@);
        let t = trimmed(q.markdown.as_str());
        if chars_of(t.as_str()).len() > 0 {
            let ghost before = r@;
            r.push(q.markdown.clone());
            assert(texts_of(r@) =~= texts_of(before).push(q.markdown@));
        }
        i += 1;
    }
    assert(all.take(regions.len() as int) =~= all);
    r
}

/// A page in the structured export.
pub fn structure_page(p: &Page) -> (r: StructuredPage)
    ensures
        r@ == structured_page(p@),
{
    let joined = join_texts(&region_markdown(&p.regions), "\n\n");
    StructuredPage {
        id: p.id.clone(),
        source_name: p.name.clone(),
        source_page: p.source_page,
        width: p.width,
        height: p.height,
        status: p.status.clone(),
        raw_text: p.raw_text.clone(),
        markdown: p.markdown.clone(),
        text: text_of_page(p),
        blocks: copy_blocks(&p.blocks),
        settings: match &p.recognized_with {
            Some(x) => Some(x.duplicate()),
            None => None,
        },
        regions: copy_regions(&p.regions),
        region_text_matches_document: same_text(joined.as_str(), p.markdown.as_str()),
        warning: crate::download::clone_opt(&p.warning),
        error: crate::download::clone_opt(&p.error),
        elapsed_ms: p.elapsed_ms,
    }
}

/// The structured export of a project.
pub fn structure(project: &Project) -> (r: Structured)
    ensures
        r@ == structured(project@),
{
    let ghost all = pages_view(project.pages@);
    let mut pages: Vec<StructuredPage> = Vec::new();
    let mut any = false;
    let mut i: usize = 0;
    while i < project.pages.len()
        invariant
            all == pages_view(project.pages@),
            i <= project.pages.len(),
            pages.len() == i,
            structured_views(pages@) == structured_pages(all.take(i as int)),
            any == exists|j: int| 0 <= j < i && #[trigger] all[j].regions.len() > 0,
        decreases project.pages.len() - i,
    {
        let p = &project.pages[i];
        assert(all[i as int] == p@);
        if p.regions.len() > 0 {
            any = true;
        }
        let ghost before = pages@;
        let sp = structure_page(p);
        pages.push(sp);
        assert forall|k: int| 0 <= k < i + 1 implies #[trigger] structured_views(pages@)[k]
            == structured_pages(all.take(i + 1))[k] by {
            if k < i {
                assert(pages@[k] == before[k]);
                assert(structured_views(before)[k] == structured_pages(all.take(i as int))[k]);
            }
        }
        assert(structured_views(pages@) =~= structured_pages(all.take(i + 1)));
        i += 1;
    }
    assert(all.take(project.pages.len() as int) =~= all);
    Structured {
        schema_version: 2,
        model_id: project.settings.model_id.clone(),
        project_id: project.id.clone(),
        project_name: project.name.clone(),
        updated_at: project.updated_at,
        coordinates_available: any,
        pages,
    }
}

/// A project exported in a format.
pub fn render(project: &Project, format: &str) -> (r: Result<Export, String>)
    ensures
        match rendered(project@, format@) {
            Ok(e) => r matches Ok(x) && export_view(x) == e,
            Err(e) => r matches Err(m) && m@ == e,
        },
{
    if same_text(format, "json") {
        return match crate::models::get(project.settings.model_id.as_str()) {
            Err(e) => Err(e),
            Ok(_) => Ok(Export::Structured(structure(project))),
        };
    }
    let markdowns = collect(&project.pages, 0);
    if markdowns.len() == 0 {
        return Err(text("noExport"));
    }
    if same_text(format, "md") {
        Ok(Export::Text(join_texts(&markdowns, "\n\n---\n\n")))
    } else if same_text(format, "txt") {
        let texts = collect(&project.pages, 1);
        Ok(Export::Text(join_texts(&texts, "\n\n\u{c}\n\n")))
    } else if same_text(format, "html") {
        let sections = collect(&project.pages, 2);
        let mut out = "<!doctype html><html><meta charset=\"utf-8\"><meta name=\"viewport\" content=\"width=device-width,initial-scale=1\"><meta http-equiv=\"Content-Security-Policy\" content=\"default-src 'none'; style-src 'unsafe-inline'\"><title>".to_string();
        out.append(escape(project.name.as_str()).as_str());
        out.append("</title><style>body{max-width:900px;margin:48px auto;padding:0 24px;font:16px/1.8 system-ui;color:#243e59}table{border-collapse:collapse;width:100%}td,th{border:1px solid #d4e3f2;padding:8px;text-align:left}pre{white-space:pre-wrap;background:#f2f7fd;padding:16px}.page{break-after:page;margin-bottom:64px}@media print{body{margin:0}}</style><body>");
        out.append(join_texts(&sections, "\n").as_str());
        out.append("</body></html>");
        Ok(Export::Text(out))
    } else {
        Err(text("invalidExport"))
    }
}

/// The extension of a path's file name, as `std::path::Path::extension` finds it.
pub uninterp spec fn path_extension(path: Seq<char>) -> Option<Seq<char>>;

/// `Path::extension` on a path given as text; the result is named, not described.
#[verifier::external_body]
fn extension_of(path: &str) -> (r: Option<String>)
    ensures
        crate::download::opt_view(r) == path_extension(path@),
{
    std::path::Path::new(path).extension().and_then(|x| x.to_str()).map(|x| x.to_string())
}

/// Whether a path's extension, in lower case, is the format's name.
pub open spec fn extension_fits(path: Seq<char>, format: Seq<char>) -> bool {
    path_extension(path) matches Some(x) && lowercase(x) == format
}

/// The text to write to a path when exporting a project in a format: the path's
/// extension must name the format, and the export must succeed.
pub fn save(project: &Project, path: &str, format: &str) -> (r: Result<Export, String>)
    ensures
        !extension_fits(path@, format@) ==> (r matches Err(e) && e@ == key_args_text(
            "exportExtension"@,
            seq![format@],
        )),
        extension_fits(path@, format@) ==> match rendered(project@, format@) {
            Ok(e) => r matches Ok(x) && export_view(x) == e,
            Err(e) => r matches Err(m) && m@ == e,
        },
{
    let fits = match extension_of(path) {
        Some(x) => same_text(to_lower(x.as_str()).as_str(), format),
        None => false,
    };
    if !fits {
        let mut args: Vec<String> = Vec::new();
        args.push(format.to_string());
        assert(args@.map_values(|s: String| s@) =~= seq![format@]);
        return Err(f("exportExtension", args.as_slice()));
    }
    render(project, format)
}

} // verus!

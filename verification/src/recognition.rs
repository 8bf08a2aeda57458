//! What a page's recognition yields, and how the answers for its regions are put
//! together into the page's text.
use crate::document::{join_texts, join_with};
use crate::download::opt_view;
use crate::i18n::{key_text, text};
use crate::store::{regions_view, Region, RegionView};
use crate::strings::{chars_of, same_text, trim, trimmed};
use crate::table::texts_of;
use vstd::prelude::*;

verus! {

/// The result of recognizing one page.
pub struct PageRecognition {
    pub raw: String,
    pub markdown: String,
    pub regions: Vec<Region>,
    pub warning: Option<String>,
}

/// A page's recognition as values.
pub struct PageRecognitionView {
    pub raw: Seq<char>,
    pub markdown: Seq<char>,
    pub regions: Seq<RegionView>,
    pub warning: Option<Seq<char>>,
}

impl View for PageRecognition {
    type V = PageRecognitionView;

    open spec fn view(&self) -> PageRecognitionView {
        PageRecognitionView {
            raw: self.raw@,
            markdown: self.markdown@,
            regions: regions_view(self.regions@),
            warning: opt_view(self.warning),
        }
    }
}

/// Whether a region is left out: an image that holds a region of another kind, whose
/// text is read there.
pub open spec fn skipped(label: Seq<char>, holds_other: bool) -> bool {
    label == "image"@ && holds_other
}

/// Whether an image region is left out.
pub fn is_skipped(label: &str, holds_other: bool) -> (r: bool)
    ensures
        r == skipped(label@, holds_other),
{
    holds_other && same_text(label, "image")
}

/// A region's Markdown in document mode: a document title becomes a level-one
/// heading and a section title a level-two heading. Blank text stays as it is.
pub open spec fn titled(normalized: Seq<char>, selected: Seq<char>, label: Seq<char>) -> Seq<char> {
    if selected == "document"@ && trim(normalized).len() > 0 {
        if label == "doc_title"@ {
            "# "@ + trim(normalized)
        } else if label == "paragraph_title"@ {
            "## "@ + trim(normalized)
        } else {
            normalized
        }
    } else {
        normalized
    }
}

/// A region's Markdown with its heading marker.
pub fn titled_markdown(normalized: String, selected: &str, label: &str) -> (r: String)
    ensures
        r@ == titled(normalized@, selected@, label@),
{
    let t = trimmed(normalized.as_str());
    if same_text(selected, "document") && chars_of(t.as_str()).len() > 0 {
        if same_text(label, "doc_title") {
            let mut r = "# ".to_string();
            r.append(t.as_str());
            return r;
        } else if same_text(label, "paragraph_title") {
            let mut r = "## ".to_string();
            r.append(t.as_str());
            return r;
        }
    }
    normalized
}

/// The first of two optional values that is present.
pub open spec fn either<T>(a: Option<T>, b: Option<T>) -> Option<T> {
    match a {
        Some(x) => Some(x),
        None => b,
    }
}

/// The texts gathered while the regions of a page are read.
pub struct RegionTexts {
    pub raw: Vec<String>,
    pub markdown: Vec<String>,
    pub warning: Option<String>,
}

/// Gathered texts as values.
pub struct RegionTextsView {
    pub raw: Seq<Seq<char>>,
    pub markdown: Seq<Seq<char>>,
    pub warning: Option<Seq<char>>,
}

impl View for RegionTexts {
    type V = RegionTextsView;

    open spec fn view(&self) -> RegionTextsView {
        RegionTextsView {
            raw: texts_of(self.raw@),
            markdown: texts_of(self.markdown@),
            warning: opt_view(self.warning),
        }
    }
}

/// A region after it was read: its answer, its Markdown and its notice.
pub open spec fn read_region(r: RegionView, raw: Seq<char>, markdown: Seq<char>, notice: Option<
    Seq<char>,
>) -> RegionView {
    RegionView { raw_text: raw, markdown, status: "done"@, warning: notice, ..r }
}

/// The gathered texts after one more region was read: every answer is kept, blank
/// Markdown is not, and any notice marks the page.
pub open spec fn gathered(t: RegionTextsView, raw: Seq<char>, markdown: Seq<char>, notice: Option<
    Seq<char>,
>) -> RegionTextsView {
    RegionTextsView {
        raw: t.raw.push(raw),
        markdown: if trim(markdown).len() > 0 {
            t.markdown.push(markdown)
        } else {
            t.markdown
        },
        warning: if notice is Some {
            Some(key_text("regionWarnings"@))
        } else {
            t.warning
        },
    }
}

/// Recording a region appends, in reading order: the answers keep every earlier
/// answer in place and end with the new one; the Markdown keeps every earlier entry in
/// place and ends with the new Markdown when it is not blank, and is unchanged when it
/// is blank.
pub proof fn lemma_recording_appends_in_reading_order(
    t: RegionTextsView,
    raw: Seq<char>,
    markdown: Seq<char>,
    notice: Option<Seq<char>>,
)
    ensures
        ({
            let g = gathered(t, raw, markdown, notice);
            &&& g.raw.len() == t.raw.len() + 1
            &&& g.raw.take(t.raw.len() as int) == t.raw
            &&& g.raw[t.raw.len() as int] == raw
            &&& trim(markdown).len() > 0 ==> g.markdown.len() == t.markdown.len() + 1
                && g.markdown.take(t.markdown.len() as int) == t.markdown
                && g.markdown[t.markdown.len() as int] == markdown
            &&& trim(markdown).len() == 0 ==> g.markdown == t.markdown
        }),
{
    let g = gathered(t, raw, markdown, notice);
    assert(g.raw.take(t.raw.len() as int) =~= t.raw);
    if trim(markdown).len() > 0 {
        assert(g.markdown.take(t.markdown.len() as int) =~= t.markdown);
    }
}

/// Two regions read one after the other, starting from nothing, give their non-blank
/// Markdown in that order and their answers in that order.
pub proof fn lemma_two_regions_keep_their_order(
    raw_a: Seq<char>,
    markdown_a: Seq<char>,
    raw_b: Seq<char>,
    markdown_b: Seq<char>,
    notice_a: Option<Seq<char>>,
    notice_b: Option<Seq<char>>,
)
    requires
        trim(markdown_a).len() > 0,
        trim(markdown_b).len() > 0,
    ensures
        ({
            let start = RegionTextsView { raw: Seq::empty(), markdown: Seq::empty(), warning: None };
            let g = gathered(gathered(start, raw_a, markdown_a, notice_a), raw_b, markdown_b, notice_b);
            g.markdown == seq![markdown_a, markdown_b] && g.raw == seq![raw_a, raw_b]
        }),
{
    let start = RegionTextsView { raw: Seq::empty(), markdown: Seq::empty(), warning: None };
    let g1 = gathered(start, raw_a, markdown_a, notice_a);
    let g = gathered(g1, raw_b, markdown_b, notice_b);
    assert(g.markdown =~= seq![markdown_a, markdown_b]);
    assert(g.raw =~= seq![raw_a, raw_b]);
}

impl RegionTexts {
    /// Nothing gathered yet.
    pub fn new() -> (r: RegionTexts)
        ensures
            r@ == (RegionTextsView { raw: Seq::empty(), markdown: Seq::empty(), warning: None }),
    {
        let r = RegionTexts { raw: Vec::new(), markdown: Vec::new(), warning: None };
        assert(r@.raw =~= Seq::<Seq<char>>::empty());
        assert(r@.markdown =~= Seq::<Seq<char>>::empty());
        r
    }

    /// Records what was read for a region: the region keeps its answer, its Markdown
    /// and the first notice of the engine or the table cleaner.
    pub fn record(
        &mut self,
        region: &mut Region,
        raw: String,
        markdown: String,
        notice: Option<String>,
        table_notice: Option<String>,
    )
        ensures
            final(region)@ == read_region(
                old(region)@,
                raw@,
                markdown@,
                either(opt_view(notice), opt_view(table_notice)),
            ),
            final(self)@ == gathered(
                old(self)@,
                raw@,
                markdown@,
                either(opt_view(notice), opt_view(table_notice)),
            ),
    {
        let warning = match notice {
            Some(n) => Some(n),
            None => table_notice,
        };
        region.raw_text = raw.clone();
        region.markdown = markdown.clone();
        region.status = "done".to_string();
        let marked = warning.is_some();
        region.warning = warning;
        if marked {
            self.warning = Some(text("regionWarnings"));
        }
        let ghost before = self@;
        self.raw.push(raw);
        assert(self@.raw =~= before.raw.push(raw@));
        if chars_of(trimmed(markdown.as_str()).as_str()).len() > 0 {
            self.markdown.push(markdown);
            assert(self@.markdown =~= before.markdown.push(markdown@));
        }
    }

    /// The page's result from its regions: the answers and the Markdown, each joined
    /// by blank lines.
    pub fn finish(self, regions: Vec<Region>) -> (r: PageRecognition)
        ensures
            r@ == (PageRecognitionView {
                raw: join_with(self@.raw, "\n\n"@),
                markdown: join_with(self@.markdown, "\n\n"@),
                regions: regions_view(regions@),
                warning: self@.warning,
            }),
    {
        PageRecognition {
            raw: join_texts(&self.raw, "\n\n"),
            markdown: join_texts(&self.markdown, "\n\n"),
            regions,
            warning: self.warning,
        }
    }
}

impl Region {
    /// Marks a region as left out.
    pub fn skip(&mut self)
        ensures
            final(self)@ == (RegionView { status: "skipped"@, ..old(self)@ }),
    {
        self.status = "skipped".to_string();
    }
}

/// The result of reading the whole page at once: the engine's answer, the cleaned
/// Markdown, the regions as they are, and the first of the engine's notice, the
/// cleaner's notice and the earlier warning.
pub fn whole_page(
    raw: String,
    markdown: String,
    regions: Vec<Region>,
    notice: Option<String>,
    table_notice: Option<String>,
    warning: Option<String>,
) -> (r: PageRecognition)
    ensures
        r@ == (PageRecognitionView {
            raw: raw@,
            markdown: markdown@,
            regions: regions_view(regions@),
            warning: either(either(opt_view(notice), opt_view(table_notice)), opt_view(warning)),
        }),
{
    let first = match notice {
        Some(n) => Some(n),
        None => table_notice,
    };
    let w = match first {
        Some(n) => Some(n),
        None => warning,
    };
    PageRecognition { raw, markdown, regions, warning: w }
}

/// The warning of a page on which detection found no region.
pub fn no_regions() -> (r: String)
    ensures
        r@ == key_text("noRegions"@),
{
    text("noRegions")
}

} // verus!

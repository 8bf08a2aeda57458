//! Scan settings, pages and projects, with their validation and the rules that keep
//! a workspace consistent.
use crate::document::{blocks, blocks_view, document_blocks, Block, BlockView};
use crate::download::opt_view;
use crate::recognition::{PageRecognition, PageRecognitionView};
use crate::strings::{chars_of, same_text, trim, trimmed};
use vstd::prelude::*;

verus! {

/// A model's own option values, kept under its id: all of them as the interface sent
/// them (a JSON object, kept and written back as it is), and the token limit among
/// them, which is the one value the adapter reads.
pub struct ModelOption {
    pub model_id: String,
    pub max_tokens: Option<u64>,
    pub values: String,
}

/// A model option as values.
pub struct ModelOptionView {
    pub model_id: Seq<char>,
    pub max_tokens: Option<u64>,
    pub values: Seq<char>,
}

impl View for ModelOption {
    type V = ModelOptionView;

    open spec fn view(&self) -> ModelOptionView {
        ModelOptionView { model_id: self.model_id@, max_tokens: self.max_tokens, values: self.values@ }
    }
}

/// How pages are recognized.
pub struct Settings {
    pub mode: String,
    pub instructions: String,
    pub device: String,
    pub max_tokens: u32,
    pub use_layout: bool,
    pub model_id: String,
    pub model_options: Vec<ModelOption>,
}

/// Settings as values.
pub struct SettingsView {
    pub mode: Seq<char>,
    pub instructions: Seq<char>,
    pub device: Seq<char>,
    pub max_tokens: u32,
    pub use_layout: bool,
    pub model_id: Seq<char>,
    pub model_options: Seq<ModelOptionView>,
}

impl View for Settings {
    type V = SettingsView;

    open spec fn view(&self) -> SettingsView {
        SettingsView {
            mode: self.mode@,
            instructions: self.instructions@,
            device: self.device@,
            max_tokens: self.max_tokens,
            use_layout: self.use_layout,
            model_id: self.model_id@,
            model_options: self.model_options@.map_values(|o: ModelOption| o@),
        }
    }
}

/// The model that settings name when they name none.
pub open spec fn default_model_id() -> Seq<char> {
    "paddleocr-vl-1.6"@
}

/// Settings for a new project.
pub open spec fn default_settings() -> SettingsView {
    SettingsView {
        mode: "document"@,
        instructions: Seq::empty(),
        device: "auto"@,
        max_tokens: 8192,
        use_layout: false,
        model_id: default_model_id(),
        model_options: Seq::empty(),
    }
}

impl Default for Settings {
    fn default() -> (r: Self)
        ensures
            r@ == default_settings(),
    {
        let r = Settings {
            mode: "document".to_string(),
            instructions: String::new(),
            device: "auto".to_string(),
            max_tokens: 8192,
            use_layout: false,
            model_id: "paddleocr-vl-1.6".to_string(),
            model_options: Vec::new(),
        };
        assert(r@.model_options =~= Seq::<ModelOptionView>::empty());
        r
    }
}

/// The recognition modes.
pub open spec fn known_mode(mode: Seq<char>) -> bool {
    mode == "text"@ || mode == "document"@ || mode == "table"@ || mode == "formula"@ || mode
        == "comic"@
}

/// The devices a scan can ask for.
pub open spec fn known_device(device: Seq<char>) -> bool {
    device == "auto"@ || device == "cpu"@ || device == "vulkan"@ || device == "cuda"@
}

/// The first rule that settings break, if any.
pub open spec fn settings_error(s: SettingsView) -> Option<Seq<char>> {
    if !known_mode(s.mode) {
        Some("지원하지 않는 인식 모드입니다."@)
    } else if !known_device(s.device) {
        Some("지원하지 않는 장치입니다."@)
    } else if !(512 <= s.max_tokens <= 16384) {
        Some("출력 토큰은 512~16384여야 합니다."@)
    } else if s.instructions.len() > 4000 {
        Some("지침은 4,000자 이내로 입력하세요."@)
    } else {
        None
    }
}

/// The fixed opening of the prompt for a mode.
pub open spec fn base_prompt(mode: Seq<char>) -> Seq<char> {
    if mode == "comic"@ {
        "OCR:\nRead this comic page. Transcribe all visible speech balloons, narration boxes, captions and sound effects in panel reading order. Separate panels and speakers when visually clear. Preserve original language and punctuation. Do not describe the artwork, translate, invent names, or add dialogue. Follow any user-specified reading direction. Output Markdown."@
    } else if mode == "table"@ {
        "Table Recognition:"@
    } else if mode == "formula"@ {
        "Formula Recognition:"@
    } else if mode == "document"@ {
        "OCR:\nPreserve the document reading order, headings, paragraphs, lists and tables. Output Markdown. Transcribe visible text without translating or inventing content."@
    } else {
        "OCR:"@
    }
}

/// A prompt followed by the user's trimmed instructions on a line of their own, if any.
pub open spec fn with_instructions(base: Seq<char>, instructions: Seq<char>) -> Seq<char> {
    if trim(instructions).len() == 0 {
        base
    } else {
        base + "\n"@ + trim(instructions)
    }
}

/// Whether `s` is one of the recognition modes.
fn is_known_mode(s: &str) -> (r: bool)
    ensures
        r == known_mode(s@),
{
    same_text(s, "text") || same_text(s, "document") || same_text(s, "table") || same_text(
        s,
        "formula",
    ) || same_text(s, "comic")
}

/// Whether `s` is one of the devices.
fn is_known_device(s: &str) -> (r: bool)
    ensures
        r == known_device(s@),
{
    same_text(s, "auto") || same_text(s, "cpu") || same_text(s, "vulkan") || same_text(s, "cuda")
}

/// `base`, then the trimmed instructions on a new line when there are any.
pub fn join_instructions(base: &str, instructions: &str) -> (r: String)
    ensures
        r@ == with_instructions(base@, instructions@),
{
    let t = trimmed(instructions);
    let mut r = base.to_string();
    if chars_of(t.as_str()).len() > 0 {
        r.append("\n");
        r.append(t.as_str());
    }
    r
}

impl Settings {
    /// Rejects an unknown mode or device, a token limit outside 512..=16384, and
    /// instructions longer than 4,000 characters, in that order.
    pub fn validate(&self) -> (r: Result<(), String>)
        ensures
            match settings_error(self@) {
                None => r is Ok,
                Some(e) => r matches Err(m) && m@ == e,
            },
    {
        if !is_known_mode(self.mode.as_str()) {
            return Err("지원하지 않는 인식 모드입니다.".to_string());
        }
        if !is_known_device(self.device.as_str()) {
            return Err("지원하지 않는 장치입니다.".to_string());
        }
        if !(512 <= self.max_tokens && self.max_tokens <= 16384) {
            return Err("출력 토큰은 512~16384여야 합니다.".to_string());
        }
        if chars_of(self.instructions.as_str()).len() > 4000 {
            return Err("지침은 4,000자 이내로 입력하세요.".to_string());
        }
        Ok(())
    }

    /// The recognition prompt: the mode's opening, then the trimmed instructions.
    pub fn prompt(&self) -> (r: String)
        ensures
            r@ == with_instructions(base_prompt(self@.mode), self@.instructions),
    {
        let m = self.mode.as_str();
        let base = if same_text(m, "comic") {
            "OCR:\nRead this comic page. Transcribe all visible speech balloons, narration boxes, captions and sound effects in panel reading order. Separate panels and speakers when visually clear. Preserve original language and punctuation. Do not describe the artwork, translate, invent names, or add dialogue. Follow any user-specified reading direction. Output Markdown."
        } else if same_text(m, "table") {
            "Table Recognition:"
        } else if same_text(m, "formula") {
            "Formula Recognition:"
        } else if same_text(m, "document") {
            "OCR:\nPreserve the document reading order, headings, paragraphs, lists and tables. Output Markdown. Transcribe visible text without translating or inventing content."
        } else {
            "OCR:"
        };
        join_instructions(base, self.instructions.as_str())
    }
}

/// A copy of a model option.
fn copy_option(o: &ModelOption) -> (r: ModelOption)
    ensures
        r@ == o@,
{
    ModelOption { model_id: o.model_id.clone(), max_tokens: o.max_tokens, values: o.values.clone() }
}

impl Settings {
    /// A copy of the settings.
    pub fn duplicate(&self) -> (r: Settings)
        ensures
            r@ == self@,
    {
        let mut options: Vec<ModelOption> = Vec::new();
        let mut i: usize = 0;
        while i < self.model_options.len()
            invariant
                i <= self.model_options.len(),
                options.len() == i,
                forall|j: int| 0 <= j < i ==> #[trigger] options@[j]@ == self.model_options@[j]@,
            decreases self.model_options.len() - i,
        {
            options.push(copy_option(&self.model_options[i]));
            i += 1;
        }
        let r = Settings {
            mode: self.mode.clone(),
            instructions: self.instructions.clone(),
            device: self.device.clone(),
            max_tokens: self.max_tokens,
            use_layout: self.use_layout,
            model_id: self.model_id.clone(),
            model_options: options,
        };
        assert(r@.model_options =~= self@.model_options);
        r
    }
}

/// A region that layout detection found on a page. The box (left, top, right,
/// bottom, in page-image pixels) and the confidence are the bit patterns of 32-bit
/// floats; nothing here computes with them.
pub struct Region {
    pub id: String,
    pub order: usize,
    pub label: String,
    pub bbox: [u32; 4],
    pub confidence: u32,
    pub raw_text: String,
    pub markdown: String,
    pub ocr_mode: String,
    pub status: String,
    pub warning: Option<String>,
}

/// A region as values.
pub struct RegionView {
    pub id: Seq<char>,
    pub order: usize,
    pub label: Seq<char>,
    pub bbox: [u32; 4],
    pub confidence: u32,
    pub raw_text: Seq<char>,
    pub markdown: Seq<char>,
    pub ocr_mode: Seq<char>,
    pub status: Seq<char>,
    pub warning: Option<Seq<char>>,
}

impl View for Region {
    type V = RegionView;

    open spec fn view(&self) -> RegionView {
        RegionView {
            id: self.id@,
            order: self.order,
            label: self.label@,
            bbox: self.bbox,
            confidence: self.confidence,
            raw_text: self.raw_text@,
            markdown: self.markdown@,
            ocr_mode: self.ocr_mode@,
            status: self.status@,
            warning: opt_view(self.warning),
        }
    }
}

/// Regions as values.
pub open spec fn regions_view(regions: Seq<Region>) -> Seq<RegionView> {
    regions.map_values(|r: Region| r@)
}

/// A copy of a region.
pub fn copy_region(q: &Region) -> (r: Region)
    ensures
        r@ == q@,
{
    Region {
        id: q.id.clone(),
        order: q.order,
        label: q.label.clone(),
        bbox: q.bbox,
        confidence: q.confidence,
        raw_text: q.raw_text.clone(),
        markdown: q.markdown.clone(),
        ocr_mode: q.ocr_mode.clone(),
        status: q.status.clone(),
        warning: crate::download::clone_opt(&q.warning),
    }
}

/// A copy of regions.
pub fn copy_regions(regions: &Vec<Region>) -> (r: Vec<Region>)
    ensures
        regions_view(r@) == regions_view(regions@),
{
    let mut r: Vec<Region> = Vec::new();
    let mut i: usize = 0;
    while i < regions.len()
        invariant
            i <= regions.len(),
            r.len() == i,
            forall|j: int| 0 <= j < i ==> #[trigger] r@[j]@ == regions@[j]@,
        decreases regions.len() - i,
    {
        r.push(copy_region(&regions[i]));
        i += 1;
    }
    assert(regions_view(r@) =~= regions_view(regions@));
    r
}

/// One page of a project: its files, its recognition state and its text.
pub struct Page {
    pub id: String,
    pub name: String,
    pub source: String,
    pub source_page: u32,
    pub image: String,
    pub thumbnail: String,
    pub width: u32,
    pub height: u32,
    pub status: String,
    pub raw_text: String,
    pub markdown: String,
    pub blocks: Vec<Block>,
    pub error: Option<String>,
    pub warning: Option<String>,
    pub elapsed_ms: u64,
    pub recognized_with: Option<Settings>,
    pub regions: Vec<Region>,
}

/// A page as values.
pub struct PageView {
    pub id: Seq<char>,
    pub name: Seq<char>,
    pub source: Seq<char>,
    pub source_page: u32,
    pub image: Seq<char>,
    pub thumbnail: Seq<char>,
    pub width: u32,
    pub height: u32,
    pub status: Seq<char>,
    pub raw_text: Seq<char>,
    pub markdown: Seq<char>,
    pub blocks: Seq<BlockView>,
    pub error: Option<Seq<char>>,
    pub warning: Option<Seq<char>>,
    pub elapsed_ms: u64,
    pub recognized_with: Option<SettingsView>,
    pub regions: Seq<RegionView>,
}

impl View for Page {
    type V = PageView;

    open spec fn view(&self) -> PageView {
        PageView {
            id: self.id@,
            name: self.name@,
            source: self.source@,
            source_page: self.source_page,
            image: self.image@,
            thumbnail: self.thumbnail@,
            width: self.width,
            height: self.height,
            status: self.status@,
            raw_text: self.raw_text@,
            markdown: self.markdown@,
            blocks: blocks_view(self.blocks@),
            error: opt_view(self.error),
            warning: opt_view(self.warning),
            elapsed_ms: self.elapsed_ms,
            recognized_with: match self.recognized_with {
                Some(s) => Some(s@),
                None => None,
            },
            regions: regions_view(self.regions@),
        }
    }
}

/// Pages as values.
pub open spec fn pages_view(pages: Seq<Page>) -> Seq<PageView> {
    pages.map_values(|p: Page| p@)
}

/// A lower-case hexadecimal digit.
pub open spec fn lower_hex(c: char) -> bool {
    ('0' <= c && c <= '9') || ('a' <= c && c <= 'f')
}

/// A version-4 UUID written out: 36 characters, hyphens at 8, 13, 18 and 23, lower-case
/// hexadecimal digits elsewhere, the version digit `4` at 14 and the variant digit
/// (`8`, `9`, `a` or `b`) at 19.
pub open spec fn hyphenated_v4(s: Seq<char>) -> bool {
    &&& s.len() == 36
    &&& forall|i: int|
        0 <= i < 36 ==> if i == 8 || i == 13 || i == 18 || i == 23 {
            s[i] == '-'
        } else {
            lower_hex(#[trigger] s[i])
        }
    &&& s[14] == '4'
    &&& (s[19] == '8' || s[19] == '9' || s[19] == 'a' || s[19] == 'b')
}

/// A fresh identifier: `uuid::Uuid::new_v4` written by its `Display`, which the uuid
/// crate forms as the lower-case hyphenated text of 16 random bytes with the version
/// and variant bits set. Which bytes come is left open.
#[verifier::external_body]
pub fn id() -> (r: String)
    ensures
        hyphenated_v4(r@),
{
    uuid::Uuid::new_v4().to_string()
}

/// Milliseconds since the Unix epoch by the system clock, 0 if the clock is earlier.
#[verifier::external_body]
pub fn now() -> (r: u64) {
    std::time::SystemTime::now().duration_since(std::time::UNIX_EPOCH).unwrap_or_default().as_millis() as u64
}

impl Page {
    /// A queued page with a fresh id, no text, no blocks and no regions.
    pub fn new(
        name: String,
        source: String,
        source_page: u32,
        image: String,
        thumbnail: String,
        width: u32,
        height: u32,
    ) -> (r: Page)
        ensures
            hyphenated_v4(r@.id),
            r@.name == name@,
            r@.source == source@,
            r@.source_page == source_page,
            r@.image == image@,
            r@.thumbnail == thumbnail@,
            r@.width == width,
            r@.height == height,
            r@.status == "queued"@,
            r@.raw_text.len() == 0,
            r@.markdown.len() == 0,
            r@.blocks.len() == 0,
            r@.error is None,
            r@.warning is None,
            r@.elapsed_ms == 0,
            r@.recognized_with is None,
            r@.regions.len() == 0,
    {
        Page {
            id: id(),
            name,
            source,
            source_page,
            image,
            thumbnail,
            width,
            height,
            status: "queued".to_string(),
            raw_text: String::new(),
            markdown: String::new(),
            blocks: Vec::new(),
            error: None,
            warning: None,
            elapsed_ms: 0,
            recognized_with: None,
            regions: Vec::new(),
        }
    }

    /// Replaces the page's Markdown and splits it into blocks again; nothing else
    /// changes, the raw recognition output included.
    pub fn edit(&mut self, markdown: String)
        ensures
            final(self)@ == (PageView {
                markdown: markdown@,
                blocks: document_blocks(markdown@),
                ..old(self)@
            }),
    {
        self.blocks = blocks(markdown.as_str());
        self.markdown = markdown;
    }
}

/// A document: its settings and its pages, in order.
pub struct Project {
    pub schema_version: u32,
    pub id: String,
    pub name: String,
    pub created_at: u64,
    pub updated_at: u64,
    pub settings: Settings,
    pub pages: Vec<Page>,
}

/// A project as values.
pub struct ProjectView {
    pub schema_version: u32,
    pub id: Seq<char>,
    pub name: Seq<char>,
    pub created_at: u64,
    pub updated_at: u64,
    pub settings: SettingsView,
    pub pages: Seq<PageView>,
}

impl View for Project {
    type V = ProjectView;

    open spec fn view(&self) -> ProjectView {
        ProjectView {
            schema_version: self.schema_version,
            id: self.id@,
            name: self.name@,
            created_at: self.created_at,
            updated_at: self.updated_at,
            settings: self.settings@,
            pages: pages_view(self.pages@),
        }
    }
}

/// An open workspace: the directory it lives in and its project.
pub struct Store {
    pub root: String,
    pub project: Project,
}

/// A path separator on the platforms the application runs on.
pub open spec fn is_separator(c: char) -> bool {
    c == '/' || c == '\\'
}

/// Whether a `..` segment starts at `i`.
pub open spec fn parent_at(rel: Seq<char>, i: int) -> bool {
    &&& rel[i] == '.'
    &&& rel[i + 1] == '.'
    &&& (i == 0 || is_separator(rel[i - 1]))
    &&& (i + 2 == rel.len() || is_separator(rel[i + 2]))
}

/// An ASCII letter, the only character that can start a drive prefix.
pub open spec fn is_ascii_letter(c: char) -> bool {
    ('a' <= c && c <= 'z') || ('A' <= c && c <= 'Z')
}

/// Whether `rel` names a place below a directory: it is not empty, not rooted, has
/// no drive prefix (an ASCII letter and `:`), does not start with a `.` segment and
/// has no `..` segment.
pub open spec fn safe_relative(rel: Seq<char>) -> bool {
    &&& rel.len() > 0
    &&& !is_separator(rel[0])
    &&& !(rel.len() >= 2 && rel[1] == ':' && is_ascii_letter(rel[0]))
    &&& !(rel[0] == '.' && (rel.len() == 1 || is_separator(rel[1])))
    &&& forall|i: int| 0 <= i && i + 2 <= rel.len() ==> !#[trigger] parent_at(rel, i)
}

/// `rel` below `root`, as `Path::join` writes it with `/`.
pub open spec fn join_path(root: Seq<char>, rel: Seq<char>) -> Seq<char> {
    if root.len() == 0 || is_separator(root.last()) {
        root + rel
    } else {
        root + "/"@ + rel
    }
}

/// The message for a path that leaves its workspace.
pub open spec fn outside_message() -> Seq<char> {
    "프로젝트 내부 경로가 올바르지 않습니다."@
}

fn separator(c: char) -> (r: bool)
    ensures
        r == is_separator(c),
{
    c == '/' || c == '\\'
}

/// Whether `rel` is a safe relative path.
pub fn is_safe_relative(rel: &str) -> (r: bool)
    ensures
        r == safe_relative(rel@),
{
    let v = chars_of(rel);
    let n = v.len();
    if n == 0 || separator(v[0]) || (n >= 2 && v[1] == ':' && (('a' <= v[0] && v[0] <= 'z') || (
    'A' <= v[0] && v[0] <= 'Z'))) || (v[0] == '.' && (n == 1 || separator(
        v[1],
    ))) {
        return false;
    }
    let mut i: usize = 0;
    while n >= 2 && i <= n - 2
        invariant
            v@ == rel@,
            n == v.len(),
            forall|j: int| 0 <= j < i && j + 2 <= n ==> !#[trigger] parent_at(v@, j),
        decreases n - i,
    {
        if v[i] == '.' && v[i + 1] == '.' && (i == 0 || separator(v[i - 1])) && (i + 2 == n
            || separator(v[i + 2])) {
            assert(parent_at(v@, i as int));
            return false;
        }
        i += 1;
    }
    true
}

/// Whether a path has a `..` segment.
pub open spec fn has_parent_segment(path: Seq<char>) -> bool {
    exists|i: int| 0 <= i && i + 2 <= path.len() && #[trigger] parent_at(path, i)
}

/// Whether a path has a `..` segment.
pub fn parent_segment(path: &str) -> (r: bool)
    ensures
        r == has_parent_segment(path@),
{
    let v = chars_of(path);
    let n = v.len();
    let mut i: usize = 0;
    while n >= 2 && i <= n - 2
        invariant
            v@ == path@,
            n == v.len(),
            forall|j: int| 0 <= j < i && j + 2 <= n ==> !#[trigger] parent_at(v@, j),
        decreases n - i,
    {
        if v[i] == '.' && v[i + 1] == '.' && (i == 0 || separator(v[i - 1])) && (i + 2 == n
            || separator(v[i + 2])) {
            assert(parent_at(v@, i as int));
            return true;
        }
        i += 1;
    }
    false
}

/// `rel` below `root`.
pub fn join(root: &str, rel: &str) -> (r: String)
    ensures
        r@ == join_path(root@, rel@),
{
    let v = chars_of(root);
    let mut r = root.to_string();
    if v.len() > 0 && !separator(v[v.len() - 1]) {
        r.append("/");
    }
    r.append(rel);
    r
}

/// A path of the workspace, checked to stay inside it: `rel` must be a safe relative
/// path, and then the answer is `rel` below `root`.
pub fn inside(root: &str, relative: &str) -> (r: Result<String, String>)
    ensures
        safe_relative(relative@) ==> (r matches Ok(p) && p@ == join_path(root@, relative@)),
        !safe_relative(relative@) ==> (r matches Err(e) && e@ == outside_message()),
{
    if is_safe_relative(relative) {
        Ok(join(root, relative))
    } else {
        Err("프로젝트 내부 경로가 올바르지 않습니다.".to_string())
    }
}

/// The message for a path that leads out of its workspace through a link.
pub open spec fn escape_message() -> Seq<char> {
    "프로젝트 밖의 파일에는 접근할 수 없습니다."@
}

/// Whether a workspace path stays inside once links are followed: a path that does not
/// exist stays; an existing one must have the canonical root among the first
/// components of its canonical form.
pub open spec fn stays_inside(target: Option<Seq<char>>, root: Seq<char>) -> bool {
    match target {
        None => true,
        Some(t) => crate::installer::components_start(t, root),
    }
}

/// The second workspace check, after `inside`: `target` is the canonical form of the
/// joined path when it exists (`None` when it does not), `root` the canonical root.
pub fn confined(target: Option<&str>, root: &str) -> (r: Result<(), String>)
    ensures
        stays_inside(crate::download::opt_str(target), root@) ==> r is Ok,
        !stays_inside(crate::download::opt_str(target), root@) ==> (r matches Err(e) && e@
            == escape_message()),
{
    match target {
        None => Ok(()),
        Some(t) => if crate::installer::starts_with_components(&chars_of(t), &chars_of(root)) {
            Ok(())
        } else {
            Err("프로젝트 밖의 파일에는 접근할 수 없습니다.".to_string())
        },
    }
}

/// The warning on a page whose recognition was interrupted.
pub open spec fn interrupted_message() -> Seq<char> {
    "중단된 페이지입니다. 스캔을 다시 시작하세요."@
}

/// A recognition outcome as values.
pub open spec fn outcome_view(r: Result<PageRecognition, String>) -> Result<PageRecognitionView, Seq<char>> {
    match r {
        Ok(v) => Ok(v@),
        Err(e) => Err(e@),
    }
}

/// A page after its recognition ended: the time is kept; a cancelled page goes back
/// to the queue as it was; a result replaces the texts, blocks and regions and
/// records the settings; a failure records its message.
pub open spec fn scanned(
    p: PageView,
    elapsed_ms: u64,
    cancelled: bool,
    outcome: Result<PageRecognitionView, Seq<char>>,
    settings: SettingsView,
) -> PageView {
    let timed = PageView { elapsed_ms, ..p };
    if cancelled {
        PageView { status: "queued"@, ..timed }
    } else {
        match outcome {
            Ok(r) => PageView {
                recognized_with: Some(settings),
                raw_text: r.raw,
                markdown: r.markdown,
                blocks: document_blocks(r.markdown),
                regions: r.regions,
                status: "done"@,
                warning: r.warning,
                ..timed
            },
            Err(e) => PageView { status: "error"@, error: Some(e), ..timed },
        }
    }
}

impl Page {
    /// Marks a page as being recognized and clears its last error and warning.
    pub fn begin_scan(&mut self)
        ensures
            final(self)@ == (PageView {
                status: "processing"@,
                error: None,
                warning: None,
                ..old(self)@
            }),
    {
        self.status = "processing".to_string();
        self.error = None;
        self.warning = None;
    }

    /// Records how the page's recognition ended.
    pub fn finish_scan(
        &mut self,
        elapsed_ms: u64,
        cancelled: bool,
        outcome: Result<PageRecognition, String>,
        settings: &Settings,
    )
        ensures
            final(self)@ == scanned(old(self)@, elapsed_ms, cancelled, outcome_view(outcome), settings@),
    {
        self.elapsed_ms = elapsed_ms;
        if cancelled {
            self.status = "queued".to_string();
            return;
        }
        match outcome {
            Ok(result) => {
                self.recognized_with = Some(settings.duplicate());
                self.raw_text = result.raw;
                self.edit(result.markdown);
                self.regions = result.regions;
                self.status = "done".to_string();
                self.warning = result.warning;
            },
            Err(e) => {
                self.status = "error".to_string();
                self.error = Some(e);
            },
        }
    }
}

/// A page as reopening leaves it: one that was being recognized goes back to the
/// queue with a warning; every other field, its text among them, stays.
pub open spec fn restored(p: PageView) -> PageView {
    if p.status == "processing"@ {
        PageView { status: "queued"@, error: None, warning: Some(interrupted_message()), ..p }
    } else {
        p
    }
}

/// Reopening a project never loses recognized text: a restored page keeps its raw
/// answer, its Markdown, its blocks, its regions and its files, and only a page that
/// was being recognized changes, back to the queue.
pub proof fn lemma_restore_keeps_text(p: PageView)
    ensures
        restored(p).raw_text == p.raw_text,
        restored(p).markdown == p.markdown,
        restored(p).blocks == p.blocks,
        restored(p).regions == p.regions,
        restored(p).image == p.image && restored(p).source == p.source,
        restored(p).status != "processing"@,
        p.status != "processing"@ ==> restored(p) == p,
{
    reveal_strlit("processing");
    reveal_strlit("queued");
    assert("queued"@ != "processing"@) by {
        assert("queued"@.len() != "processing"@.len());
    }
}

/// A path with a `..` segment anywhere never passes the workspace check.
pub proof fn lemma_parent_segment_is_refused(rel: Seq<char>, i: int)
    requires
        0 <= i && i + 2 <= rel.len(),
        parent_at(rel, i),
    ensures
        !safe_relative(rel),
{
}

impl Page {
    /// Returns an interrupted page to the queue.
    pub fn restore(&mut self)
        ensures
            final(self)@ == restored(old(self)@),
    {
        if same_text(self.status.as_str(), "processing") {
            self.status = "queued".to_string();
            self.error = None;
            self.warning = Some("중단된 페이지입니다. 스캔을 다시 시작하세요.".to_string());
        }
    }
}

impl Page {
    /// Returns a page that a finished or stopped scan left in recognition to the queue.
    pub fn requeue(&mut self)
        ensures
            final(self)@ == requeued(old(self)@),
    {
        if same_text(self.status.as_str(), "processing") {
            self.status = "queued".to_string();
        }
    }
}

impl Project {
    /// After a scan ends, however it ends, no page stays in recognition.
    pub fn requeue_processing(&mut self)
        ensures
            final(self)@ == (ProjectView {
                pages: old(self)@.pages.map_values(|p: PageView| requeued(p)),
                ..old(self)@
            }),
    {
        let ghost before = self@;
        let mut i: usize = 0;
        while i < self.pages.len()
            invariant
                i <= self.pages.len(),
                self.pages.len() == before.pages.len(),
                self@ == (ProjectView { pages: self@.pages, ..before }),
                forall|j: int| 0 <= j < i ==> #[trigger] self@.pages[j] == requeued(before.pages[j]),
                forall|j: int| i <= j < self.pages.len() ==> #[trigger] self@.pages[j] == before.pages[j],
            decreases self.pages.len() - i,
        {
            let ghost old_pages = self.pages@;
            assert(pages_view(old_pages)[i as int] == old_pages[i as int]@);
            let page = &mut self.pages[i];
            page.requeue();
            assert(self.pages@ == old_pages.update(i as int, self.pages@[i as int]));
            assert forall|j: int| 0 <= j < self.pages.len() && j != i implies #[trigger] self@.pages[j]
                == pages_view(old_pages)[j] by {
                assert(self.pages@[j] == old_pages[j]);
            }
            assert(self@.pages[i as int] == self.pages@[i as int]@);
            i += 1;
        }
        assert(self@.pages =~= before.pages.map_values(|p: PageView| requeued(p)));
    }

    /// Returns every interrupted page to the queue; nothing else changes.
    pub fn restore_interrupted(&mut self)
        ensures
            final(self)@ == (ProjectView {
                pages: old(self)@.pages.map_values(|p: PageView| restored(p)),
                ..old(self)@
            }),
    {
        let ghost before = self@;
        let mut i: usize = 0;
        while i < self.pages.len()
            invariant
                i <= self.pages.len(),
                self.pages.len() == before.pages.len(),
                self@ == (ProjectView { pages: self@.pages, ..before }),
                forall|j: int| 0 <= j < i ==> #[trigger] self@.pages[j] == restored(before.pages[j]),
                forall|j: int| i <= j < self.pages.len() ==> #[trigger] self@.pages[j] == before.pages[j],
            decreases self.pages.len() - i,
        {
            let ghost old_pages = self.pages@;
            assert(pages_view(old_pages)[i as int] == old_pages[i as int]@);
            assert(old_pages[i as int]@ == before.pages[i as int]);
            let page = &mut self.pages[i];
            page.restore();
            assert(self.pages@ == old_pages.update(i as int, self.pages@[i as int]));
            assert forall|j: int| 0 <= j < self.pages.len() && j != i implies #[trigger] self@.pages[j]
                == pages_view(old_pages)[j] by {
                assert(self.pages@[j] == old_pages[j]);
            }
            assert(self@.pages[i as int] == self.pages@[i as int]@);
            i += 1;
        }
        assert(self@.pages =~= before.pages.map_values(|p: PageView| restored(p)));
    }
}

/// The first position at or after `start` of a page with the given id.
pub open spec fn find_from(pages: Seq<PageView>, page_id: Seq<char>, start: int) -> Option<int>
    decreases pages.len() - start,
{
    if start < 0 || start >= pages.len() {
        None
    } else if pages[start].id == page_id {
        Some(start)
    } else {
        find_from(pages, page_id, start + 1)
    }
}

/// The first position of a page with the given id.
pub open spec fn find_page(pages: Seq<PageView>, page_id: Seq<char>) -> Option<int> {
    find_from(pages, page_id, 0)
}

/// What `find_from` finds: the first match at or after `start`, and none before it.
pub proof fn lemma_find_from(pages: Seq<PageView>, page_id: Seq<char>, start: int)
    requires
        0 <= start,
    ensures
        match find_from(pages, page_id, start) {
            Some(i) => start <= i < pages.len() && pages[i].id == page_id && forall|j: int|
                start <= j < i ==> #[trigger] pages[j].id != page_id,
            None => forall|j: int| start <= j < pages.len() ==> #[trigger] pages[j].id != page_id,
        },
    decreases pages.len() - start,
{
    if start < pages.len() && pages[start].id != page_id {
        lemma_find_from(pages, page_id, start + 1);
    }
}

/// The ids of the pages in document order.
pub open spec fn page_ids(pages: Seq<PageView>) -> Seq<Seq<char>> {
    pages.map_values(|p: PageView| p.id)
}

/// The pages to scan, by id, in document order: each page whose id was requested,
/// once, however often and in whatever order it was requested.
pub open spec fn scan_ids(pages: Seq<PageView>, requested: Seq<Seq<char>>) -> Seq<Seq<char>> {
    page_ids(pages).filter(among(requested))
}

/// Whether an id is among the requested ones.
pub open spec fn among(requested: Seq<Seq<char>>) -> spec_fn(Seq<char>) -> bool {
    |id: Seq<char>| requested.contains(id)
}

/// Whether a page has an id other than the given one.
pub open spec fn other_than(page_id: Seq<char>) -> spec_fn(PageView) -> bool {
    |p: PageView| p.id != page_id
}

/// Why a scan cannot start, if it cannot: invalid settings, an unknown page, or no
/// page at all.
pub open spec fn scan_error(p: ProjectView, requested: Seq<Seq<char>>) -> Option<Seq<char>> {
    if settings_error(p.settings) is Some {
        settings_error(p.settings)
    } else if exists|k: int| 0 <= k < requested.len() && find_page(p.pages, #[trigger] requested[k]) is None {
        Some(missing_page_message())
    } else if requested.len() == 0 {
        Some(crate::i18n::key_text("noPages"@))
    } else {
        None
    }
}

/// A page as a finished or stopped scan leaves it: one still being recognized goes
/// back to the queue.
pub open spec fn requeued(p: PageView) -> PageView {
    if p.status == "processing"@ {
        PageView { status: "queued"@, ..p }
    } else {
        p
    }
}

/// The length of a text in UTF-8 bytes, as `str::len` reports it.
pub open spec fn utf8_len(s: Seq<char>) -> usize {
    vstd::utf8::encode_utf8(s).len() as usize
}

/// The message that ends a scan: the error when it failed and was not stopped, a
/// cancellation notice when it was stopped, and completion otherwise.
pub open spec fn scan_end_message(outcome: Result<(), Seq<char>>, cancelled: bool) -> Seq<char> {
    if cancelled {
        crate::i18n::key_text("scanCancelled"@)
    } else {
        match outcome {
            Err(e) => e,
            Ok(()) => crate::i18n::key_text("scanCompleted"@),
        }
    }
}

/// The message that ends a scan.
pub fn scan_end(outcome: Result<(), String>, cancelled: bool) -> (r: String)
    ensures
        r@ == scan_end_message(
            match outcome {
                Ok(()) => Ok(()),
                Err(e) => Err(e@),
            },
            cancelled,
        ),
{
    if cancelled {
        return crate::i18n::text("scanCancelled");
    }
    match outcome {
        Err(e) => e,
        Ok(()) => crate::i18n::text("scanCompleted"),
    }
}

/// The largest Markdown an edit may save, in UTF-8 bytes.
pub open spec fn edit_limit() -> int {
    4194304int
}

/// Whether two projects differ in their pages at most.
pub open spec fn same_but_pages(a: Project, b: Project) -> bool {
    &&& a.schema_version == b.schema_version
    &&& a.id == b.id
    &&& a.name == b.name
    &&& a.created_at == b.created_at
    &&& a.updated_at == b.updated_at
    &&& a.settings == b.settings
}

/// The message for a page id that no page has.
pub open spec fn missing_page_message() -> Seq<char> {
    "페이지를 찾지 못했습니다."@
}

/// The name of a new project: the trimmed name, or a default when it is blank.
pub open spec fn project_name(name: Seq<char>) -> Seq<char> {
    if trim(name).len() == 0 {
        "새 문서"@
    } else {
        trim(name)
    }
}

/// The error that reopening a project meets first, if any.
pub open spec fn open_error(p: ProjectView) -> Option<Seq<char>> {
    if p.schema_version != 2 {
        Some(
            "Glyph 2 작업 폴더를 선택하세요. 기존 v1 프로젝트는 원본 이미지를 새로 추가할 수 있습니다."@,
        )
    } else if settings_error(p.settings) is Some {
        settings_error(p.settings)
    } else if exists|i: int|
        0 <= i < p.pages.len() && !(#[trigger] page_paths_safe(p.pages[i])) {
        Some(outside_message())
    } else {
        None
    }
}

/// Whether the image, thumbnail and source of a page stay inside the workspace.
pub open spec fn page_paths_safe(p: PageView) -> bool {
    safe_relative(p.image) && safe_relative(p.thumbnail) && safe_relative(p.source)
}

impl Store {
    /// A new, empty project with default settings in a directory named after the
    /// first eight characters of its id below `parent`. Nothing is written here.
    pub fn create(parent: &str, name: &str) -> (r: Store)
        ensures
            r.project@.schema_version == 2,
            hyphenated_v4(r.project@.id),
            r.project@.name == project_name(name@),
            r.project@.settings == default_settings(),
            r.project@.pages.len() == 0,
            r.root@ == join_path(parent@, "Glyph-"@ + r.project@.id.take(8)),
    {
        let project_id = id();
        let t = trimmed(name);
        let name = if chars_of(t.as_str()).len() == 0 {
            "새 문서".to_string()
        } else {
            t
        };
        let created_at = now();
        let updated_at = now();
        let v = chars_of(project_id.as_str());
        let mut dir = "Glyph-".to_string();
        let head = crate::strings::string_of(&v, 0, 8);
        dir.append(head.as_str());
        let project = Project {
            schema_version: 2,
            id: project_id,
            name,
            created_at,
            updated_at,
            settings: Settings::default(),
            pages: Vec::new(),
        };
        assert(project@.pages =~= Seq::<PageView>::empty());
        assert(v@.subrange(0, 8) =~= project@.id.take(8));
        Store { root: join(parent, dir.as_str()), project }
    }

    /// A project read back from its workspace: it must be of schema 2 with valid
    /// settings and with every page's files inside the workspace; interrupted pages
    /// then return to the queue.
    pub fn open(root: String, project: Project) -> (r: Result<Store, String>)
        ensures
            match open_error(project@) {
                Some(e) => r matches Err(m) && m@ == e,
                None => r matches Ok(s) && s.root@ == root@ && s.project@ == (ProjectView {
                    pages: project@.pages.map_values(|p: PageView| restored(p)),
                    ..project@
                }),
            },
    {
        if project.schema_version != 2 {
            return Err(
                "Glyph 2 작업 폴더를 선택하세요. 기존 v1 프로젝트는 원본 이미지를 새로 추가할 수 있습니다.".to_string(),
            );
        }
        match project.settings.validate() {
            Err(e) => {
                return Err(e);
            },
            Ok(()) => {},
        }
        let mut i: usize = 0;
        while i < project.pages.len()
            invariant
                i <= project.pages.len(),
                project.schema_version == 2,
                settings_error(project@.settings) is None,
                forall|j: int| 0 <= j < i ==> #[trigger] page_paths_safe(project@.pages[j]),
            decreases project.pages.len() - i,
        {
            let page = &project.pages[i];
            assert(project@.pages[i as int] == page@);
            if !is_safe_relative(page.image.as_str()) || !is_safe_relative(page.thumbnail.as_str())
                || !is_safe_relative(page.source.as_str()) {
                assert(!page_paths_safe(project@.pages[i as int]));
                assert(open_error(project@) == Some(outside_message()));
                return Err("프로젝트 내부 경로가 올바르지 않습니다.".to_string());
            }
            i += 1;
        }
        let mut project = project;
        project.restore_interrupted();
        Ok(Store { root, project })
    }

    /// The first page with the given id.
    pub fn page(&self, page_id: &str) -> (r: Result<&Page, String>)
        ensures
            match find_page(self.project@.pages, page_id@) {
                Some(i) => r matches Ok(p) && *p == self.project.pages@[i],
                None => r matches Err(e) && e@ == missing_page_message(),
            },
    {
        proof {
            lemma_find_from(self.project@.pages, page_id@, 0);
        }
        let mut i: usize = 0;
        while i < self.project.pages.len()
            invariant
                i <= self.project.pages.len(),
                forall|j: int| 0 <= j < i ==> #[trigger] self.project@.pages[j].id != page_id@,
            decreases self.project.pages.len() - i,
        {
            assert(self.project@.pages[i as int] == self.project.pages@[i as int]@);
            if same_text(self.project.pages[i].id.as_str(), page_id) {
                proof {
                    lemma_find_from(self.project@.pages, page_id@, 0);
                }
                assert(self.project@.pages[i as int].id == page_id@);
                assert(find_page(self.project@.pages, page_id@) == Some(i as int));
                return Ok(&self.project.pages[i]);
            }
            i += 1;
        }
        Err("페이지를 찾지 못했습니다.".to_string())
    }

    /// The position of the first page with the given id.
    pub fn page_index(&self, page_id: &str) -> (r: Result<usize, String>)
        ensures
            match find_page(self.project@.pages, page_id@) {
                Some(i) => r == Ok::<usize, String>(i as usize),
                None => r matches Err(e) && e@ == missing_page_message(),
            },
            r matches Ok(k) ==> k < self.project.pages.len() && find_page(self.project@.pages, page_id@)
                == Some(k as int),
    {
        proof {
            lemma_find_from(self.project@.pages, page_id@, 0);
        }
        let mut i: usize = 0;
        while i < self.project.pages.len()
            invariant
                i <= self.project.pages.len(),
                forall|j: int| 0 <= j < i ==> #[trigger] self.project@.pages[j].id != page_id@,
            decreases self.project.pages.len() - i,
        {
            assert(self.project@.pages[i as int] == self.project.pages@[i as int]@);
            if same_text(self.project.pages[i].id.as_str(), page_id) {
                proof {
                    lemma_find_from(self.project@.pages, page_id@, 0);
                }
                assert(self.project@.pages[i as int].id == page_id@);
                assert(find_page(self.project@.pages, page_id@) == Some(i as int));
                return Ok(i);
            }
            i += 1;
        }
        Err("페이지를 찾지 못했습니다.".to_string())
    }

    /// The pages a scan processes: the requested ids (every page when none are
    /// given), each known, in document order and once each.
    #[verifier::loop_isolation(false)]
    pub fn scan_order(&self, requested: Option<Vec<String>>) -> (r: Result<Vec<String>, String>)
        ensures
            ({
                let ids = match requested {
                    Some(v) => crate::table::texts_of(v@),
                    None => page_ids(self.project@.pages),
                };
                match scan_error(self.project@, ids) {
                    Some(e) => r matches Err(m) && m@ == e,
                    None => r matches Ok(v) && crate::table::texts_of(v@) == scan_ids(self.project@.pages, ids),
                }
            }),
    {
        let ghost asked = match &requested {
            Some(v) => crate::table::texts_of(v@),
            None => page_ids(self.project@.pages),
        };
        match self.project.settings.validate() {
            Err(e) => {
                return Err(e);
            },
            Ok(()) => {},
        }
        let ids: Vec<String> = match requested {
            Some(v) => v,
            None => {
                let mut all: Vec<String> = Vec::new();
                let mut i: usize = 0;
                while i < self.project.pages.len()
                    invariant
                        i <= self.project.pages.len(),
                        crate::table::texts_of(all@) == page_ids(self.project@.pages).take(i as int),
                    decreases self.project.pages.len() - i,
                {
                    let ghost before = all@;
                    all.push(self.project.pages[i].id.clone());
                    assert(crate::table::texts_of(all@) =~= crate::table::texts_of(before).push(
                        self.project.pages@[i as int].id@,
                    ));
                    assert(page_ids(self.project@.pages).take(i + 1) =~= page_ids(self.project@.pages).take(
                        i as int,
                    ).push(self.project.pages@[i as int].id@));
                    i += 1;
                }
                assert(page_ids(self.project@.pages).take(self.project.pages.len() as int) =~= page_ids(
                    self.project@.pages,
                ));
                all
            },
        };
        let ghost want = crate::table::texts_of(ids@);
        assert(want == asked);
        let mut k: usize = 0;
        while k < ids.len()
            invariant
                want == crate::table::texts_of(ids@),
                want == asked,
                settings_error(self.project@.settings) is None,
                k <= ids.len(),
                forall|j: int| 0 <= j < k ==> find_page(self.project@.pages, #[trigger] want[j]) is Some,
            decreases ids.len() - k,
        {
            match self.page_index(ids[k].as_str()) {
                Err(e) => {
                    assert(find_page(self.project@.pages, want[k as int]) is None);
                    return Err(e);
                },
                Ok(_) => {},
            }
            k += 1;
        }
        if ids.len() == 0 {
            return Err(crate::i18n::text("noPages"));
        }
        let ghost all = page_ids(self.project@.pages);
        let mut out: Vec<String> = Vec::new();
        proof {
            reveal(Seq::filter);
        }
        assert(crate::table::texts_of(out@) =~= all.take(0).filter(among(want)));
        let mut i: usize = 0;
        while i < self.project.pages.len()
            invariant
                want == crate::table::texts_of(ids@),
                all == page_ids(self.project@.pages),
                i <= self.project.pages.len(),
                crate::table::texts_of(out@) == all.take(i as int).filter(among(want)),
            decreases self.project.pages.len() - i,
        {
            let id = &self.project.pages[i].id;
            assert(all.take(i + 1).drop_last() =~= all.take(i as int));
            assert(all.take(i + 1).last() == id@);
            let mut found = false;
            let mut k: usize = 0;
            while k < ids.len()
                invariant
                    want == crate::table::texts_of(ids@),
                    k <= ids.len(),
                    found == (exists|j: int| 0 <= j < k && #[trigger] want[j] == id@),
                decreases ids.len() - k,
            {
                if same_text(ids[k].as_str(), id.as_str()) {
                    assert(want[k as int] == id@);
                    found = true;
                }
                k += 1;
            }
            assert(found == want.contains(id@));
            assert(all.take(i + 1) =~= all.take(i as int).push(id@));
            proof {
                all.take(i as int).lemma_filter_push(id@, among(want));
            }
            if found {
                let ghost before = out@;
                out.push(id.clone());
                assert(crate::table::texts_of(out@) =~= crate::table::texts_of(before).push(id@));
            }
            i += 1;
        }
        assert(all.take(self.project.pages.len() as int) =~= all);
        Ok(out)
    }

    /// Replaces a page's Markdown; an edit over 4 MiB of UTF-8 is refused.
    pub fn edit_page(&mut self, page_id: &str, markdown: String) -> (r: Result<(), String>)
        ensures
            utf8_len(markdown@) > edit_limit() ==> (r matches Err(e) && e@ == crate::i18n::key_text(
                "resultTooLarge"@,
            )) && *final(self) == *old(self),
            utf8_len(markdown@) <= edit_limit() ==> match find_page(old(self).project@.pages, page_id@) {
                None => (r matches Err(e) && e@ == missing_page_message()) && *final(self) == *old(self),
                Some(i) => r is Ok && final(self).root == old(self).root && same_but_pages(
                    final(self).project,
                    old(self).project,
                ) && final(self).project@.pages == old(self).project@.pages.update(
                    i,
                    PageView {
                        markdown: markdown@,
                        blocks: document_blocks(markdown@),
                        ..old(self).project@.pages[i]
                    },
                ),
            },
    {
        if markdown.as_str().len() > 4194304 {
            return Err(crate::i18n::text("resultTooLarge"));
        }
        proof {
            lemma_find_from(self.project@.pages, page_id@, 0);
        }
        match self.page_index(page_id) {
            Err(e) => Err(e),
            Ok(i) => {
                let ghost before = self.project.pages@;
                let page = &mut self.project.pages[i];
                page.edit(markdown);
                assert(self.project.pages@ == before.update(i as int, self.project.pages@[i as int]));
                assert(self.project@.pages =~= old(self).project@.pages.update(
                    i as int,
                    self.project.pages@[i as int]@,
                ));
                Ok(())
            },
        }
    }

    /// Removes every page with the given id; the id must name a page.
    pub fn remove_page(&mut self, page_id: &str) -> (r: Result<(), String>)
        ensures
            match find_page(old(self).project@.pages, page_id@) {
                None => (r matches Err(e) && e@ == missing_page_message()) && *final(self) == *old(self),
                Some(_) => r is Ok && final(self).root == old(self).root && same_but_pages(
                    final(self).project,
                    old(self).project,
                ) && final(self).project@.pages == old(self).project@.pages.filter(other_than(page_id@)),
            },
    {
        proof {
            lemma_find_from(self.project@.pages, page_id@, 0);
        }
        match self.page_index(page_id) {
            Err(e) => {
                return Err(e);
            },
            Ok(_) => {},
        }
        let mut source: Vec<Page> = Vec::new();
        std::mem::swap(&mut source, &mut self.project.pages);
        let ghost original = pages_view(source@);
        assert(original == old(self).project@.pages);
        let mut kept: Vec<Page> = Vec::new();
        let mut n: usize = 0;
        let total = source.len();
        assert(original.skip(0) =~= original);
        proof {
            reveal(Seq::filter);
        }
        assert(pages_view(kept@) =~= original.take(0).filter(other_than(page_id@)));
        while source.len() > 0
            invariant
                n <= original.len(),
                original.len() == total,
                pages_view(source@) == original.skip(n as int),
                pages_view(kept@) == original.take(n as int).filter(other_than(page_id@)),
                self.root == old(self).root,
                same_but_pages(self.project, old(self).project),
            decreases source.len(),
        {
            let ghost before = kept@;
            let ghost src0 = source@;
            assert(original.skip(n as int).len() == source.len());
            assert(pages_view(src0)[0] == src0[0]@);
            let p = source.remove(0);
            assert(source@ =~= src0.subrange(1, src0.len() as int));
            assert forall|j: int| 0 <= j < source.len() implies #[trigger] pages_view(source@)[j]
                == original.skip(n + 1)[j] by {
                assert(pages_view(src0)[j + 1] == src0[j + 1]@);
            }
            assert(pages_view(source@) =~= original.skip(n + 1));
            assert(original.skip(n as int)[0] == p@);
            assert(original.take(n + 1) =~= original.take(n as int).push(p@));
            proof {
                original.take(n as int).lemma_filter_push(p@, other_than(page_id@));
            }
            if !same_text(p.id.as_str(), page_id) {
                kept.push(p);
                assert(pages_view(kept@) =~= pages_view(before).push(original[n as int]));
            }
            n += 1;
        }
        assert(original.take(n as int) =~= original);
        self.project.pages = kept;
        Ok(())
    }

    /// The first page with the given id, to change in place.
    pub fn page_mut(&mut self, page_id: &str) -> (r: Result<&mut Page, String>)
        ensures
            match find_page(old(self).project@.pages, page_id@) {
                Some(i) => r matches Ok(p) && *p == old(self).project.pages@[i]
                    && final(self).root == old(self).root
                    && final(self).project.pages@ == old(self).project.pages@.update(i, *final(p))
                    && same_but_pages(final(self).project, old(self).project),
                None => r matches Err(e) && e@ == missing_page_message() && *final(self) == *old(self),
            },
    {
        proof {
            lemma_find_from(self.project@.pages, page_id@, 0);
        }
        match self.page_index(page_id) {
            Ok(i) => Ok(&mut self.project.pages[i]),
            Err(e) => Err(e),
        }
    }
}

} // verus!

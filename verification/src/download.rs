//! Pinned, resumable model and runtime downloads: what is on disk decides the
//! starting state, pause/stop requests are honoured at checkpoints, and a resumed
//! transfer only continues from a server range that matches the partial file.
use crate::i18n::{f, key_args_text, key_text, text};
use crate::strings::{
    chars_of, find_char, find_in, has_at, int_error_message, int_error_text, parse_u64,
    parse_u64_range, starts_at,
};
use vstd::prelude::*;

verus! {

/// One pinned file of a model or runtime manifest.
pub struct ModelFile {
    pub name: String,
    pub bytes: u64,
    pub sha256: String,
    pub layout: bool,
    pub repository: Option<String>,
    pub revision: Option<String>,
    pub url: Option<String>,
}

/// The text of an optional string.
pub open spec fn opt_view(o: Option<String>) -> Option<Seq<char>> {
    match o {
        Some(s) => Some(s@),
        None => None,
    }
}

/// A manifest file as values.
pub struct ModelFileView {
    pub name: Seq<char>,
    pub bytes: u64,
    pub sha256: Seq<char>,
    pub layout: bool,
    pub repository: Option<Seq<char>>,
    pub revision: Option<Seq<char>>,
    pub url: Option<Seq<char>>,
}

impl View for ModelFile {
    type V = ModelFileView;

    open spec fn view(&self) -> ModelFileView {
        ModelFileView {
            name: self.name@,
            bytes: self.bytes,
            sha256: self.sha256@,
            layout: self.layout,
            repository: opt_view(self.repository),
            revision: opt_view(self.revision),
            url: opt_view(self.url),
        }
    }
}

/// A model's pinned repository, revision and files.
pub struct Manifest {
    pub repository: String,
    pub revision: String,
    pub files: Vec<ModelFile>,
}

/// The files of a manifest as values.
pub open spec fn files_view(files: Seq<ModelFile>) -> Seq<ModelFileView> {
    files.map_values(|f: ModelFile| f@)
}

/// Download progress as shown to the user.
pub struct Progress {
    pub kind: String,
    pub status: String,
    pub file: String,
    pub downloaded: u64,
    pub total: u64,
    pub bytes_per_second: u64,
    pub error: Option<String>,
}

/// Progress as values.
pub struct ProgressView {
    pub kind: Seq<char>,
    pub status: Seq<char>,
    pub file: Seq<char>,
    pub downloaded: u64,
    pub total: u64,
    pub bytes_per_second: u64,
    pub error: Option<Seq<char>>,
}

impl View for Progress {
    type V = ProgressView;

    open spec fn view(&self) -> ProgressView {
        ProgressView {
            kind: self.kind@,
            status: self.status@,
            file: self.file@,
            downloaded: self.downloaded,
            total: self.total,
            bytes_per_second: self.bytes_per_second,
            error: opt_view(self.error),
        }
    }
}

/// What the user last asked of a running download. Partial files survive all three.
#[derive(Clone, Copy, PartialEq, Eq, Structural)]
pub enum Control {
    Running,
    PauseRequested,
    CancelRequested,
}

/// The sizes found on disk for one manifest file: the finished file and its `.part`.
#[derive(Clone, Copy)]
pub struct FileSizes {
    pub complete: Option<u64>,
    pub partial: Option<u64>,
}

/// The download of one manifest into one directory.
pub struct Downloads {
    root: String,
    spec: Manifest,
    state: Progress,
    control: Control,
    paused_from: String,
    fetch: Fetch,
}

/// A download as values.
pub struct DownloadsView {
    pub root: Seq<char>,
    pub repository: Seq<char>,
    pub revision: Seq<char>,
    pub files: Seq<ModelFileView>,
    pub progress: ProgressView,
    pub control: Control,
    pub paused_from: Seq<char>,
    pub fetch: Fetch,
}

impl View for Downloads {
    type V = DownloadsView;

    closed spec fn view(&self) -> DownloadsView {
        DownloadsView {
            root: self.root@,
            repository: self.spec.repository@,
            revision: self.spec.revision@,
            files: files_view(self.spec.files@),
            progress: self.state@,
            control: self.control,
            paused_from: self.paused_from@,
            fetch: self.fetch,
        }
    }
}

// ---------------------------------------------------------------------------
// Starting state.

/// Whether a file is downloaded under the layout choice.
pub open spec fn included(f: ModelFileView, include_layout: bool) -> bool {
    !f.layout || include_layout
}

/// The bytes found for a file: the finished file, else its `.part`, else none.
pub open spec fn found_bytes(s: FileSizes) -> int {
    match s.complete {
        Some(n) => n as int,
        None => match s.partial {
            Some(n) => n as int,
            None => 0,
        },
    }
}

/// The sum of the sizes of the first `n` included files.
pub open spec fn total_upto(files: Seq<ModelFileView>, include_layout: bool, n: int) -> int
    decreases n,
{
    if n <= 0 {
        0
    } else {
        total_upto(files, include_layout, n - 1) + if included(files[n - 1], include_layout) {
            files[n - 1].bytes as int
        } else {
            0
        }
    }
}

/// The bytes already present for the first `n` included files, each capped at its size.
pub open spec fn present_upto(
    files: Seq<ModelFileView>,
    sizes: Seq<FileSizes>,
    include_layout: bool,
    n: int,
) -> int
    decreases n,
{
    if n <= 0 {
        0
    } else {
        present_upto(files, sizes, include_layout, n - 1) + if included(
            files[n - 1],
            include_layout,
        ) {
            if found_bytes(sizes[n - 1]) < files[n - 1].bytes {
                found_bytes(sizes[n - 1])
            } else {
                files[n - 1].bytes as int
            }
        } else {
            0
        }
    }
}

/// Every included file is present under its final name with its full size.
pub open spec fn all_ready(files: Seq<ModelFileView>, sizes: Seq<FileSizes>, include_layout: bool) -> bool {
    forall|i: int|
        0 <= i < files.len() && included(#[trigger] files[i], include_layout) ==> sizes[i].complete
            == Some(files[i].bytes)
}

/// The status of a download found on disk.
pub open spec fn found_status(
    files: Seq<ModelFileView>,
    sizes: Seq<FileSizes>,
    include_layout: bool,
) -> Seq<char> {
    if all_ready(files, sizes, include_layout) {
        "ready"@
    } else if present_upto(files, sizes, include_layout, files.len() as int) > 0 {
        "interrupted"@
    } else {
        "idle"@
    }
}

/// The progress of a download whose files were found on disk with the given sizes.
pub open spec fn found_progress(
    kind: Seq<char>,
    files: Seq<ModelFileView>,
    sizes: Seq<FileSizes>,
    include_layout: bool,
) -> ProgressView {
    ProgressView {
        kind,
        status: found_status(files, sizes, include_layout),
        file: Seq::empty(),
        downloaded: present_upto(files, sizes, include_layout, files.len() as int) as u64,
        total: total_upto(files, include_layout, files.len() as int) as u64,
        bytes_per_second: 0,
        error: None,
    }
}

proof fn lemma_present_counts_each_file(
    files: Seq<ModelFileView>,
    sizes: Seq<FileSizes>,
    include_layout: bool,
    n: int,
    i: int,
)
    requires
        0 <= i < n,
        included(files[i], include_layout),
    ensures
        present_upto(files, sizes, include_layout, n) >= if found_bytes(sizes[i]) < files[i].bytes {
            found_bytes(sizes[i])
        } else {
            files[i].bytes as int
        },
    decreases n,
{
    lemma_present_le_total(files, sizes, include_layout, n - 1);
    if i < n - 1 {
        lemma_present_counts_each_file(files, sizes, include_layout, n - 1, i);
    }
}

/// On restart, a file that is only partly downloaded is never taken for a finished
/// one: the download is not ready, and when the part holds bytes it is interrupted.
pub proof fn lemma_partial_files_are_not_ready(
    files: Seq<ModelFileView>,
    sizes: Seq<FileSizes>,
    include_layout: bool,
    i: int,
)
    requires
        0 <= i < files.len(),
        i < sizes.len(),
        included(files[i], include_layout),
        sizes[i].complete is None,
    ensures
        found_status(files, sizes, include_layout) != "ready"@,
        (sizes[i].partial matches Some(p) && p > 0 && files[i].bytes > 0) ==> found_status(
            files,
            sizes,
            include_layout,
        ) == "interrupted"@,
{
    reveal_strlit("ready");
    reveal_strlit("interrupted");
    reveal_strlit("idle");
    assert(!all_ready(files, sizes, include_layout));
    if sizes[i].partial matches Some(p) && p > 0 && files[i].bytes > 0 {
        lemma_present_counts_each_file(files, sizes, include_layout, files.len() as int, i);
    }
    assert("interrupted"@ != "ready"@) by {
        assert("interrupted"@.len() != "ready"@.len());
    }
    assert("idle"@ != "ready"@) by {
        assert("idle"@.len() != "ready"@.len());
    }
}

proof fn lemma_present_le_total(
    files: Seq<ModelFileView>,
    sizes: Seq<FileSizes>,
    include_layout: bool,
    n: int,
)
    ensures
        0 <= present_upto(files, sizes, include_layout, n) <= total_upto(files, include_layout, n),
    decreases n,
{
    if n > 0 {
        lemma_present_le_total(files, sizes, include_layout, n - 1);
    }
}

proof fn lemma_total_monotone(files: Seq<ModelFileView>, include_layout: bool, a: int, b: int)
    requires
        a <= b,
    ensures
        total_upto(files, include_layout, a) <= total_upto(files, include_layout, b),
    decreases b - a,
{
    if a < b {
        lemma_total_monotone(files, include_layout, a, b - 1);
    }
}

/// Whether a manifest can be downloaded here: one found size for each file, and a
/// total size of the included files that fits in 64 bits. This is what the
/// constructors of `Downloads` require.
pub fn check_sizes(files: &Vec<ModelFile>, sizes: &Vec<FileSizes>, include_layout: bool) -> (r: Result<(), String>)
    ensures
        (sizes.len() == files.len() && total_upto(files_view(files@), include_layout, files.len() as int)
            <= u64::MAX) ==> r is Ok,
        !(sizes.len() == files.len() && total_upto(files_view(files@), include_layout, files.len() as int)
            <= u64::MAX) ==> (r matches Err(e) && e@ == key_text("modelTooLarge"@)),
{
    if sizes.len() != files.len() {
        return Err(text("modelTooLarge"));
    }
    let ghost fv = files_view(files@);
    let mut total: u64 = 0;
    let mut i: usize = 0;
    while i < files.len()
        invariant
            fv == files_view(files@),
            i <= files.len(),
            total == total_upto(fv, include_layout, i as int),
        decreases files.len() - i,
    {
        let file = &files[i];
        assert(fv[i as int] == file@);
        if !file.layout || include_layout {
            if total > u64::MAX - file.bytes {
                proof {
                    lemma_total_monotone(fv, include_layout, i + 1, files.len() as int);
                }
                return Err(text("modelTooLarge"));
            }
            total = total + file.bytes;
        }
        i += 1;
    }
    Ok(())
}

pub(crate) fn clone_opt(o: &Option<String>) -> (r: Option<String>)
    ensures
        opt_view(r) == opt_view(*o),
{
    match o {
        Some(s) => Some(s.clone()),
        None => None,
    }
}

/// A copy of a manifest file.
pub fn copy_file(file: &ModelFile) -> (r: ModelFile)
    ensures
        r@ == file@,
{
    ModelFile {
        name: file.name.clone(),
        bytes: file.bytes,
        sha256: file.sha256.clone(),
        layout: file.layout,
        repository: clone_opt(&file.repository),
        revision: clone_opt(&file.revision),
        url: clone_opt(&file.url),
    }
}

/// A copy of the progress.
pub fn copy_progress(p: &Progress) -> (r: Progress)
    ensures
        r@ == p@,
{
    Progress {
        kind: p.kind.clone(),
        status: p.status.clone(),
        file: p.file.clone(),
        downloaded: p.downloaded,
        total: p.total,
        bytes_per_second: p.bytes_per_second,
        error: clone_opt(&p.error),
    }
}

/// The byte total and the bytes present of the included files.
fn measure(files: &Vec<ModelFile>, sizes: &Vec<FileSizes>, include_layout: bool) -> (r: (
    u64,
    u64,
    bool,
))
    requires
        sizes.len() == files.len(),
        total_upto(files_view(files@), include_layout, files.len() as int) <= u64::MAX,
    ensures
        r.0 == total_upto(files_view(files@), include_layout, files.len() as int),
        r.1 == present_upto(files_view(files@), sizes@, include_layout, files.len() as int),
        r.2 == all_ready(files_view(files@), sizes@, include_layout),
{
    let ghost fv = files_view(files@);
    let mut total: u64 = 0;
    let mut present: u64 = 0;
    let mut ready = true;
    let mut i: usize = 0;
    while i < files.len()
        invariant
            fv == files_view(files@),
            sizes.len() == files.len(),
            total_upto(fv, include_layout, files.len() as int) <= u64::MAX,
            i <= files.len(),
            total == total_upto(fv, include_layout, i as int),
            present == present_upto(fv, sizes@, include_layout, i as int),
            ready == forall|j: int|
                0 <= j < i && included(#[trigger] fv[j], include_layout) ==> sizes@[j].complete
                    == Some(fv[j].bytes),
        decreases files.len() - i,
    {
        proof {
            lemma_total_monotone(fv, include_layout, i + 1, files.len() as int);
            lemma_present_le_total(fv, sizes@, include_layout, i + 1);
        }
        let file = &files[i];
        assert(fv[i as int] == file@);
        if !file.layout || include_layout {
            let s = sizes[i];
            let found = match s.complete {
                Some(n) => n,
                None => match s.partial {
                    Some(n) => n,
                    None => 0,
                },
            };
            let capped = if found < file.bytes {
                found
            } else {
                file.bytes
            };
            total = total + file.bytes;
            present = present + capped;
            if s.complete != Some(file.bytes) {
                ready = false;
            }
        }
        i += 1;
    }
    (total, present, ready)
}

impl Downloads {
    #[verifier::type_invariant]
    spec fn progress_bounded(&self) -> bool {
        self.state.downloaded <= self.state.total
    }

    /// A download of the manifest into `root`, its state read from the sizes found
    /// on disk for each manifest file: `ready` when every included file is complete,
    /// `interrupted` when some bytes are present, `idle` otherwise.
    pub fn from_spec(
        root: String,
        full_spec: Manifest,
        include_layout: bool,
        kind: &str,
        sizes: &Vec<FileSizes>,
    ) -> (r: Downloads)
        requires
            sizes.len() == full_spec.files.len(),
            total_upto(files_view(full_spec.files@), include_layout, full_spec.files.len() as int)
                <= u64::MAX,
        ensures
            r@.root == root@,
            r@.repository == full_spec.repository@,
            r@.revision == full_spec.revision@,
            r@.files == files_view(full_spec.files@),
            r@.control == Control::Running,
            r@.paused_from == "downloading"@,
            r@.fetch == idle_fetch(),
            r@.progress == (ProgressView {
                kind: kind@,
                status: found_status(files_view(full_spec.files@), sizes@, include_layout),
                file: Seq::empty(),
                downloaded: present_upto(
                    files_view(full_spec.files@),
                    sizes@,
                    include_layout,
                    full_spec.files.len() as int,
                ) as u64,
                total: total_upto(
                    files_view(full_spec.files@),
                    include_layout,
                    full_spec.files.len() as int,
                ) as u64,
                bytes_per_second: 0,
                error: None,
            }),
    {
        let (total, downloaded, ready) = measure(&full_spec.files, sizes, include_layout);
        proof {
            lemma_present_le_total(
                files_view(full_spec.files@),
                sizes@,
                include_layout,
                full_spec.files.len() as int,
            );
        }
        let status = if ready {
            "ready".to_string()
        } else if downloaded > 0 {
            "interrupted".to_string()
        } else {
            "idle".to_string()
        };
        Downloads {
            root,
            spec: full_spec,
            state: Progress {
                kind: kind.to_string(),
                status,
                file: String::new(),
                downloaded,
                total,
                bytes_per_second: 0,
                error: None,
            },
            control: Control::Running,
            paused_from: "downloading".to_string(),
            fetch: Fetch::idle(),
        }
    }

    /// A runtime download of the given archives, all of which are always included.
    pub fn for_files(root: String, files: Vec<ModelFile>, sizes: &Vec<FileSizes>) -> (r: Downloads)
        requires
            sizes.len() == files.len(),
            total_upto(files_view(files@), true, files.len() as int) <= u64::MAX,
        ensures
            r@.root == root@,
            r@.repository == Seq::<char>::empty(),
            r@.revision == Seq::<char>::empty(),
            r@.files == files_view(files@),
            r@.control == Control::Running,
            r@.progress.kind == "runtime"@,
            r@.progress.status == found_status(files_view(files@), sizes@, true),
            r@.progress.file == Seq::<char>::empty(),
            r@.progress.downloaded == present_upto(
                files_view(files@),
                sizes@,
                true,
                files.len() as int,
            ),
            r@.progress.total == total_upto(files_view(files@), true, files.len() as int),
            r@.progress.error is None,
    {
        proof {
            lemma_present_le_total(files_view(files@), sizes@, true, files.len() as int);
        }
        Self::from_spec(
            root,
            Manifest { repository: String::new(), revision: String::new(), files },
            true,
            "runtime",
            sizes,
        )
    }

    /// The directory that receives the files.
    pub fn directory(&self) -> (r: &str)
        ensures
            r@ == self@.root,
    {
        self.root.as_str()
    }

    /// The current progress.
    pub fn snapshot(&self) -> (r: Progress)
        ensures
            r@ == self@.progress,
            r.downloaded <= r.total,
    {
        proof {
            use_type_invariant(self);
        }
        copy_progress(&self.state)
    }

    /// The last request: running, pause or stop.
    pub fn control(&self) -> (r: Control)
        ensures
            r == self@.control,
    {
        self.control
    }

    /// The manifest files.
    pub fn files(&self) -> (r: &Vec<ModelFile>)
        ensures
            files_view(r@) == self@.files,
    {
        &self.spec.files
    }

    /// Clears a pause or stop request before a new operation.
    pub fn reset(&mut self)
        ensures
            final(self)@ == after_reset(old(self)@),
    {
        proof {
            use_type_invariant(&*self);
        }
        self.control = Control::Running;
    }

    /// Sets the status, the current file when given, the downloaded count (capped at the
    /// total) when given and the speed, and clears the error.
    pub fn update(&mut self, status: &str, file: Option<&str>, downloaded: Option<u64>, speed: u64)
        ensures
            final(self)@ == (DownloadsView {
                progress: updated(old(self)@.progress, status@, file, downloaded, speed),
                ..old(self)@
            }),
    {
        proof {
            use_type_invariant(&*self);
        }
        let total = self.state.total;
        let next = Progress {
            kind: self.state.kind.clone(),
            status: status.to_string(),
            file: match file {
                Some(name) => name.to_string(),
                None => self.state.file.clone(),
            },
            downloaded: match downloaded {
                Some(n) => if n < total {
                    n
                } else {
                    total
                },
                None => self.state.downloaded,
            },
            total,
            bytes_per_second: speed,
            error: None,
        };
        self.state = next;
    }

    /// Asks a running download to pause at its next checkpoint. Only a download that is
    /// downloading, checking or extracting can pause; the stage is remembered so that it
    /// can be restored. A stop request stays in force.
    pub fn pause(&mut self)
        ensures
            final(self)@ == after_pause(old(self)@),
    {
        proof {
            use_type_invariant(&*self);
        }
        let status = chars_of(self.state.status.as_str());
        if is_pausable(&status) {
            self.paused_from = self.state.status.clone();
            if self.control == Control::Running {
                self.control = Control::PauseRequested;
                self.update("pausing", None, None, 0);
            }
        }
    }

    /// Lets a paused download continue; a stop request stays in force.
    pub fn resume(&mut self)
        ensures
            final(self)@ == after_resume(old(self)@),
    {
        proof {
            use_type_invariant(&*self);
        }
        if self.control == Control::PauseRequested {
            self.control = Control::Running;
        }
    }

    /// Asks the download to stop at its next checkpoint; partial files are kept.
    pub fn cancel(&mut self)
        ensures
            final(self)@ == after_cancel(old(self)@),
    {
        proof {
            use_type_invariant(&*self);
        }
        self.control = Control::CancelRequested;
    }

    /// The first half of a checkpoint. When a pause was requested the status becomes
    /// `paused` and the result is true: the caller then waits until the request is
    /// withdrawn or replaced by a stop, and calls `checkpoint_end(true)`.
    pub fn checkpoint_begin(&mut self) -> (paused: bool)
        ensures
            paused == (old(self)@.control == Control::PauseRequested),
            final(self)@ == after_checkpoint_begin(old(self)@),
    {
        proof {
            use_type_invariant(&*self);
        }
        if self.control == Control::PauseRequested {
            self.update("paused", None, None, 0);
            true
        } else {
            false
        }
    }

    /// The second half of a checkpoint. After a pause that was resumed, the stage that
    /// was paused is restored; a stop request ends the operation with an error.
    pub fn checkpoint_end(&mut self, paused: bool) -> (r: Result<(), String>)
        ensures
            final(self)@ == after_checkpoint_end(old(self)@, paused),
            r is Err <==> old(self)@.control == Control::CancelRequested,
            r matches Err(e) ==> e@ == key_text("downloadCancelled"@),
    {
        proof {
            use_type_invariant(&*self);
        }
        if paused && self.control == Control::Running {
            let stage = self.paused_from.clone();
            self.update(stage.as_str(), None, None, 0);
        }
        if self.control == Control::CancelRequested {
            return Err(text("downloadCancelled"));
        }
        Ok(())
    }

    /// Marks a stage; `ready` also completes the byte count.
    pub fn stage(&mut self, status: &str)
        ensures
            final(self)@ == (DownloadsView {
                progress: updated(
                    old(self)@.progress,
                    status@,
                    None,
                    if status@ == "ready"@ {
                        Some(old(self)@.progress.total)
                    } else {
                        None
                    },
                    0,
                ),
                ..old(self)@
            }),
    {
        proof {
            use_type_invariant(&*self);
        }
        let ready = crate::strings::same_chars(&chars_of(status), &chars_of("ready"));
        let total = self.state.total;
        self.update(
            status,
            None,
            if ready {
                Some(total)
            } else {
                None
            },
            0,
        );
    }

    /// Records a failed operation: `cancelled` when a stop was requested, else `error`.
    pub fn report_error(&mut self, result: &Result<(), String>)
        ensures
            result is Ok ==> final(self)@ == old(self)@,
            result matches Err(e) ==> final(self)@ == (DownloadsView {
                progress: ProgressView {
                    status: if old(self)@.control == Control::CancelRequested {
                        "cancelled"@
                    } else {
                        "error"@
                    },
                    error: Some(e@),
                    bytes_per_second: 0,
                    ..old(self)@.progress
                },
                ..old(self)@
            }),
    {
        proof {
            use_type_invariant(&*self);
        }
        if let Err(e) = result {
            let next = Progress {
                kind: self.state.kind.clone(),
                status: if self.control == Control::CancelRequested {
                    "cancelled".to_string()
                } else {
                    "error".to_string()
                },
                file: self.state.file.clone(),
                downloaded: self.state.downloaded,
                total: self.state.total,
                bytes_per_second: 0,
                error: Some(e.clone()),
            };
            self.state = next;
        }
    }

    /// The start of a transfer: the totals over the files included now, from the sizes
    /// found on disk.
    pub fn begin(&mut self, include_layout: bool, sizes: &Vec<FileSizes>)
        requires
            sizes.len() == old(self)@.files.len(),
            total_upto(old(self)@.files, include_layout, old(self)@.files.len() as int)
                <= u64::MAX,
        ensures
            final(self)@ == (DownloadsView {
                progress: ProgressView {
                    total: total_upto(
                        old(self)@.files,
                        include_layout,
                        old(self)@.files.len() as int,
                    ) as u64,
                    downloaded: present_upto(
                        old(self)@.files,
                        sizes@,
                        include_layout,
                        old(self)@.files.len() as int,
                    ) as u64,
                    ..old(self)@.progress
                },
                fetch: idle_fetch(),
                ..old(self)@
            }),
    {
        proof {
            use_type_invariant(&*self);
        }
        self.fetch = Fetch::idle();
        let (total, downloaded, _ready) = measure(&self.spec.files, sizes, include_layout);
        proof {
            lemma_present_le_total(
                files_view(self.spec.files@),
                sizes@,
                include_layout,
                self.spec.files.len() as int,
            );
        }
        let next = Progress {
            kind: self.state.kind.clone(),
            status: self.state.status.clone(),
            file: self.state.file.clone(),
            downloaded,
            total,
            bytes_per_second: self.state.bytes_per_second,
            error: clone_opt(&self.state.error),
        };
        self.state = next;
    }

    /// The download of a model's manifest into the directory of its revision below
    /// `base`; the layout model's files are counted only when they are wanted.
    pub fn for_model(
        base: &str,
        model_id: &str,
        manifest: Manifest,
        include_layout: bool,
        sizes: &Vec<FileSizes>,
    ) -> (r: Result<Downloads, String>)
        requires
            sizes.len() == manifest.files.len(),
            total_upto(files_view(manifest.files@), include_layout, manifest.files.len() as int)
                <= u64::MAX,
        ensures
            model_id@ != crate::models::default_model_text() ==> (r matches Err(e) && e@
                == crate::models::unknown_model()),
            model_id@ == crate::models::default_model_text() ==> (r matches Ok(d) && d@ == (
            DownloadsView {
                root: crate::store::join_path(base@, manifest.revision@),
                repository: manifest.repository@,
                revision: manifest.revision@,
                files: files_view(manifest.files@),
                progress: found_progress("model"@, files_view(manifest.files@), sizes@, include_layout),
                control: Control::Running,
                paused_from: "downloading"@,
                fetch: idle_fetch(),
            })),
    {
        match crate::models::get(model_id) {
            Err(e) => Err(e),
            Ok(_) => {
                let root = crate::store::join(base, manifest.revision.as_str());
                Ok(Self::from_spec(root, manifest, include_layout, "model", sizes))
            },
        }
    }

    /// The download of the default model.
    pub fn new(base: &str, manifest: Manifest, include_layout: bool, sizes: &Vec<FileSizes>) -> (r: Downloads)
        requires
            sizes.len() == manifest.files.len(),
            total_upto(files_view(manifest.files@), include_layout, manifest.files.len() as int)
                <= u64::MAX,
        ensures
            r@ == (DownloadsView {
                root: crate::store::join_path(base@, manifest.revision@),
                repository: manifest.repository@,
                revision: manifest.revision@,
                files: files_view(manifest.files@),
                progress: found_progress("model"@, files_view(manifest.files@), sizes@, include_layout),
                control: Control::Running,
                paused_from: "downloading"@,
                fetch: idle_fetch(),
            }),
    {
        let root = crate::store::join(base, manifest.revision.as_str());
        Self::from_spec(root, manifest, include_layout, "model", sizes)
    }

    /// The end of a download: every file is in place.
    pub fn finish(&mut self, complete: u64)
        ensures
            final(self)@ == (DownloadsView {
                progress: updated(old(self)@.progress, "ready"@, Some(""), Some(complete), 0),
                ..old(self)@
            }),
    {
        self.update("ready", Some(""), Some(complete), 0);
    }

    /// A file whose checksum did not match after its download: the download stops
    /// with an error and only the files before it count as complete.
    pub fn reject(&mut self, complete: u64) -> (r: String)
        ensures
            final(self)@ == (DownloadsView {
                progress: updated(old(self)@.progress, "error"@, None, Some(complete), 0),
                ..old(self)@
            }),
            r@ == key_text("modelHashMismatch"@),
    {
        self.update("error", None, Some(complete), 0);
        text("modelHashMismatch")
    }

    /// Where a manifest file is fetched from: its own URL, else the pinned Hugging Face
    /// path of its repository and revision (the manifest's when the file names none).
    pub fn file_url(&self, file: &ModelFile) -> (r: String)
        ensures
            r@ == source_url(self@.repository, self@.revision, file@),
    {
        match &file.url {
            Some(u) => u.clone(),
            None => {
                let mut r = String::new();
                r.append("https://huggingface.co/");
                match &file.repository {
                    Some(x) => r.append(x.as_str()),
                    None => r.append(self.spec.repository.as_str()),
                }
                r.append("/resolve/");
                match &file.revision {
                    Some(x) => r.append(x.as_str()),
                    None => r.append(self.spec.revision.as_str()),
                }
                r.append("/");
                r.append(file.name.as_str());
                r
            },
        }
    }
}

/// The stages a user can pause.
pub open spec fn pausable(status: Seq<char>) -> bool {
    status == "downloading"@ || status == "checking"@ || status == "extracting"@
}

fn is_pausable(status: &Vec<char>) -> (r: bool)
    ensures
        r == pausable(status@),
{
    crate::strings::same_chars(status, &chars_of("downloading")) || crate::strings::same_chars(
        status,
        &chars_of("checking"),
    ) || crate::strings::same_chars(status, &chars_of("extracting"))
}

/// Progress after an update.
pub open spec fn updated(
    p: ProgressView,
    status: Seq<char>,
    file: Option<&str>,
    downloaded: Option<u64>,
    speed: u64,
) -> ProgressView {
    ProgressView {
        status,
        file: match file {
            Some(name) => name@,
            None => p.file,
        },
        downloaded: match downloaded {
            Some(n) => if n < p.total {
                n
            } else {
                p.total
            },
            None => p.downloaded,
        },
        bytes_per_second: speed,
        error: None,
        ..p
    }
}

/// The source of a manifest file.
pub open spec fn source_url(
    repository: Seq<char>,
    revision: Seq<char>,
    file: ModelFileView,
) -> Seq<char> {
    match file.url {
        Some(u) => u,
        None => "https://huggingface.co/"@ + match file.repository {
            Some(x) => x,
            None => repository,
        } + "/resolve/"@ + match file.revision {
            Some(x) => x,
            None => revision,
        } + "/"@ + file.name,
    }
}


/// Where the download of one file stands.
#[derive(Clone, Copy, PartialEq, Eq, Structural)]
pub enum Phase {
    Idle,
    Checking,
    Sizing,
    Transferring,
    Waiting,
    Verifying,
    Done,
    Failed,
}

/// The state of the file loop: its phase, the bytes of the files already in place,
/// the size of the partial file, its size before the last attempt, and the failed
/// attempts in a row.
#[derive(Clone, Copy, PartialEq, Eq, Structural)]
pub struct Fetch {
    pub phase: Phase,
    pub complete: u64,
    pub offset: u64,
    pub previous: u64,
    pub failures: u32,
}

/// The file loop before any file.
pub open spec fn idle_fetch() -> Fetch {
    Fetch { phase: Phase::Idle, complete: 0, offset: 0, previous: 0, failures: 0 }
}

impl Fetch {
    /// The file loop before any file.
    pub fn idle() -> (r: Fetch)
        ensures
            r == idle_fetch(),
    {
        Fetch { phase: Phase::Idle, complete: 0, offset: 0, previous: 0, failures: 0 }
    }
}

/// What the outside world reports to the file loop: a file starts; whether its final
/// file checked out; the size of its `.part`; the end of a transfer attempt with its
/// error, if any, and the size of the `.part` after it; the end of a wait; whether the
/// finished `.part` checked out.
pub enum FileEvent {
    Start,
    Checked(bool),
    PartialSize(Option<u64>),
    Transferred { error: Option<String>, offset: u64 },
    Waited,
    Verified(bool),
}

/// An event as values.
pub enum FileEventView {
    Start,
    Checked(bool),
    PartialSize(Option<u64>),
    Transferred { error: Option<Seq<char>>, offset: u64 },
    Waited,
    Verified(bool),
}

impl View for FileEvent {
    type V = FileEventView;

    open spec fn view(&self) -> FileEventView {
        match self {
            FileEvent::Start => FileEventView::Start,
            FileEvent::Checked(b) => FileEventView::Checked(*b),
            FileEvent::PartialSize(n) => FileEventView::PartialSize(*n),
            FileEvent::Transferred { error, offset } => FileEventView::Transferred {
                error: opt_view(*error),
                offset: *offset,
            },
            FileEvent::Waited => FileEventView::Waited,
            FileEvent::Verified(b) => FileEventView::Verified(*b),
        }
    }
}

/// What the file loop asks for next: check the final file against the manifest;
/// remove the final file if there is one, then report the `.part` size; remove the
/// `.part`, then report its size; request a byte range into the `.part`; wait; check
/// the `.part`; give the `.part` its final name; remove the `.part` and stop with an
/// error; stop with an error; go on with the next file.
pub enum FileAction {
    Check,
    DropFinal,
    DropPartial,
    Request { offset: u64, end: u64 },
    Wait { ms: u64 },
    Verify,
    Rename,
    Discard(String),
    Fail(String),
    Next,
}

/// An action as values.
pub enum FileActionView {
    Check,
    DropFinal,
    DropPartial,
    Request { offset: u64, end: u64 },
    Wait { ms: u64 },
    Verify,
    Rename,
    Discard(Seq<char>),
    Fail(Seq<char>),
    Next,
}

impl View for FileAction {
    type V = FileActionView;

    open spec fn view(&self) -> FileActionView {
        match self {
            FileAction::Check => FileActionView::Check,
            FileAction::DropFinal => FileActionView::DropFinal,
            FileAction::DropPartial => FileActionView::DropPartial,
            FileAction::Request { offset, end } => FileActionView::Request { offset: *offset, end: *end },
            FileAction::Wait { ms } => FileActionView::Wait { ms: *ms },
            FileAction::Verify => FileActionView::Verify,
            FileAction::Rename => FileActionView::Rename,
            FileAction::Discard(m) => FileActionView::Discard(m@),
            FileAction::Fail(m) => FileActionView::Fail(m@),
            FileAction::Next => FileActionView::Next,
        }
    }
}

/// Whether the file loop in a phase waits for this event. A new file can start at
/// any time.
pub open spec fn awaits(phase: Phase, e: FileEventView) -> bool {
    match e {
        FileEventView::Start => true,
        FileEventView::Checked(_) => phase == Phase::Checking,
        FileEventView::PartialSize(_) => phase == Phase::Sizing,
        FileEventView::Transferred { .. } => phase == Phase::Transferring,
        FileEventView::Waited => phase == Phase::Waiting,
        FileEventView::Verified(_) => phase == Phase::Verifying,
    }
}

/// `a + b`, or the largest `u64` when the sum does not fit.
pub open spec fn capped_add(a: u64, b: u64) -> u64 {
    if a + b > u64::MAX {
        u64::MAX
    } else {
        (a + b) as u64
    }
}

/// The last byte of the chunk requested from `offset`: at most 32 MiB, never past the
/// end of a file of `bytes` bytes.
pub open spec fn chunk_end(offset: u64, bytes: u64) -> u64 {
    if offset + 33554431 < bytes - 1 {
        (offset + 33554431) as u64
    } else {
        (bytes - 1) as u64
    }
}

/// Progress showing a stage of a named file.
pub open spec fn moved(
    p: ProgressView,
    status: Seq<char>,
    name: Seq<char>,
    downloaded: Option<u64>,
    speed: u64,
) -> ProgressView {
    ProgressView {
        status,
        file: name,
        downloaded: match downloaded {
            Some(n) => if n < p.total {
                n
            } else {
                p.total
            },
            None => p.downloaded,
        },
        bytes_per_second: speed,
        error: None,
        ..p
    }
}

/// The consecutive failures after one more failed attempt: progress resets them.
pub open spec fn failures_next(offset: u64, previous: u64, failures: u32) -> u32 {
    if offset > previous {
        0
    } else if failures < u32::MAX {
        (failures + 1) as u32
    } else {
        failures
    }
}

/// Going on from a `.part` of `offset` bytes: request the next chunk while the file
/// is short, else check it.
pub open spec fn go_on(v: DownloadsView, f: ModelFileView, offset: u64, failures: u32) -> (
    DownloadsView,
    FileActionView,
) {
    if offset < f.bytes {
        (
            DownloadsView {
                fetch: Fetch { phase: Phase::Transferring, offset, previous: offset, failures, ..v.fetch },
                progress: moved(
                    v.progress,
                    "downloading"@,
                    f.name,
                    Some(capped_add(v.fetch.complete, offset)),
                    v.progress.bytes_per_second,
                ),
                ..v
            },
            FileActionView::Request { offset, end: chunk_end(offset, f.bytes) },
        )
    } else {
        (
            DownloadsView {
                fetch: Fetch { phase: Phase::Verifying, offset, failures, ..v.fetch },
                progress: moved(
                    v.progress,
                    "checking"@,
                    f.name,
                    Some(capped_add(v.fetch.complete, f.bytes)),
                    0,
                ),
                ..v
            },
            FileActionView::Verify,
        )
    }
}

/// One step of the loop over file `file`: the next state and what to do.
/// - A file starts by checking its final file; a good one counts as complete and the
///   loop goes on, a bad one is removed.
/// - A `.part` larger than the file is removed; otherwise the download continues from
///   its size, in chunks, until it holds the whole file.
/// - A failed attempt waits a second per failure in a row; three failures in a row
///   without progress give up.
/// - A whole `.part` is checked; only a good one receives its final name, and a bad
///   one is removed with the download stopped.
pub open spec fn fetch_step(v: DownloadsView, file: int, e: FileEventView) -> (
    DownloadsView,
    FileActionView,
) {
    let f = v.files[file];
    match e {
        FileEventView::Start => (
            DownloadsView {
                fetch: Fetch { phase: Phase::Checking, offset: 0, previous: 0, failures: 0, ..v.fetch },
                progress: moved(v.progress, "checking"@, f.name, None, 0),
                ..v
            },
            FileActionView::Check,
        ),
        FileEventView::Checked(good) => if good {
            (
                DownloadsView {
                    fetch: Fetch {
                        phase: Phase::Done,
                        complete: capped_add(v.fetch.complete, f.bytes),
                        ..v.fetch
                    },
                    ..v
                },
                FileActionView::Next,
            )
        } else {
            (
                DownloadsView { fetch: Fetch { phase: Phase::Sizing, ..v.fetch }, ..v },
                FileActionView::DropFinal,
            )
        },
        FileEventView::PartialSize(size) => match size {
            Some(n) => if n > f.bytes {
                (v, FileActionView::DropPartial)
            } else {
                go_on(v, f, n, v.fetch.failures)
            },
            None => go_on(v, f, 0, v.fetch.failures),
        },
        FileEventView::Transferred { error, offset } => match error {
            None => go_on(v, f, offset, 0),
            Some(m) => {
                let k = failures_next(offset, v.fetch.previous, v.fetch.failures);
                if k >= 3 {
                    (
                        DownloadsView {
                            fetch: Fetch { phase: Phase::Failed, offset, failures: k, ..v.fetch },
                            ..v
                        },
                        FileActionView::Fail(key_args_text("downloadFailed"@, seq![m])),
                    )
                } else {
                    (
                        DownloadsView {
                            fetch: Fetch { phase: Phase::Waiting, offset, failures: k, ..v.fetch },
                            ..v
                        },
                        FileActionView::Wait { ms: (1000 * k) as u64 },
                    )
                }
            },
        },
        FileEventView::Waited => go_on(v, f, v.fetch.offset, v.fetch.failures),
        FileEventView::Verified(good) => if good {
            (
                DownloadsView {
                    fetch: Fetch {
                        phase: Phase::Done,
                        complete: capped_add(v.fetch.complete, f.bytes),
                        ..v.fetch
                    },
                    ..v
                },
                FileActionView::Rename,
            )
        } else {
            (
                DownloadsView {
                    fetch: Fetch { phase: Phase::Failed, ..v.fetch },
                    progress: updated(v.progress, "error"@, None, Some(v.fetch.complete), 0),
                    ..v
                },
                FileActionView::Discard(key_text("modelHashMismatch"@)),
            )
        },
    }
}

/// A file receives its final name only after its `.part` checked out, and the loop
/// asks for that check only once the `.part` holds the whole file.
pub proof fn lemma_final_name_only_after_verification(v: DownloadsView, file: int, e: FileEventView)
    requires
        0 <= file < v.files.len(),
        awaits(v.fetch.phase, e),
    ensures
        fetch_step(v, file, e).1 is Rename ==> e == FileEventView::Verified(true) && v.fetch.phase
            == Phase::Verifying,
        fetch_step(v, file, e).0.fetch.phase == Phase::Verifying ==> fetch_step(v, file, e).1
            is Verify && fetch_step(v, file, e).0.fetch.offset >= v.files[file].bytes,
        fetch_step(v, file, e).1 matches FileActionView::Request { offset, end } ==> offset <= end
            < v.files[file].bytes,
{
}

impl Downloads {
    /// Whether the file loop waits for this event now.
    pub fn awaits(&self, event: &FileEvent) -> (r: bool)
        ensures
            r == awaits(self@.fetch.phase, event@),
    {
        match event {
            FileEvent::Start => true,
            FileEvent::Checked(_) => self.fetch.phase == Phase::Checking,
            FileEvent::PartialSize(_) => self.fetch.phase == Phase::Sizing,
            FileEvent::Transferred { .. } => self.fetch.phase == Phase::Transferring,
            FileEvent::Waited => self.fetch.phase == Phase::Waiting,
            FileEvent::Verified(_) => self.fetch.phase == Phase::Verifying,
        }
    }

    /// The bytes of the files in place so far.
    pub fn completed(&self) -> (r: u64)
        ensures
            r == self@.fetch.complete,
    {
        self.fetch.complete
    }

    fn go_on(&mut self, file: usize, offset: u64, failures: u32) -> (r: FileAction)
        requires
            file < old(self)@.files.len(),
        ensures
            (final(self)@, r@) == go_on(old(self)@, old(self)@.files[file as int], offset, failures),
    {
        proof {
            use_type_invariant(&*self);
        }
        let bytes = self.spec.files[file].bytes;
        let name = self.spec.files[file].name.clone();
        assert(files_view(self.spec.files@)[file as int] == self.spec.files@[file as int]@);
        let complete = self.fetch.complete;
        if offset < bytes {
            let downloaded = if complete <= u64::MAX - offset {
                complete + offset
            } else {
                u64::MAX
            };
            let speed = self.state.bytes_per_second;
            self.update("downloading", Some(name.as_str()), Some(downloaded), speed);
            proof {
                use_type_invariant(&*self);
            }
            self.fetch = Fetch { phase: Phase::Transferring, offset, previous: offset, failures, ..self.fetch };
            let end = if offset <= u64::MAX - 33554431 {
                request_end(offset, bytes)
            } else {
                bytes - 1
            };
            FileAction::Request { offset, end }
        } else {
            let downloaded = if complete <= u64::MAX - bytes {
                complete + bytes
            } else {
                u64::MAX
            };
            self.update("checking", Some(name.as_str()), Some(downloaded), 0);
            proof {
                use_type_invariant(&*self);
            }
            self.fetch = Fetch { phase: Phase::Verifying, offset, failures, ..self.fetch };
            FileAction::Verify
        }
    }

    /// One step of the loop that brings file `file` into place: the state moves as
    /// `fetch_step` says and the action is what the caller does next.
    pub fn step(&mut self, file: usize, event: FileEvent) -> (r: FileAction)
        requires
            file < old(self)@.files.len(),
            awaits(old(self)@.fetch.phase, event@),
        ensures
            (final(self)@, r@) == fetch_step(old(self)@, file as int, event@),
            r is Rename ==> event@ == FileEventView::Verified(true),
    {
        proof {
            use_type_invariant(&*self);
        }
        let bytes = self.spec.files[file].bytes;
        assert(files_view(self.spec.files@)[file as int] == self.spec.files@[file as int]@);
        let complete = self.fetch.complete;
        let added = if complete <= u64::MAX - bytes {
            complete + bytes
        } else {
            u64::MAX
        };
        match event {
            FileEvent::Start => {
                let name = self.spec.files[file].name.clone();
                self.update("checking", Some(name.as_str()), None, 0);
            proof {
                use_type_invariant(&*self);
            }
                self.fetch = Fetch { phase: Phase::Checking, offset: 0, previous: 0, failures: 0, ..self.fetch };
                FileAction::Check
            },
            FileEvent::Checked(good) => {
                if good {
                    self.fetch = Fetch { phase: Phase::Done, complete: added, ..self.fetch };
                    FileAction::Next
                } else {
                    self.fetch = Fetch { phase: Phase::Sizing, ..self.fetch };
                    FileAction::DropFinal
                }
            },
            FileEvent::PartialSize(size) => match size {
                Some(n) => if n > bytes {
                    FileAction::DropPartial
                } else {
                    let failures = self.fetch.failures;
                    self.go_on(file, n, failures)
                },
                None => {
                    let failures = self.fetch.failures;
                    self.go_on(file, 0, failures)
                },
            },
            FileEvent::Transferred { error, offset } => match error {
                None => self.go_on(file, offset, 0),
                Some(m) => {
                    let previous = self.fetch.previous;
                    let failures = self.fetch.failures;
                    let k = if offset > previous {
                        0
                    } else if failures < u32::MAX {
                        failures + 1
                    } else {
                        failures
                    };
                    if k >= 3 {
                        self.fetch = Fetch { phase: Phase::Failed, offset, failures: k, ..self.fetch };
                        let ghost mv = m@;
                        let mut args: Vec<String> = Vec::new();
                        args.push(m);
                        assert(args@.map_values(|s: String| s@) =~= seq![mv]);
                        FileAction::Fail(f("downloadFailed", args.as_slice()))
                    } else {
                        self.fetch = Fetch { phase: Phase::Waiting, offset, failures: k, ..self.fetch };
                        FileAction::Wait { ms: 1000 * (k as u64) }
                    }
                },
            },
            FileEvent::Waited => {
                let offset = self.fetch.offset;
                let failures = self.fetch.failures;
                self.go_on(file, offset, failures)
            },
            FileEvent::Verified(good) => {
                if good {
                    self.fetch = Fetch { phase: Phase::Done, complete: added, ..self.fetch };
                    FileAction::Rename
                } else {
                    let m = self.reject(complete);
            proof {
                use_type_invariant(&*self);
            }
                    self.fetch = Fetch { phase: Phase::Failed, ..self.fetch };
                    FileAction::Discard(m)
                }
            },
        }
    }
}

// ---------------------------------------------------------------------------
// Range requests.

/// The reason phrase that `http` gives a status code (`"<unknown status code>"` when it
/// has none).
pub uninterp spec fn status_reason(code: u16) -> Seq<char>;

/// `StatusCode::to_string`: the code, a space and its reason phrase.
pub open spec fn status_text(code: u16) -> Seq<char> {
    crate::strings::decimal(code as nat) + " "@ + status_reason(code)
}

/// The text that `reqwest::StatusCode` displays for a code in `100..=999`.
#[verifier::external_body]
fn status_display(code: u16) -> (r: String)
    requires
        100 <= code <= 999,
    ensures
        r@ == crate::strings::decimal(code as nat) + " "@ + status_reason(code),
{
    match reqwest::StatusCode::from_u16(code) {
        Ok(status) => status.to_string(),
        Err(_) => String::new(),
    }
}

/// Where an answer to a range request lets the partial file continue. `200` means the
/// server ignored the range: start again from zero, never append a full response.
/// `206` must carry `Content-Range: bytes START-END/LENGTH` with `START` the requested
/// offset, `START <= END < total` and `LENGTH == total`. Anything else is an error.
pub open spec fn resume_from(
    status: u16,
    range: Option<Seq<char>>,
    offset: u64,
    total: u64,
) -> Result<u64, Seq<char>> {
    if status == 200 {
        Ok(0)
    } else if status != 206 {
        Err(key_args_text("downloadStatus"@, seq![status_text(status)]))
    } else {
        match range {
            None => Err(key_text("missingRange"@)),
            Some(header) => if !has_at(header, 0, "bytes "@) {
                Err(key_text("missingRange"@))
            } else {
                let rest = header.skip(6);
                let slash = find_char(rest, '/', 0);
                if slash < 0 {
                    Err(key_text("invalidRange"@))
                } else {
                    let span = rest.take(slash);
                    let length = rest.skip(slash + 1);
                    let dash = find_char(span, '-', 0);
                    if dash < 0 {
                        Err(key_text("invalidRangeSpan"@))
                    } else {
                        let first = span.take(dash);
                        let last = span.skip(dash + 1);
                        match parse_u64(first) {
                            Err(e) => Err(int_error_text(e)),
                            Ok(start) => match parse_u64(last) {
                                Err(e) => Err(int_error_text(e)),
                                Ok(end) => if start != offset || end >= total || end < start {
                                    Err(key_text("rangeMismatch"@))
                                } else {
                                    match parse_u64(length) {
                                        Err(e) => Err(int_error_text(e)),
                                        Ok(n) => if n != total {
                                            Err(key_text("rangeMismatch"@))
                                        } else {
                                            Ok(offset)
                                        },
                                    }
                                },
                            },
                        }
                    }
                }
            },
        }
    }
}

/// The `Content-Range` header of a partial answer: `bytes START-END/LENGTH`.
pub open spec fn content_range(start: u64, end: u64, length: u64) -> Seq<char> {
    "bytes "@ + crate::strings::decimal(start as nat) + "-"@ + crate::strings::decimal(end as nat) + "/"@
        + crate::strings::decimal(length as nat)
}

proof fn lemma_first_at(s: Seq<char>, c: char, k: int)
    requires
        0 <= k < s.len(),
        s[k] == c,
        forall|j: int| 0 <= j < k ==> #[trigger] s[j] != c,
    ensures
        find_char(s, c, 0) == k,
{
    crate::strings::lemma_find_char(s, c, 0);
}

/// A partial answer to a range request is accepted whenever it starts at the requested
/// offset, ends anywhere inside the file, and names the file's full length: the
/// transfer continues at the offset. A chunk need not reach the end of the file.
pub proof fn lemma_any_range_inside_the_file_is_accepted(offset: u64, end: u64, total: u64)
    requires
        offset <= end < total,
    ensures
        resume_from(206, Some(content_range(offset, end, total)), offset, total) == Ok::<
            u64,
            Seq<char>,
        >(offset),
{
    reveal_strlit("bytes ");
    reveal_strlit("-");
    reveal_strlit("/");
    let a = crate::strings::decimal(offset as nat);
    let b = crate::strings::decimal(end as nat);
    let c = crate::strings::decimal(total as nat);
    crate::strings::lemma_decimal_digits(offset as nat);
    crate::strings::lemma_decimal_digits(end as nat);
    crate::strings::lemma_decimal_digits(total as nat);
    crate::strings::lemma_parse_decimal(offset);
    crate::strings::lemma_parse_decimal(end);
    crate::strings::lemma_parse_decimal(total);
    let header = content_range(offset, end, total);
    assert(header.subrange(0, 6) =~= "bytes "@);
    let rest = header.skip(6);
    assert(rest =~= a + "-"@ + b + "/"@ + c);
    let k: int = a.len() as int + 1 + b.len() as int;
    assert(rest[k] == '/');
    assert forall|j: int| 0 <= j < k implies #[trigger] rest[j] != '/' by {
        if j < a.len() {
            assert(rest[j] == a[j]);
            assert(crate::strings::is_digit(a[j]));
        } else if j == a.len() {
            assert(rest[j] == '-');
        } else {
            assert(rest[j] == b[j - a.len() - 1]);
            assert(crate::strings::is_digit(b[j - a.len() - 1]));
        }
    }
    lemma_first_at(rest, '/', k);
    let span = rest.take(k);
    assert(span =~= a + "-"@ + b);
    assert(rest.skip(k + 1) =~= c);
    assert(span[a.len() as int] == '-');
    assert forall|j: int| 0 <= j < a.len() implies #[trigger] span[j] != '-' by {
        assert(span[j] == a[j]);
        assert(crate::strings::is_digit(a[j]));
    }
    lemma_first_at(span, '-', a.len() as int);
    assert(span.take(a.len() as int) =~= a);
    assert(span.skip(a.len() as int + 1) =~= b);
}

/// Checks the answer to a range request; see `resume_from`.
pub fn resume_offset(status: u16, range: Option<&str>, offset: u64, total: u64) -> (r: Result<
    u64,
    String,
>)
    requires
        100 <= status <= 999,
    ensures
        match r {
            Ok(n) => resume_from(status, opt_str(range), offset, total) == Ok::<u64, Seq<char>>(n),
            Err(e) => resume_from(status, opt_str(range), offset, total) == Err::<u64, Seq<char>>(
                e@,
            ),
        },
{
    if status == 200 {
        return Ok(0);
    }
    if status != 206 {
        let args = vec![status_display(status)];
        let r = f("downloadStatus", args.as_slice());
        assert(args@.map_values(|s: String| s@) =~= seq![status_text(status)]);
        return Err(r);
    }
    let header = match range {
        Some(h) => chars_of(h),
        None => {
            return Err(text("missingRange"));
        },
    };
    if !starts_at(&header, 0, &chars_of("bytes ")) {
        return Err(text("missingRange"));
    }
    proof {
        reveal_strlit("bytes ");
    }
    let ghost rest = header@.skip(6);
    let slash = match find_in(&header, '/', 6, header.len()) {
        Some(k) => k,
        None => {
            assert(header@.subrange(6, header@.len() as int) =~= rest);
            return Err(text("invalidRange"));
        },
    };
    assert(header@.subrange(6, header@.len() as int) =~= rest);
    let ghost span = rest.take(slash - 6);
    let dash = match find_in(&header, '-', 6, slash) {
        Some(k) => k,
        None => {
            assert(header@.subrange(6, slash as int) =~= span);
            return Err(text("invalidRangeSpan"));
        },
    };
    assert(header@.subrange(6, slash as int) =~= span);
    assert(header@.subrange(6, dash as int) =~= span.take(dash - 6));
    assert(header@.subrange(dash + 1, slash as int) =~= span.skip(dash - 6 + 1));
    assert(header@.subrange(slash + 1, header@.len() as int) =~= rest.skip(slash - 6 + 1));
    let start = match parse_u64_range(&header, 6, dash) {
        Ok(v) => v,
        Err(e) => {
            return Err(int_error_message(e));
        },
    };
    let end = match parse_u64_range(&header, dash + 1, slash) {
        Ok(v) => v,
        Err(e) => {
            return Err(int_error_message(e));
        },
    };
    if start != offset || end >= total || end < start {
        return Err(text("rangeMismatch"));
    }
    let length = match parse_u64_range(&header, slash + 1, header.len()) {
        Ok(v) => v,
        Err(e) => {
            return Err(int_error_message(e));
        },
    };
    if length != total {
        return Err(text("rangeMismatch"));
    }
    Ok(offset)
}

/// The text of an optional string slice.
pub open spec fn opt_str(o: Option<&str>) -> Option<Seq<char>> {
    match o {
        Some(s) => Some(s@),
        None => None,
    }
}

/// The number of bytes a `206` answer promises to end at: one past the `END` of
/// `Content-Range` (the text between the first `-` and the first `/`).
pub open spec fn range_end(header: Seq<char>) -> Option<u64> {
    let slash = find_char(header, '/', 0);
    if slash < 0 {
        None
    } else {
        let span = header.take(slash);
        let dash = find_char(span, '-', 0);
        if dash < 0 {
            None
        } else {
            match parse_u64(span.skip(dash + 1)) {
                Ok(end) => if end < u64::MAX {
                    Some((end + 1) as u64)
                } else {
                    None
                },
                Err(_) => None,
            }
        }
    }
}

/// How many bytes the partial file should hold when a `206` answer ends; `None` when the
/// header does not say (an `Invalid Content-Range` error).
pub fn content_end(header: &str) -> (r: Option<u64>)
    ensures
        r == range_end(header@),
{
    let v = chars_of(header);
    let slash = match find_in(&v, '/', 0, v.len()) {
        Some(k) => k,
        None => {
            assert(v@.subrange(0, v@.len() as int) =~= v@);
            return None;
        },
    };
    assert(v@.subrange(0, v@.len() as int) =~= v@);
    let dash = match find_in(&v, '-', 0, slash) {
        Some(k) => k,
        None => {
            assert(v@.subrange(0, slash as int) =~= v@.take(slash as int));
            return None;
        },
    };
    assert(v@.subrange(0, slash as int) =~= v@.take(slash as int));
    assert(v@.subrange(dash + 1, slash as int) =~= v@.take(slash as int).skip(dash + 1));
    match parse_u64_range(&v, dash + 1, slash) {
        Ok(end) => if end < u64::MAX {
            Some(end + 1)
        } else {
            None
        },
        Err(_) => None,
    }
}

/// The last byte of the next chunk request: at most 32 MiB from `offset`, never past the
/// end of the file.
pub fn request_end(offset: u64, total: u64) -> (r: u64)
    requires
        offset < total,
        offset + 32 * 1024 * 1024 - 1 <= u64::MAX,
    ensures
        r == if offset + 32 * 1024 * 1024 - 1 < total - 1 {
            offset + 32 * 1024 * 1024 - 1
        } else {
            total - 1
        },
{
    let end = offset + (32 * 1024 * 1024 - 1);
    if end < total - 1 {
        end
    } else {
        total - 1
    }
}

/// The bytes received after `n` more arrived; a transfer may never grow past the
/// file's size.
pub fn received_after(received: u64, n: u64, total: u64) -> (r: Result<u64, String>)
    ensures
        received + n > total ==> (r matches Err(e) && e@ == key_text("modelTooLarge"@)),
        received + n <= total ==> r == Ok::<u64, String>((received + n) as u64),
{
    if n > total || received > total - n {
        Err(text("modelTooLarge"))
    } else {
        Ok(received + n)
    }
}

/// A transfer that ended before the promised end was interrupted.
pub fn transfer_complete(received: u64, expected: u64) -> (r: Result<(), String>)
    ensures
        received == expected ==> r is Ok,
        received != expected ==> (r matches Err(e) && e@ == key_text("downloadInterrupted"@)),
{
    if received != expected {
        Err(text("downloadInterrupted"))
    } else {
        Ok(())
    }
}

/// Whether a hash of a file's bytes is the checksum the manifest pins.
pub fn digest_matches(hash: crate::checksum::Checksum, file: &ModelFile) -> (r: bool)
    ensures
        r == (crate::checksum::hex_text(crate::checksum::sha256(hash@)) == file@.sha256),
{
    let digest = hash.hex();
    crate::strings::same_text(digest.as_str(), file.sha256.as_str())
}



// ---------------------------------------------------------------------------
// Transitions of the control state.

/// After `reset`.
pub open spec fn after_reset(v: DownloadsView) -> DownloadsView {
    DownloadsView { control: Control::Running, ..v }
}

/// After `pause`: a pausable stage is remembered, and a running download is asked to
/// pause and shows `pausing`.
pub open spec fn after_pause(v: DownloadsView) -> DownloadsView {
    if !pausable(v.progress.status) {
        v
    } else if v.control == Control::Running {
        DownloadsView {
            paused_from: v.progress.status,
            control: Control::PauseRequested,
            progress: updated(v.progress, "pausing"@, None, None, 0),
            ..v
        }
    } else {
        DownloadsView { paused_from: v.progress.status, ..v }
    }
}

/// After `resume`.
pub open spec fn after_resume(v: DownloadsView) -> DownloadsView {
    DownloadsView {
        control: if v.control == Control::PauseRequested {
            Control::Running
        } else {
            v.control
        },
        ..v
    }
}

/// After `cancel`.
pub open spec fn after_cancel(v: DownloadsView) -> DownloadsView {
    DownloadsView { control: Control::CancelRequested, ..v }
}

/// After `checkpoint_begin`.
pub open spec fn after_checkpoint_begin(v: DownloadsView) -> DownloadsView {
    if v.control == Control::PauseRequested {
        DownloadsView { progress: updated(v.progress, "paused"@, None, None, 0), ..v }
    } else {
        v
    }
}

/// After `checkpoint_end`.
pub open spec fn after_checkpoint_end(v: DownloadsView, paused: bool) -> DownloadsView {
    if paused && v.control == Control::Running {
        DownloadsView { progress: updated(v.progress, v.paused_from, None, None, 0), ..v }
    } else {
        v
    }
}

/// A paused stage comes back when the pause is withdrawn: pausing a running download
/// that is downloading, checking or extracting, reaching a checkpoint, resuming and
/// finishing the checkpoint leaves it running in the stage it had, with no error.
pub proof fn lemma_resumed_pause_restores_stage(v: DownloadsView)
    requires
        pausable(v.progress.status),
        v.control == Control::Running,
    ensures
        after_pause(v).control == Control::PauseRequested,
        after_checkpoint_begin(after_pause(v)).progress.status == "paused"@,
        after_checkpoint_end(after_resume(after_checkpoint_begin(after_pause(v))), true).progress.status
            == v.progress.status,
        after_checkpoint_end(after_resume(after_checkpoint_begin(after_pause(v))), true).control
            == Control::Running,
        after_checkpoint_end(after_resume(after_checkpoint_begin(after_pause(v))), true).progress.error
            is None,
{
}

/// A stop request stands until `reset`: neither `pause` nor `resume` nor a checkpoint
/// withdraws it, so every later checkpoint ends the operation.
pub proof fn lemma_stop_request_stands(v: DownloadsView, paused: bool)
    requires
        v.control == Control::CancelRequested,
    ensures
        after_pause(v).control == Control::CancelRequested,
        after_resume(v).control == Control::CancelRequested,
        after_checkpoint_begin(v).control == Control::CancelRequested,
        after_checkpoint_end(v, paused).control == Control::CancelRequested,
        after_reset(v).control == Control::Running,
{
}


/// A resumed transfer never appends a full response: an answer that ignores the range
/// restarts from zero, and an accepted partial answer continues exactly where the
/// partial file ends.
pub proof fn lemma_resume_appends_only_the_requested_range(
    status: u16,
    range: Option<Seq<char>>,
    offset: u64,
    total: u64,
)
    ensures
        status == 200 ==> resume_from(status, range, offset, total) == Ok::<u64, Seq<char>>(0),
        resume_from(status, range, offset, total) is Ok && status != 200 ==> status == 206
            && resume_from(status, range, offset, total) == Ok::<u64, Seq<char>>(offset) && offset
            < total,
{
}

} // verus!

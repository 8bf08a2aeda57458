//! Inference runtimes: which backends a machine offers, which to try in which order,
//! where each lives, and which archive entries and receipts may be trusted.
use crate::download::{files_view, Downloads, DownloadsView, ModelFile, ModelFileView};
use crate::i18n::{key_text, text};
use crate::store::{join, join_path};
use crate::strings::{chars_of, same_text};
use crate::table::texts_of;
use vstd::prelude::*;

verus! {

/// The GPU backends whose drivers answered the probes.
#[derive(Clone, Copy, PartialEq, Eq, Structural)]
pub struct Hardware {
    pub cuda: bool,
    pub vulkan: bool,
}

impl Default for Hardware {
    fn default() -> (r: Hardware)
        ensures
            r == (Hardware { cuda: false, vulkan: false }),
    {
        Hardware { cuda: false, vulkan: false }
    }
}

/// The backends to try for a requested device, in order: automatic mode tries the
/// one GPU backend the machine offers (CUDA before Vulkan) and then the CPU; an
/// explicit device is tried alone.
pub open spec fn candidate_list(h: Hardware, requested: Seq<char>) -> Seq<Seq<char>> {
    if requested == "auto"@ {
        if h.cuda {
            seq!["cuda"@, "cpu"@]
        } else if h.vulkan {
            seq!["vulkan"@, "cpu"@]
        } else {
            seq!["cpu"@]
        }
    } else {
        seq![requested]
    }
}

/// Whether a backend name is a GPU backend.
pub open spec fn gpu(name: Seq<char>) -> bool {
    name == "cuda"@ || name == "vulkan"@
}

/// Texts as values.
pub open spec fn strs_view(v: Seq<&str>) -> Seq<Seq<char>> {
    v.map_values(|s: &str| s@)
}

/// Whether a device answered the compute-capability queries with 7.5 or later,
/// which the CUDA 13 engine needs.
pub open spec fn turing_or_later(capability: Option<(i32, i32)>) -> bool {
    match capability {
        Some((major, minor)) => major > 7 || (major == 7 && minor >= 5),
        None => false,
    }
}

/// Whether the CUDA engine can run: the driver initialised, counted its devices and
/// reported a version no older than the manifest's minimum, and some device is
/// Turing or later.
pub open spec fn cuda_usable(
    answered: bool,
    driver_version: i32,
    minimum: i32,
    devices: Seq<Option<(i32, i32)>>,
) -> bool {
    answered && driver_version >= minimum && exists|i: int|
        0 <= i < devices.len() && #[trigger] turing_or_later(devices[i])
}

impl Hardware {
    /// The backends found by the driver probes; a probe that could not run counts as
    /// no backend.
    pub fn detect(cuda: Option<bool>, vulkan: Option<bool>) -> (r: Hardware)
        ensures
            r.cuda == (cuda == Some(true)),
            r.vulkan == (vulkan == Some(true)),
    {
        Hardware {
            cuda: match cuda {
                Some(b) => b,
                None => false,
            },
            vulkan: match vulkan {
                Some(b) => b,
                None => false,
            },
        }
    }

    /// The backends to try for a requested device, in order.
    pub fn candidates<'a>(self, requested: &'a str) -> (r: Vec<&'a str>)
        ensures
            strs_view(r@) == candidate_list(self, requested@),
    {
        let mut r: Vec<&'a str> = Vec::new();
        if same_text(requested, "auto") {
            if self.cuda {
                r.push("cuda");
                r.push("cpu");
            } else if self.vulkan {
                r.push("vulkan");
                r.push("cpu");
            } else {
                r.push("cpu");
            }
        } else {
            r.push(requested);
        }
        assert(strs_view(r@) =~= candidate_list(self, requested@));
        r
    }
}

/// Automatic mode downloads at most one GPU backend and always ends on the CPU.
pub proof fn lemma_auto_tries_one_gpu_then_cpu(h: Hardware)
    ensures
        candidate_list(h, "auto"@).last() == "cpu"@,
        forall|i: int, j: int|
            0 <= i < j < candidate_list(h, "auto"@).len() ==> !(gpu(
                #[trigger] candidate_list(h, "auto"@)[i],
            ) && gpu(#[trigger] candidate_list(h, "auto"@)[j])),
{
    reveal_strlit("cpu");
    reveal_strlit("cuda");
    reveal_strlit("vulkan");
    assert("cpu"@.len() == 3);
    assert("cuda"@.len() == 4);
    assert("cpu"@ != "cuda"@);
    assert(!gpu("cpu"@));
    let c = candidate_list(h, "auto"@);
    if h.cuda {
        assert(c =~= seq!["cuda"@, "cpu"@]);
    } else if h.vulkan {
        assert(c =~= seq!["vulkan"@, "cpu"@]);
    } else {
        assert(c =~= seq!["cpu"@]);
    }
}

/// An explicitly chosen device is tried alone: a failure to start it is reported
/// instead of silently falling back to another backend.
pub proof fn lemma_explicit_device_is_tried_alone(h: Hardware, requested: Seq<char>)
    requires
        requested != "auto"@,
    ensures
        candidate_list(h, requested) == seq![requested],
{
}

/// Whether the CUDA engine can run, from the driver's answers.
pub fn cuda_supported(
    answered: bool,
    driver_version: i32,
    minimum: i32,
    devices: &Vec<Option<(i32, i32)>>,
) -> (r: bool)
    ensures
        r == cuda_usable(answered, driver_version, minimum, devices@),
{
    if !answered || driver_version < minimum {
        return false;
    }
    let mut i: usize = 0;
    while i < devices.len()
        invariant
            answered,
            driver_version >= minimum,
            i <= devices.len(),
            forall|j: int| 0 <= j < i ==> !#[trigger] turing_or_later(devices@[j]),
        decreases devices.len() - i,
    {
        let fits = match devices[i] {
            Some((major, minor)) => major > 7 || (major == 7 && minor >= 5),
            None => false,
        };
        if fits {
            assert(turing_or_later(devices@[i as int]));
            return true;
        }
        i += 1;
    }
    false
}

/// Whether the Vulkan engine can run: an instance was created and listing its
/// physical devices succeeded with at least one.
pub fn vulkan_supported(created: bool, result: i32, count: u32) -> (r: bool)
    ensures
        r == (created && result == 0 && count > 0),
{
    created && result == 0 && count > 0
}

/// The pinned runtime archives for each GPU backend.
pub struct Manifest {
    pub version: String,
    pub cuda_driver_minimum: i32,
    pub files: Vec<(String, Vec<ModelFile>)>,
}

/// The archives listed for a device: the first entry under its name.
pub open spec fn archives_for(entries: Seq<(String, Vec<ModelFile>)>, device: Seq<char>) -> Option<
    Seq<ModelFileView>,
>
    decreases entries.len(),
{
    if entries.len() == 0 {
        None
    } else if entries[0].0@ == device {
        Some(files_view(entries[0].1@))
    } else {
        archives_for(entries.drop_first(), device)
    }
}

/// Where the engine for a device comes from.
pub enum RuntimeTarget {
    /// The CPU engine that ships with the application.
    Bundled(String),
    /// A GPU engine, installed into `root` from the `files` downloaded into `downloads`.
    Download { root: String, version_root: String, downloads: String, files: Vec<ModelFile> },
}

/// The runtime cache below the data root, and the download that is under way.
pub struct Runtimes {
    root: String,
    active: Option<Downloads>,
    cancelled: bool,
}

/// The runtime cache as values.
pub struct RuntimesView {
    pub root: Seq<char>,
    pub active: Option<DownloadsView>,
    pub cancelled: bool,
}

impl View for Runtimes {
    type V = RuntimesView;

    closed spec fn view(&self) -> RuntimesView {
        RuntimesView {
            root: self.root@,
            active: match self.active {
                Some(d) => Some(d@),
                None => None,
            },
            cancelled: self.cancelled,
        }
    }
}

impl Runtimes {
    /// The cache in `runtimes` below the data root, with nothing under way.
    pub fn new(data_root: &str) -> (r: Runtimes)
        ensures
            r@ == (RuntimesView {
                root: join_path(data_root@, "runtimes"@),
                active: None,
                cancelled: false,
            }),
    {
        Runtimes { root: join(data_root, "runtimes"), active: None, cancelled: false }
    }

    /// The download under way, if any.
    pub fn active(&self) -> (r: Option<&Downloads>)
        ensures
            match r {
                Some(d) => self@.active == Some(d@),
                None => self@.active is None,
            },
    {
        match &self.active {
            Some(d) => Some(d),
            None => None,
        }
    }

    /// Clears a stop request and forgets the last download.
    pub fn reset(&mut self)
        ensures
            final(self)@ == (RuntimesView { active: None, cancelled: false, ..old(self)@ }),
    {
        self.cancelled = false;
        self.active = None;
    }

    /// Stops: no runtime is prepared until a reset, and a download under way is asked
    /// to stop.
    pub fn cancel(&mut self)
        ensures
            final(self)@ == (RuntimesView {
                cancelled: true,
                active: match old(self)@.active {
                    Some(d) => Some(crate::download::after_cancel(d)),
                    None => None,
                },
                ..old(self)@
            }),
    {
        self.cancelled = true;
        match &mut self.active {
            Some(d) => d.cancel(),
            None => {},
        }
    }

    /// Where the engine for a device comes from. A stop request refuses, the CPU
    /// engine is bundled, and CUDA and Vulkan engines are installed in a directory
    /// of their own below the manifest's version, their archives downloaded next to
    /// it.
    #[verifier::loop_isolation(false)]
    pub fn ensure(&self, resources: &str, device: &str, manifest: &Manifest) -> (r: Result<RuntimeTarget, String>)
        ensures
            self@.cancelled ==> (r matches Err(e) && e@ == key_text("cancelledOperation"@)),
            !self@.cancelled && device@ == "cpu"@ ==> (r matches Ok(RuntimeTarget::Bundled(p))
                && p@ == join_path(resources@, "runtime/cpu"@)),
            !self@.cancelled && device@ != "cpu"@ && !(gpu(device@) && archives_for(
                manifest.files@,
                device@,
            ) is Some) ==> (r matches Err(e) && e@ == key_text("unsupportedDevice"@)),
            !self@.cancelled && gpu(device@) ==> match archives_for(manifest.files@, device@) {
                Some(a) => {
                    let version_root = join_path(self@.root, manifest.version@);
                    &&& r matches Ok(RuntimeTarget::Download { root, version_root: v, downloads, files })
                    &&& root@ == join_path(version_root, device@)
                    &&& v@ == version_root
                    &&& downloads@ == join_path(join_path(version_root, "downloads"@), device@)
                    &&& files_view(files@) == a
                },
                None => true,
            },
    {
        proof {
            reveal_strlit("cpu");
            reveal_strlit("cuda");
            reveal_strlit("vulkan");
            assert("cpu"@.len() == 3 && "cuda"@.len() == 4 && "vulkan"@.len() == 6);
            assert("cpu"@ != "cuda"@ && "cpu"@ != "vulkan"@);
        }
        if self.cancelled {
            return Err(text("cancelledOperation"));
        }
        if same_text(device, "cpu") {
            return Ok(RuntimeTarget::Bundled(join(resources, "runtime/cpu")));
        }
        if !(same_text(device, "cuda") || same_text(device, "vulkan")) {
            return Err(text("unsupportedDevice"));
        }
        let ghost entries = manifest.files@;
        let mut i: usize = 0;
        assert(entries.skip(0) =~= entries);
        while i < manifest.files.len()
            invariant
                entries == manifest.files@,
                i <= manifest.files.len(),
                archives_for(entries, device@) == archives_for(entries.skip(i as int), device@),
            decreases manifest.files.len() - i,
        {
            assert(entries.skip(i as int)[0] == entries[i as int]);
            assert(entries.skip(i as int).drop_first() =~= entries.skip(i + 1));
            if same_text(manifest.files[i].0.as_str(), device) {
                let files = copy_files(&manifest.files[i].1);
                let version_root = join(self.root.as_str(), manifest.version.as_str());
                let root = join(version_root.as_str(), device);
                let below = join(version_root.as_str(), "downloads");
                let downloads = join(below.as_str(), device);
                return Ok(RuntimeTarget::Download { root, version_root, downloads, files });
            }
            i += 1;
        }
        assert(entries.skip(i as int).len() == 0);
        Err(text("unsupportedDevice"))
    }

    /// The download of an engine becomes the one under way; it is asked to stop at
    /// once when a stop was requested meanwhile.
    pub fn start(&mut self, download: Downloads)
        ensures
            final(self)@ == (RuntimesView {
                active: Some(if old(self)@.cancelled {
                    crate::download::after_cancel(download@)
                } else {
                    download@
                }),
                ..old(self)@
            }),
    {
        let mut d = download;
        if self.cancelled {
            d.cancel();
        }
        self.active = Some(d);
    }

    /// The download under way, to drive or to pause, resume or stop.
    pub fn active_mut(&mut self) -> (r: Option<&mut Downloads>)
        ensures
            match r {
                Some(d) => old(self)@.active == Some((*d)@) && final(self)@ == (RuntimesView {
                    active: Some((*final(d))@),
                    ..old(self)@
                }),
                None => old(self)@.active is None && final(self)@ == old(self)@,
            },
    {
        match &mut self.active {
            Some(d) => Some(d),
            None => None,
        }
    }
}

/// A copy of a list of manifest files.
fn copy_files(files: &Vec<ModelFile>) -> (r: Vec<ModelFile>)
    ensures
        files_view(r@) == files_view(files@),
{
    let mut r: Vec<ModelFile> = Vec::new();
    let mut i: usize = 0;
    while i < files.len()
        invariant
            i <= files.len(),
            r.len() == i,
            forall|j: int| 0 <= j < i ==> #[trigger] r@[j]@ == files@[j]@,
        decreases files.len() - i,
    {
        r.push(crate::download::copy_file(&files[i]));
        i += 1;
    }
    assert(files_view(r@) =~= files_view(files@));
    r
}

/// Whether a name is a plain file name: not empty, not `.` or `..`, and without
/// `/`, `\\` or `:`.
pub open spec fn plain_name(name: Seq<char>) -> bool {
    &&& name.len() > 0
    &&& forall|i: int| 0 <= i < name.len() ==> #[trigger] name[i] != '/' && name[i] != '\\' && name[i] != ':'
    &&& name != "."@
    &&& name != ".."@
}

/// Whether a name is a plain file name.
pub fn plain_file(name: &str) -> (r: bool)
    ensures
        r == plain_name(name@),
{
    let v = chars_of(name);
    if v.len() == 0 {
        return false;
    }
    let mut i: usize = 0;
    while i < v.len()
        invariant
            v@ == name@,
            i <= v.len(),
            forall|j: int| 0 <= j < i ==> #[trigger] v@[j] != '/' && v@[j] != '\\' && v@[j] != ':',
        decreases v.len() - i,
    {
        if v[i] == '/' || v[i] == '\\' || v[i] == ':' {
            return false;
        }
        i += 1;
    }
    !same_text(name, ".") && !same_text(name, "..")
}

/// The files that an installed engine for a device must hold.
pub open spec fn required_names(device: Seq<char>) -> Seq<Seq<char>> {
    seq![
        "llama-server.exe"@,
        "llama.dll"@,
        "mtmd.dll"@,
        "ggml.dll"@,
        "ggml-base.dll"@,
        "vcruntime140.dll"@,
        "ggml-"@ + device + ".dll"@,
    ]
}

/// The files that an installed engine for a device must hold.
pub fn required(device: &str) -> (r: Vec<String>)
    ensures
        texts_of(r@) == required_names(device@),
{
    let mut r: Vec<String> = Vec::new();
    r.push("llama-server.exe".to_string());
    r.push("llama.dll".to_string());
    r.push("mtmd.dll".to_string());
    r.push("ggml.dll".to_string());
    r.push("ggml-base.dll".to_string());
    r.push("vcruntime140.dll".to_string());
    let mut last = "ggml-".to_string();
    last.append(device);
    last.append(".dll");
    r.push(last);
    assert(texts_of(r@) =~= required_names(device@));
    r
}

/// One file of an installed engine, as its receipt records it.
pub struct FileRecord {
    pub name: String,
    pub bytes: u64,
    pub sha256: String,
}

/// Whether a recorded file is in place: its name is a plain file name, and on disk
/// it is a regular file of the recorded size. Its checksum is compared afterwards.
pub open spec fn record_in_place(name: Seq<char>, bytes: u64, regular: bool, size: u64) -> bool {
    plain_name(name) && regular && size == bytes
}

impl FileRecord {
    /// Whether the file is in place, given whether a regular file has its name and its
    /// size.
    pub fn in_place(&self, regular: bool, size: u64) -> (r: bool)
        ensures
            r == record_in_place(self.name@, self.bytes, regular, size),
    {
        plain_file(self.name.as_str()) && regular && size == self.bytes
    }

    /// Whether the file's SHA-256, in hexadecimal, is the recorded one.
    pub fn digest_is(&self, digest: &str) -> (r: bool)
        ensures
            r == (digest@ == self.sha256@),
    {
        same_text(digest, self.sha256.as_str())
    }
}

/// What an installation wrote beside the engine: its owner, the archives it came
/// from, and each file it holds.
pub struct Receipt {
    pub owner: String,
    pub archives: Vec<String>,
    pub files: Vec<FileRecord>,
}

/// The owner that marks a runtime directory as this application's.
pub open spec fn runtime_owner() -> Seq<char> {
    "FastFileOCR runtime v1"@
}

/// The checksums of a list of archives.
pub open spec fn archive_sums(archives: Seq<ModelFileView>) -> Seq<Seq<char>> {
    archives.map_values(|f: ModelFileView| f.sha256)
}

/// Whether a receipt fits the archives of a device: it is this application's, it was
/// made from exactly these archives, in order, and it lists every required file.
/// The files themselves are checked on disk afterwards.
pub open spec fn receipt_fits(
    owner: Seq<char>,
    sums: Seq<Seq<char>>,
    names: Seq<Seq<char>>,
    device: Seq<char>,
    archives: Seq<ModelFileView>,
) -> bool {
    &&& owner == runtime_owner()
    &&& sums == archive_sums(archives)
    &&& forall|k: int|
        0 <= k < required_names(device).len() ==> names.contains(
            #[trigger] required_names(device)[k],
        )
}

/// The names a receipt lists.
pub open spec fn record_names(files: Seq<FileRecord>) -> Seq<Seq<char>> {
    files.map_values(|f: FileRecord| f.name@)
}

/// Whether some record has the name.
fn lists(files: &Vec<FileRecord>, name: &str) -> (r: bool)
    ensures
        r == record_names(files@).contains(name@),
{
    let mut i: usize = 0;
    while i < files.len()
        invariant
            i <= files.len(),
            forall|j: int| 0 <= j < i ==> #[trigger] record_names(files@)[j] != name@,
        decreases files.len() - i,
    {
        if same_text(files[i].name.as_str(), name) {
            assert(record_names(files@)[i as int] == name@);
            return true;
        }
        i += 1;
    }
    false
}

impl Receipt {
    /// Whether the receipt fits the archives of a device.
    pub fn fits(&self, device: &str, archives: &Vec<ModelFile>) -> (r: bool)
        ensures
            r == receipt_fits(
                self.owner@,
                texts_of(self.archives@),
                record_names(self.files@),
                device@,
                files_view(archives@),
            ),
    {
        if !same_text(self.owner.as_str(), "FastFileOCR runtime v1") {
            return false;
        }
        if self.archives.len() != archives.len() {
            assert(texts_of(self.archives@).len() != archive_sums(files_view(archives@)).len());
            return false;
        }
        let mut i: usize = 0;
        while i < archives.len()
            invariant
                i <= archives.len(),
                self.archives.len() == archives.len(),
                forall|j: int| 0 <= j < i ==> #[trigger] self.archives@[j]@ == archives@[j].sha256@,
            decreases archives.len() - i,
        {
            if !same_text(self.archives[i].as_str(), archives[i].sha256.as_str()) {
                assert(texts_of(self.archives@)[i as int] != archive_sums(files_view(archives@))[i as int]);
                return false;
            }
            i += 1;
        }
        assert(texts_of(self.archives@) =~= archive_sums(files_view(archives@)));
        let names = required(device);
        let mut k: usize = 0;
        while k < names.len()
            invariant
                k <= names.len(),
                texts_of(names@) == required_names(device@),
                forall|m: int| 0 <= m < k ==> record_names(self.files@).contains(
                    #[trigger] required_names(device@)[m],
                ),
            decreases names.len() - k,
        {
            assert(texts_of(names@)[k as int] == names@[k as int]@);
            if !lists(&self.files, names[k].as_str()) {
                return false;
            }
            k += 1;
        }
        true
    }
}

/// What to do with one entry of an engine archive.
pub enum EntryAction {
    /// Leave it: a directory, or a file that is neither the server nor a library.
    Skip,
    /// Write it under this name; the running total of written bytes is `total`.
    Extract { name: String, total: u64 },
}

/// The most bytes an engine archive may unpack to.
pub open spec fn unpack_limit() -> int {
    4294967296int
}

/// Whether a name ends in `.dll`, ASCII letters compared without case.
pub open spec fn library_name(name: Seq<char>) -> bool {
    &&& name.len() >= 4
    &&& name[name.len() - 4] == '.'
    &&& (name[name.len() - 3] == 'd' || name[name.len() - 3] == 'D')
    &&& (name[name.len() - 2] == 'l' || name[name.len() - 2] == 'L')
    &&& (name[name.len() - 1] == 'l' || name[name.len() - 1] == 'L')
}

/// The decision for one archive entry, given its raw name, whether it has a name that
/// stays inside the output directory, its final path component, whether it is a
/// symbolic link or a directory, its size, and the bytes written so far.
pub open spec fn entry_decision(
    raw: Seq<char>,
    enclosed: bool,
    file_name: Option<Seq<char>>,
    link: bool,
    dir: bool,
    size: u64,
    total: u64,
) -> Option<Option<(Seq<char>, u64)>> {
    if !enclosed {
        None
    } else if raw.contains('\\') || raw.contains(':') || link {
        None
    } else if dir {
        Some(None)
    } else {
        match file_name {
            None => None,
            Some(name) => if !plain_name(name) {
                None
            } else if name != "llama-server.exe"@ && !library_name(name) {
                Some(None)
            } else if total + size > unpack_limit() {
                None
            } else {
                Some(Some((name, (total + size) as u64)))
            },
        }
    }
}

/// An extracted entry always has a plain name, is the server or a library, and keeps
/// the archive within 4 GiB; a refused or skipped entry writes nothing.
pub proof fn lemma_extraction_is_bounded(
    raw: Seq<char>,
    enclosed: bool,
    file_name: Option<Seq<char>>,
    link: bool,
    dir: bool,
    size: u64,
    total: u64,
)
    requires
        entry_decision(raw, enclosed, file_name, link, dir, size, total) matches Some(Some(_)),
    ensures
        ({
            let (name, t) = entry_decision(raw, enclosed, file_name, link, dir, size, total)->Some_0->Some_0;
            &&& plain_name(name)
            &&& name == "llama-server.exe"@ || library_name(name)
            &&& t == total + size
            &&& t <= unpack_limit()
            &&& enclosed && !link && !dir
        }),
{
}

/// The decision for one archive entry: an unsafe entry, or one that would take the
/// archive past 4 GiB, is refused.
pub fn entry_action(
    raw: &str,
    enclosed: bool,
    file_name: Option<&str>,
    link: bool,
    dir: bool,
    size: u64,
    total: u64,
) -> (r: Result<EntryAction, String>)
    ensures
        match entry_decision(raw@, enclosed, crate::download::opt_str(file_name), link, dir, size, total) {
            None => r matches Err(e) && e@ == key_text("runtimeUnsafeArchive"@),
            Some(None) => r matches Ok(EntryAction::Skip),
            Some(Some((name, t))) => r matches Ok(EntryAction::Extract { name: n, total: m }) && n@
                == name && m == t,
        },
{
    if !enclosed {
        return Err(text("runtimeUnsafeArchive"));
    }
    let v = chars_of(raw);
    let mut i: usize = 0;
    while i < v.len()
        invariant
            v@ == raw@,
            i <= v.len(),
            forall|j: int| 0 <= j < i ==> #[trigger] v@[j] != '\\' && v@[j] != ':',
        decreases v.len() - i,
    {
        if v[i] == '\\' || v[i] == ':' {
            assert(raw@.contains(v@[i as int]));
            return Err(text("runtimeUnsafeArchive"));
        }
        i += 1;
    }
    if link {
        return Err(text("runtimeUnsafeArchive"));
    }
    if dir {
        return Ok(EntryAction::Skip);
    }
    let name = match file_name {
        None => {
            return Err(text("runtimeUnsafeArchive"));
        },
        Some(n) => n,
    };
    if !plain_file(name) {
        return Err(text("runtimeUnsafeArchive"));
    }
    let c = chars_of(name);
    let n = c.len();
    let library = n >= 4 && c[n - 4] == '.' && (c[n - 3] == 'd' || c[n - 3] == 'D') && (c[n - 2]
        == 'l' || c[n - 2] == 'L') && (c[n - 1] == 'l' || c[n - 1] == 'L');
    if !same_text(name, "llama-server.exe") && !library {
        return Ok(EntryAction::Skip);
    }
    if size > 4294967296 || total > 4294967296 - size {
        return Err(text("runtimeUnsafeArchive"));
    }
    Ok(EntryAction::Extract { name: name.to_string(), total: total + size })
}

} // verus!

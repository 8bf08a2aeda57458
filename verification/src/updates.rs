//! Update discovery: which repository is asked, which release qualifies, which of its
//! assets are trusted, and the updater's progress through download and install.
use crate::i18n::{key_text, text};
use crate::strings::{chars_of, decimal, push_decimal, same_text};
use vstd::prelude::*;

verus! {

/// The repository that releases are read from when the build names none.
pub open spec fn built_in_repository() -> Seq<char> {
    "jinhyeonseo01/FastFileOCR"@
}

/// The repository that the application checks for releases.
pub fn default_repository() -> (r: &'static str)
    ensures
        r@ == built_in_repository(),
{
    "jinhyeonseo01/FastFileOCR"
}

/// The repository a build names, trimmed, or the built-in one when it names none.
pub open spec fn chosen_repository(configured: Option<Seq<char>>) -> Seq<char> {
    match configured {
        Some(c) => if crate::strings::trim(c).len() > 0 {
            crate::strings::trim(c)
        } else {
            built_in_repository()
        },
        None => built_in_repository(),
    }
}

/// The repository for a build that may name one at compile time.
pub fn repository_from(configured: Option<&str>) -> (r: String)
    ensures
        r@ == chosen_repository(crate::download::opt_str(configured)),
{
    match configured {
        Some(c) => {
            let t = crate::strings::trimmed(c);
            if chars_of(t.as_str()).len() > 0 {
                t
            } else {
                default_repository().to_string()
            }
        },
        None => default_repository().to_string(),
    }
}

/// A character allowed in a repository owner or name.
pub open spec fn repository_char(c: char) -> bool {
    ('a' <= c <= 'z') || ('A' <= c <= 'Z') || ('0' <= c <= '9') || c == '-' || c == '_' || c == '.'
}

/// An owner or a repository name: not empty, not `.` or `..`, of allowed characters.
pub open spec fn repository_part(p: Seq<char>) -> bool {
    &&& p.len() > 0
    &&& p != "."@
    &&& p != ".."@
    &&& forall|i: int| 0 <= i < p.len() ==> repository_char(#[trigger] p[i])
}

/// `owner/name`: exactly one `/` between two valid parts.
pub open spec fn valid_repository_text(s: Seq<char>) -> bool {
    exists|k: int|
        0 <= k < s.len() && s[k] == '/' && repository_part(#[trigger] s.take(k)) && repository_part(
            s.skip(k + 1),
        )
}

fn part_ok(v: &Vec<char>, lo: usize, hi: usize) -> (r: bool)
    requires
        lo <= hi <= v.len(),
    ensures
        r == repository_part(v@.subrange(lo as int, hi as int)),
{
    let p = crate::strings::copy_range(v, lo, hi);
    if p.len() == 0 {
        return false;
    }
    if (p.len() == 1 && p[0] == '.') || (p.len() == 2 && p[0] == '.' && p[1] == '.') {
        proof {
            reveal_strlit(".");
            reveal_strlit("..");
        }
        assert(p@ == "."@ || p@ == ".."@);
        return false;
    }
    proof {
        reveal_strlit(".");
        reveal_strlit("..");
    }
    assert(p@ != "."@ && p@ != ".."@) by {
        if p@ == "."@ {
            assert(p@.len() == 1 && p@[0] == '.');
        }
        if p@ == ".."@ {
            assert(p@.len() == 2 && p@[0] == '.' && p@[1] == '.');
        }
    }
    let mut i: usize = 0;
    while i < p.len()
        invariant
            i <= p.len(),
            p@ == v@.subrange(lo as int, hi as int),
            p@.len() > 0,
            p@ != "."@ && p@ != ".."@,
            forall|j: int| 0 <= j < i ==> repository_char(#[trigger] p@[j]),
        decreases p.len() - i,
    {
        let c = p[i];
        if !(('a' <= c && c <= 'z') || ('A' <= c && c <= 'Z') || ('0' <= c && c <= '9') || c == '-'
            || c == '_' || c == '.') {
            assert(!repository_char(p@[i as int]));
            return false;
        }
        i += 1;
    }
    true
}

/// Whether a text names a GitHub repository as `owner/name`.
pub fn valid_repository(repository: &str) -> (r: bool)
    ensures
        r == valid_repository_text(repository@),
{
    let v = chars_of(repository);
    let n = v.len();
    let mut k: usize = 0;
    while k < n && v[k] != '/'
        invariant
            v@ == repository@,
            n == v.len(),
            k <= n,
            forall|j: int| 0 <= j < k ==> v@[j] != '/',
        decreases n - k,
    {
        k += 1;
    }
    if k == n {
        assert(!valid_repository_text(repository@));
        return false;
    }
    let ok = part_ok(&v, 0, k) && part_ok(&v, k + 1, n);
    proof {
        assert(v@.subrange(0, k as int) =~= v@.take(k as int));
        assert(v@.subrange(k + 1, n as int) =~= v@.skip(k + 1));
        if !ok && valid_repository_text(repository@) {
            let m = choose|m: int|
                0 <= m < v@.len() && v@[m] == '/' && repository_part(#[trigger] v@.take(m))
                    && repository_part(v@.skip(m + 1));
            if m < k as int {
                assert(v@[m] != '/');
            } else if m > k as int {
                assert(v@.take(m)[k as int] == '/');
                assert(!repository_char('/'));
            }
        }
    }
    ok
}

// ---------------------------------------------------------------------------
// Versions.

#[verifier::external_type_specification]
#[verifier::external_body]
pub struct ExVersion(semver::Version);

/// A parsed semantic version. Only `parse_version` makes one, so its fields and the
/// `semver::Version` it keeps always agree.
pub struct SemVer {
    major: u64,
    minor: u64,
    patch: u64,
    pre: String,
    build: String,
    value: semver::Version,
}

/// A version as values.
pub struct SemVerView {
    pub major: u64,
    pub minor: u64,
    pub patch: u64,
    pub pre: Seq<char>,
    pub build: Seq<char>,
}

impl View for SemVer {
    type V = SemVerView;

    closed spec fn view(&self) -> SemVerView {
        SemVerView {
            major: self.major,
            minor: self.minor,
            patch: self.patch,
            pre: self.pre@,
            build: self.build@,
        }
    }
}

/// What `semver::Version::parse` gives for a text: the version, or its error message.
pub uninterp spec fn semver_parse(text: Seq<char>) -> Result<SemVerView, Seq<char>>;

/// The order of `semver::Version`: whether `a <= b`.
pub uninterp spec fn semver_le(a: SemVerView, b: SemVerView) -> bool;

/// Whether `(major, minor, patch)` of `a` comes before that of `b`.
pub open spec fn core_before(a: SemVerView, b: SemVerView) -> bool {
    a.major < b.major || (a.major == b.major && (a.minor < b.minor || (a.minor == b.minor
        && a.patch < b.patch)))
}

/// `semver::Version::parse`, with the error as its message.
#[verifier::external_body]
fn parse_version(text: &str) -> (r: Result<SemVer, String>)
    ensures
        match r {
            Ok(v) => semver_parse(text@) == Ok::<SemVerView, Seq<char>>(v@),
            Err(e) => semver_parse(text@) == Err::<SemVerView, Seq<char>>(e@),
        },
{
    match semver::Version::parse(text) {
        Ok(v) => Ok(SemVer {
            major: v.major,
            minor: v.minor,
            patch: v.patch,
            pre: v.pre.as_str().to_string(),
            build: v.build.as_str().to_string(),
            value: v,
        }),
        Err(e) => Err(e.to_string()),
    }
}

/// `<=` on `semver::Version`, whose derived order compares major, minor and patch
/// first, then the pre-release and build texts; equal versions are at most each other.
#[verifier::external_body]
fn version_at_most(a: &SemVer, b: &SemVer) -> (r: bool)
    ensures
        r == semver_le(a@, b@),
        a@ == b@ ==> r,
        core_before(a@, b@) ==> r,
        core_before(b@, a@) ==> !r,
{
    a.value <= b.value
}

impl SemVer {
    /// Whether the version has pre-release identifiers.
    pub fn has_pre(&self) -> (r: bool)
        ensures
            r == (self@.pre.len() > 0),
    {
        chars_of(self.pre.as_str()).len() > 0
    }

    /// The version as `Display` writes it: `major.minor.patch`, then `-pre` and
    /// `+build` when present.
    pub fn text(&self) -> (r: String)
        ensures
            r@ == version_text(self@),
    {
        let mut r = String::new();
        push_decimal(&mut r, self.major);
        r.append(".");
        push_decimal(&mut r, self.minor);
        r.append(".");
        push_decimal(&mut r, self.patch);
        if chars_of(self.pre.as_str()).len() > 0 {
            r.append("-");
            r.append(self.pre.as_str());
        }
        if chars_of(self.build.as_str()).len() > 0 {
            r.append("+");
            r.append(self.build.as_str());
        }
        r
    }
}

/// A version as `Display` writes it.
pub open spec fn version_text(v: SemVerView) -> Seq<char> {
    decimal(v.major as nat) + "."@ + decimal(v.minor as nat) + "."@ + decimal(v.patch as nat) + (
    if v.pre.len() > 0 {
        "-"@ + v.pre
    } else {
        Seq::empty()
    }) + (if v.build.len() > 0 {
        "+"@ + v.build
    } else {
        Seq::empty()
    })
}

// ---------------------------------------------------------------------------
// Releases.

/// A file attached to a release.
pub struct Asset {
    pub name: String,
    pub browser_download_url: String,
    pub size: u64,
}

/// What the GitHub API says of a release.
pub struct ApiRelease {
    pub tag_name: String,
    pub draft: bool,
    pub prerelease: bool,
    pub assets: Vec<Asset>,
}

/// An asset as values.
pub struct AssetView {
    pub name: Seq<char>,
    pub url: Seq<char>,
    pub size: u64,
}

/// A release as values.
pub struct ApiReleaseView {
    pub tag_name: Seq<char>,
    pub draft: bool,
    pub prerelease: bool,
    pub assets: Seq<AssetView>,
}

impl View for ApiRelease {
    type V = ApiReleaseView;

    open spec fn view(&self) -> ApiReleaseView {
        ApiReleaseView {
            tag_name: self.tag_name@,
            draft: self.draft,
            prerelease: self.prerelease,
            assets: self.assets@.map_values(
                |a: Asset| AssetView { name: a.name@, url: a.browser_download_url@, size: a.size },
            ),
        }
    }
}

/// A release that may be installed.
pub struct Release {
    pub version: String,
    pub url: String,
    pub checksum_url: String,
    pub bytes: u64,
    pub name: String,
}

/// A release as values.
pub struct ReleaseView {
    pub version: Seq<char>,
    pub url: Seq<char>,
    pub checksum_url: Seq<char>,
    pub bytes: u64,
    pub name: Seq<char>,
}

impl View for Release {
    type V = ReleaseView;

    open spec fn view(&self) -> ReleaseView {
        ReleaseView {
            version: self.version@,
            url: self.url@,
            checksum_url: self.checksum_url@,
            bytes: self.bytes,
            name: self.name@,
        }
    }
}

/// A tag with its leading `v`s removed.
pub open spec fn strip_v(tag: Seq<char>) -> Seq<char>
    decreases tag.len(),
{
    if tag.len() > 0 && tag[0] == 'v' {
        strip_v(tag.drop_first())
    } else {
        tag
    }
}

/// The first asset with a name.
pub open spec fn asset_named(assets: Seq<AssetView>, name: Seq<char>) -> Option<AssetView>
    decreases assets.len(),
{
    if assets.len() == 0 {
        None
    } else if assets[0].name == name {
        Some(assets[0])
    } else {
        asset_named(assets.drop_first(), name)
    }
}

/// The largest installer the updater accepts.
pub open spec fn installer_limit() -> int {
    4294967296int
}

/// The installer's file name for a version.
pub open spec fn installer_name(version: Seq<char>) -> Seq<char> {
    "FastFileOCR_"@ + version + "_x64-setup.exe"@
}

/// The release a stable, newer version offers: its installer and checksum must be
/// attached under the expected names and served from the repository's own download
/// path for the tag, and the installer must be between 1 byte and 4 GiB.
pub open spec fn qualified(api: ApiReleaseView, repository: Seq<char>, v: SemVerView) -> Result<
    Option<ReleaseView>,
    Seq<char>,
> {
    qualified_for(api, repository, version_text(v))
}

/// The release that a version, written out, offers: its installer and checksum must
/// be attached under the expected names and served from the repository's own download
/// path for the tag, and the installer must be between 1 byte and 4 GiB.
pub open spec fn qualified_for(api: ApiReleaseView, repository: Seq<char>, version: Seq<char>) -> Result<
    Option<ReleaseView>,
    Seq<char>,
> {
    let name = installer_name(version);
    let sum = name + ".sha256"@;
    match asset_named(api.assets, name) {
        None => Err(key_text("updateNoInstaller"@)),
        Some(exe) => match asset_named(api.assets, sum) {
            None => Err(key_text("updateNoChecksum"@)),
            Some(sha) => {
                let prefix = "https://github.com/"@ + repository + "/releases/download/"@
                    + api.tag_name + "/"@;
                if exe.url != prefix + name || sha.url != prefix + sum || exe.size == 0 || exe.size
                    > installer_limit() {
                    Err(key_text("updateInvalidAsset"@))
                } else {
                    Ok(
                        Some(
                            ReleaseView {
                                version,
                                url: exe.url,
                                checksum_url: sha.url,
                                bytes: exe.size,
                                name,
                            },
                        ),
                    )
                }
            },
        },
    }
}

/// What a release means for the running version: nothing for a draft, a
/// pre-release or a version no newer than the current one; otherwise the release,
/// if its assets qualify.
pub open spec fn release_of(api: ApiReleaseView, repository: Seq<char>, current: Seq<char>) -> Result<
    Option<ReleaseView>,
    Seq<char>,
> {
    match semver_parse(strip_v(api.tag_name)) {
        Err(e) => Err(e),
        Ok(v) => if api.draft || api.prerelease || v.pre.len() > 0 {
            Ok(None)
        } else {
            match semver_parse(current) {
                Err(e) => Err(e),
                Ok(c) => if semver_le(v, c) {
                    Ok(None)
                } else {
                    qualified(api, repository, v)
                },
            }
        },
    }
}

/// A release is offered only for a stable, strictly newer version than the running
/// one, and only with an installer and a checksum served from the configured
/// repository's own download path for the release's tag.
pub proof fn lemma_offered_release_is_newer_and_from_the_repository(
    api: ApiReleaseView,
    repository: Seq<char>,
    current: Seq<char>,
)
    requires
        release_of(api, repository, current) is Ok,
        release_of(api, repository, current)->Ok_0 is Some,
    ensures
        ({
            let rel = release_of(api, repository, current)->Ok_0->Some_0;
            let prefix = "https://github.com/"@ + repository + "/releases/download/"@ + api.tag_name
                + "/"@;
            &&& !api.draft && !api.prerelease
            &&& semver_parse(strip_v(api.tag_name)) is Ok
            &&& semver_parse(current) is Ok
            &&& ({
                let v = semver_parse(strip_v(api.tag_name))->Ok_0;
                let c = semver_parse(current)->Ok_0;
                v.pre.len() == 0 && !semver_le(v, c) && rel.version == version_text(v)
            })
            &&& rel.url == prefix + rel.name
            &&& rel.checksum_url == prefix + rel.name + ".sha256"@
            &&& 0 < rel.bytes <= installer_limit()
        }),
{
}

fn without_v(tag: &str) -> (r: String)
    ensures
        r@ == strip_v(tag@),
{
    let v = chars_of(tag);
    let mut i: usize = 0;
    assert(v@.skip(0) =~= v@);
    while i < v.len() && v[i] == 'v'
        invariant
            v@ == tag@,
            i <= v.len(),
            strip_v(tag@) == strip_v(v@.skip(i as int)),
        decreases v.len() - i,
    {
        assert(v@.skip(i as int).drop_first() =~= v@.skip(i + 1));
        i += 1;
    }
    assert(v@.skip(i as int) =~= v@.subrange(i as int, v.len() as int));
    crate::strings::string_of(&v, i, v.len())
}

fn find_asset(assets: &Vec<Asset>, name: &str) -> (r: Option<usize>)
    ensures
        match asset_named(
            assets@.map_values(
                |a: Asset| AssetView { name: a.name@, url: a.browser_download_url@, size: a.size },
            ),
            name@,
        ) {
            Some(a) => r matches Some(k) && k < assets.len() && a == (AssetView {
                name: assets@[k as int].name@,
                url: assets@[k as int].browser_download_url@,
                size: assets@[k as int].size,
            }),
            None => r is None,
        },
{
    let ghost all = assets@.map_values(
        |a: Asset| AssetView { name: a.name@, url: a.browser_download_url@, size: a.size },
    );
    let mut i: usize = 0;
    assert(all.skip(0) =~= all);
    while i < assets.len()
        invariant
            all == assets@.map_values(
                |a: Asset| AssetView { name: a.name@, url: a.browser_download_url@, size: a.size },
            ),
            i <= assets.len(),
            asset_named(all, name@) == asset_named(all.skip(i as int), name@),
        decreases assets.len() - i,
    {
        assert(all.skip(i as int)[0] == all[i as int]);
        assert(all.skip(i as int).drop_first() =~= all.skip(i + 1));
        if same_text(assets[i].name.as_str(), name) {
            return Some(i);
        }
        i += 1;
    }
    assert(all.skip(i as int).len() == 0);
    None
}

/// The release that an answer of the GitHub API offers over the current version.
pub fn parse_release(api: &ApiRelease, repository: &str, current: &str) -> (r: Result<
    Option<Release>,
    String,
>)
    ensures
        match release_of(api@, repository@, current@) {
            Ok(None) => r matches Ok(None),
            Ok(Some(rel)) => r matches Ok(Some(x)) && x@ == rel,
            Err(e) => r matches Err(m) && m@ == e,
        },
{
    let tag = without_v(api.tag_name.as_str());
    let version = match parse_version(tag.as_str()) {
        Ok(v) => v,
        Err(e) => {
            return Err(e);
        },
    };
    if api.draft || api.prerelease || version.has_pre() {
        return Ok(None);
    }
    let now = match parse_version(current) {
        Ok(v) => v,
        Err(e) => {
            return Err(e);
        },
    };
    if version_at_most(&version, &now) {
        return Ok(None);
    }
    let number = version.text();
    qualify(api, repository, number.as_str())
}

/// The release that a stable version newer than the running one offers, given the
/// version written out: its assets must qualify.
pub fn qualify(api: &ApiRelease, repository: &str, version: &str) -> (r: Result<Option<Release>, String>)
    ensures
        match qualified_for(api@, repository@, version@) {
            Ok(None) => r matches Ok(None),
            Ok(Some(rel)) => r matches Ok(Some(x)) && x@ == rel,
            Err(e) => r matches Err(m) && m@ == e,
        },
{
    let number = version.to_string();
    let mut name = "FastFileOCR_".to_string();
    name.append(number.as_str());
    name.append("_x64-setup.exe");
    let mut sum = name.clone();
    sum.append(".sha256");
    let exe = match find_asset(&api.assets, name.as_str()) {
        Some(k) => &api.assets[k],
        None => {
            return Err(text("updateNoInstaller"));
        },
    };
    let sha = match find_asset(&api.assets, sum.as_str()) {
        Some(k) => &api.assets[k],
        None => {
            return Err(text("updateNoChecksum"));
        },
    };
    let mut prefix = "https://github.com/".to_string();
    prefix.append(repository);
    prefix.append("/releases/download/");
    prefix.append(api.tag_name.as_str());
    prefix.append("/");
    let mut exe_url = prefix.clone();
    exe_url.append(name.as_str());
    let mut sum_url = prefix.clone();
    sum_url.append(sum.as_str());
    if !same_text(exe.browser_download_url.as_str(), exe_url.as_str()) || !same_text(
        sha.browser_download_url.as_str(),
        sum_url.as_str(),
    ) || exe.size == 0 || exe.size > 4294967296 {
        return Err(text("updateInvalidAsset"));
    }
    Ok(
        Some(
            Release {
                version: number,
                url: exe.browser_download_url.clone(),
                checksum_url: sha.browser_download_url.clone(),
                bytes: exe.size,
                name,
            },
        ),
    )
}

// ---------------------------------------------------------------------------
// The updater.

/// The updater's state as shown to the user.
pub struct Progress {
    pub status: String,
    pub version: String,
    pub current_version: String,
    pub downloaded: u64,
    pub total: u64,
    pub error: Option<String>,
}

/// Progress as values.
pub struct ProgressView {
    pub status: Seq<char>,
    pub version: Seq<char>,
    pub current_version: Seq<char>,
    pub downloaded: u64,
    pub total: u64,
    pub error: Option<Seq<char>>,
}

impl View for Progress {
    type V = ProgressView;

    open spec fn view(&self) -> ProgressView {
        ProgressView {
            status: self.status@,
            version: self.version@,
            current_version: self.current_version@,
            downloaded: self.downloaded,
            total: self.total,
            error: crate::download::opt_view(self.error),
        }
    }
}

/// What the release check found.
pub enum Lookup {
    /// The latest release, as the API describes it.
    Latest(ApiRelease),
    /// The repository exists but has published no release.
    Unreleased,
}

/// The release check, the download of the installer and its verification.
pub struct Updater {
    progress: Progress,
    release: Option<Release>,
    installer: Option<String>,
}

/// The updater as values.
pub struct UpdaterView {
    pub progress: ProgressView,
    pub release: Option<ReleaseView>,
    pub installer: Option<Seq<char>>,
}

impl View for Updater {
    type V = UpdaterView;

    closed spec fn view(&self) -> UpdaterView {
        UpdaterView {
            progress: self.progress@,
            release: match self.release {
                Some(r) => Some(r@),
                None => None,
            },
            installer: crate::download::opt_view(self.installer),
        }
    }
}

/// Idle progress for a running version.
pub open spec fn idle(current_version: Seq<char>) -> ProgressView {
    ProgressView {
        status: "idle"@,
        version: Seq::empty(),
        current_version,
        downloaded: 0,
        total: 0,
        error: None,
    }
}

/// The updater after a check: the outcome's status and version, nothing downloaded,
/// the release kept for download, any earlier installer forgotten.
pub open spec fn checked(u: UpdaterView, status: Seq<char>, release: Option<ReleaseView>) -> UpdaterView {
    UpdaterView {
        progress: ProgressView {
            status,
            version: match release {
                Some(r) => r.version,
                None => Seq::empty(),
            },
            ..idle(u.progress.current_version)
        },
        release,
        installer: None,
    }
}

/// The updater after a check with a given outcome, or the error that ends it; an
/// error leaves the updater as it was.
pub open spec fn check_outcome(u: UpdaterView, repository: Seq<char>, found: Option<ApiReleaseView>) -> Result<
    UpdaterView,
    Seq<char>,
> {
    if !valid_repository_text(repository) {
        Err(key_text("invalidRepository"@))
    } else {
        match found {
            None => Ok(checked(u, "unreleased"@, None)),
            Some(api) => match release_of(api, repository, u.progress.current_version) {
                Err(e) => Err(e),
                Ok(None) => Ok(checked(u, "current"@, None)),
                Ok(Some(r)) => Ok(checked(u, "available"@, Some(r))),
            },
        }
    }
}

/// A lookup as values.
pub open spec fn lookup_view(l: Lookup) -> Option<ApiReleaseView> {
    match l {
        Lookup::Latest(api) => Some(api@),
        Lookup::Unreleased => None,
    }
}

/// A progress copy.
fn copy_progress(p: &Progress) -> (r: Progress)
    ensures
        r@ == p@,
{
    Progress {
        status: p.status.clone(),
        version: p.version.clone(),
        current_version: p.current_version.clone(),
        downloaded: p.downloaded,
        total: p.total,
        error: crate::download::clone_opt(&p.error),
    }
}

/// A release copy.
fn copy_release(r: &Release) -> (c: Release)
    ensures
        c@ == r@,
{
    Release {
        version: r.version.clone(),
        url: r.url.clone(),
        checksum_url: r.checksum_url.clone(),
        bytes: r.bytes,
        name: r.name.clone(),
    }
}

/// The first whitespace-separated word of a text.
pub open spec fn first_word(s: Seq<char>) -> Seq<char> {
    let t = crate::strings::trim_start(s);
    t.take(word_end(t, 0))
}

/// Where the word starting the text ends.
pub open spec fn word_end(t: Seq<char>, i: int) -> int
    decreases t.len() - i,
{
    if i < 0 || i >= t.len() || crate::strings::is_space(t[i]) {
        if i < 0 { 0 } else if i > t.len() { t.len() as int } else { i }
    } else {
        word_end(t, i + 1)
    }
}

/// Whether a character is an ASCII hexadecimal digit.
pub open spec fn hex_char(c: char) -> bool {
    ('0' <= c <= '9') || ('a' <= c <= 'f') || ('A' <= c <= 'F')
}

/// ASCII upper case letters made lower case.
pub open spec fn ascii_lower(s: Seq<char>) -> Seq<char> {
    s.map_values(|c: char| if 'A' <= c <= 'Z' { ((c as u32) + 32) as char } else { c })
}

/// The checksum a checksum file gives: its first word, which must be 64 hexadecimal
/// digits, in lower case.
pub open spec fn checksum_of(text: Seq<char>) -> Option<Seq<char>> {
    let w = first_word(text);
    if w.len() == 64 && forall|i: int| 0 <= i < w.len() ==> hex_char(#[trigger] w[i]) {
        Some(ascii_lower(w))
    } else {
        None
    }
}

fn lower(c: char) -> (r: char)
    ensures
        r == (if 'A' <= c <= 'Z' { ((c as u32) + 32) as char } else { c }),
{
    if 'A' <= c && c <= 'Z' {
        ((c as u8) + 32) as char
    } else {
        c
    }
}

/// The checksum that a downloaded checksum file states.
pub fn expected_checksum(content: &str) -> (r: Result<String, String>)
    ensures
        match checksum_of(content@) {
            Some(c) => r matches Ok(s) && s@ == c,
            None => r matches Err(e) && e@ == key_text("updateNoChecksum"@),
        },
{
    let v = chars_of(content);
    let a = crate::strings::skip_spaces(&v);
    let ghost t = crate::strings::trim_start(content@);
    let mut e = a;
    while e < v.len() && !crate::strings::space(v[e])
        invariant
            v@ == content@,
            a <= e <= v.len(),
            t == v@.skip(a as int),
            word_end(t, 0) == word_end(t, e - a),
        decreases v.len() - e,
    {
        e += 1;
    }
    assert(word_end(t, e - a) == e - a);
    let w = crate::strings::copy_range(&v, a, e);
    assert(w@ =~= first_word(content@));
    if w.len() != 64 {
        return Err(text("updateNoChecksum"));
    }
    let mut out = String::new();
    let mut i: usize = 0;
    while i < w.len()
        invariant
            i <= w.len(),
            w@ == first_word(content@),
            forall|j: int| 0 <= j < i ==> hex_char(#[trigger] w@[j]),
            out@ == ascii_lower(w@.take(i as int)),
        decreases w.len() - i,
    {
        let c = w[i];
        if !(('0' <= c && c <= '9') || ('a' <= c && c <= 'f') || ('A' <= c && c <= 'F')) {
            assert(!hex_char(w@[i as int]));
            return Err(text("updateNoChecksum"));
        }
        let l = lower(c);
        crate::strings::push_char(&mut out, l);
        assert(ascii_lower(w@.take(i + 1)) =~= ascii_lower(w@.take(i as int)).push(l));
        i += 1;
    }
    assert(w@.take(w.len() as int) =~= w@);
    Ok(out)
}

/// The Windows language id that the installer is started with.
pub open spec fn installer_language_id(language: Seq<char>) -> Seq<char> {
    if language == "ko"@ {
        "1042"@
    } else if language == "ja"@ {
        "1041"@
    } else {
        "1033"@
    }
}

/// The Windows language id that the installer is started with.
pub fn installer_language(language: &str) -> (r: &'static str)
    ensures
        r@ == installer_language_id(language@),
{
    if same_text(language, "ko") {
        "1042"
    } else if same_text(language, "ja") {
        "1041"
    } else {
        "1033"
    }
}

/// Whether a finished download is the installer that was announced: every byte
/// arrived and its checksum is the expected one.
pub fn check_download(received: u64, total: u64, digest_hex: &str, expected: &str) -> (r: Result<(), String>)
    ensures
        (received == total && digest_hex@ == expected@) ==> r is Ok,
        !(received == total && digest_hex@ == expected@) ==> (r matches Err(e) && e@ == key_text(
            "updateHashMismatch"@,
        )),
{
    if received != total || !same_text(digest_hex, expected) {
        Err(text("updateHashMismatch"))
    } else {
        Ok(())
    }
}

/// Whether an installer's checksum is the one recorded at download.
pub fn verify_installer(digest_hex: &str, expected: &str) -> (r: Result<(), String>)
    ensures
        digest_hex@ == expected@ ==> r is Ok,
        digest_hex@ != expected@ ==> (r matches Err(e) && e@ == key_text("updateHashMismatch"@)),
{
    if same_text(digest_hex, expected) {
        Ok(())
    } else {
        Err(text("updateHashMismatch"))
    }
}

impl Updater {
    /// An idle updater for the running version.
    pub fn new(current_version: &str) -> (r: Updater)
        ensures
            r@ == (UpdaterView { progress: idle(current_version@), release: None, installer: None }),
    {
        Updater {
            progress: Progress {
                status: "idle".to_string(),
                version: String::new(),
                current_version: current_version.to_string(),
                downloaded: 0,
                total: 0,
                error: None,
            },
            release: None,
            installer: None,
        }
    }

    /// The current progress.
    pub fn snapshot(&self) -> (r: Progress)
        ensures
            r@ == self@.progress,
    {
        copy_progress(&self.progress)
    }

    /// Applies what the release check found for a repository.
    pub fn check(&mut self, repository: &str, found: Lookup) -> (r: Result<(), String>)
        ensures
            match check_outcome(old(self)@, repository@, lookup_view(found)) {
                Ok(u) => r is Ok && final(self)@ == u,
                Err(e) => (r matches Err(m) && m@ == e) && final(self)@ == old(self)@,
            },
    {
        if !valid_repository(repository) {
            return Err(text("invalidRepository"));
        }
        let (release, status) = match found {
            Lookup::Unreleased => (None, "unreleased"),
            Lookup::Latest(api) => {
                match parse_release(&api, repository, self.progress.current_version.as_str()) {
                    Err(e) => {
                        return Err(e);
                    },
                    Ok(None) => (None, "current"),
                    Ok(Some(rel)) => (Some(rel), "available"),
                }
            },
        };
        let version = match &release {
            Some(rel) => rel.version.clone(),
            None => String::new(),
        };
        self.progress = Progress {
            status: status.to_string(),
            version,
            current_version: self.progress.current_version.clone(),
            downloaded: 0,
            total: 0,
            error: None,
        };
        self.release = release;
        self.installer = None;
        Ok(())
    }

    /// Shows that a check or a download has started.
    pub fn begin_operation(&mut self, download: bool)
        ensures
            final(self)@ == (UpdaterView {
                progress: ProgressView {
                    status: if download {
                        "downloading"@
                    } else {
                        "checking"@
                    },
                    error: None,
                    ..old(self)@.progress
                },
                ..old(self)@
            }),
    {
        self.progress.status = if download {
            "downloading".to_string()
        } else {
            "checking".to_string()
        };
        self.progress.error = None;
    }

    /// Shows that a check or a download failed, with its message.
    pub fn fail(&mut self, error: String)
        ensures
            final(self)@ == (UpdaterView {
                progress: ProgressView { status: "error"@, error: Some(error@), ..old(self)@.progress },
                ..old(self)@
            }),
    {
        self.progress.status = "error".to_string();
        self.progress.error = Some(error);
    }

    /// The release to download; a check must have found one.
    pub fn pending(&self) -> (r: Result<Release, String>)
        ensures
            match self@.release {
                Some(rel) => r matches Ok(x) && x@ == rel,
                None => r matches Err(e) && e@ == key_text("updateCheckFirst"@),
            },
    {
        match &self.release {
            Some(rel) => Ok(copy_release(rel)),
            None => Err(text("updateCheckFirst")),
        }
    }

    /// Starts the download of the pending release once its checksum file was read:
    /// the progress shows the download from zero of the release's size.
    pub fn start_download(&mut self, checksum_text: &str) -> (r: Result<String, String>)
        ensures
            old(self)@.release is None ==> (r matches Err(e) && e@ == key_text("updateCheckFirst"@))
                && final(self)@ == old(self)@,
            old(self)@.release matches Some(rel) ==> match checksum_of(checksum_text@) {
                None => (r matches Err(e) && e@ == key_text("updateNoChecksum"@)) && final(self)@
                    == old(self)@,
                Some(c) => (r matches Ok(s) && s@ == c) && final(self)@ == (UpdaterView {
                    progress: ProgressView {
                        status: "downloading"@,
                        downloaded: 0,
                        total: rel.bytes,
                        error: None,
                        ..old(self)@.progress
                    },
                    ..old(self)@
                }),
            },
    {
        let bytes = match &self.release {
            Some(rel) => rel.bytes,
            None => {
                return Err(text("updateCheckFirst"));
            },
        };
        let expected = match expected_checksum(checksum_text) {
            Ok(c) => c,
            Err(e) => {
                return Err(e);
            },
        };
        self.progress.status = "downloading".to_string();
        self.progress.downloaded = 0;
        self.progress.total = bytes;
        self.progress.error = None;
        Ok(expected)
    }

    /// Records how many installer bytes arrived; more than the release's size is
    /// refused.
    pub fn advance(&mut self, received: u64) -> (r: Result<(), String>)
        ensures
            received > old(self)@.progress.total ==> (r matches Err(e) && e@ == key_text(
                "updateInvalidAsset"@,
            )) && final(self)@ == old(self)@,
            received <= old(self)@.progress.total ==> r is Ok && final(self)@ == (UpdaterView {
                progress: ProgressView { downloaded: received, ..old(self)@.progress },
                ..old(self)@
            }),
    {
        if received > self.progress.total {
            return Err(text("updateInvalidAsset"));
        }
        self.progress.downloaded = received;
        Ok(())
    }

    /// Finishes a download: the installer is kept only when its size is the release's
    /// and its checksum the expected one.
    pub fn complete(&mut self, received: u64, digest_hex: &str, expected: &str, installer: String) -> (r: Result<(), String>)
        ensures
            (received == old(self)@.progress.total && digest_hex@ == expected@) ==> r is Ok
                && final(self)@ == (UpdaterView {
                    progress: ProgressView { status: "ready"@, downloaded: received, ..old(self)@.progress },
                    installer: Some(installer@),
                    ..old(self)@
                }),
            !(received == old(self)@.progress.total && digest_hex@ == expected@) ==> (r matches Err(e)
                && e@ == key_text("updateHashMismatch"@)) && final(self)@ == old(self)@,
    {
        match check_download(received, self.progress.total, digest_hex, expected) {
            Err(e) => {
                return Err(e);
            },
            Ok(()) => {},
        }
        self.installer = Some(installer);
        self.progress.status = "ready".to_string();
        self.progress.downloaded = received;
        Ok(())
    }

    /// The downloaded installer; a download must have completed.
    pub fn installer(&self) -> (r: Result<String, String>)
        ensures
            match self@.installer {
                Some(p) => r matches Ok(s) && s@ == p,
                None => r matches Err(e) && e@ == key_text("updateNotReady"@),
            },
    {
        match &self.installer {
            Some(p) => Ok(p.clone()),
            None => Err(text("updateNotReady")),
        }
    }
}

} // verus!

//! Choosing and clearing the data directory at install and uninstall time, without
//! ever claiming a folder that holds someone else's files.
use crate::store::{has_parent_segment, is_separator, join, join_path, parent_at, parent_segment};
use crate::strings::{trim, trimmed};
use crate::strings::{chars_of, lowercase, to_lower};
use crate::table::texts_of;
use vstd::prelude::*;

verus! {

/// Why a data-directory operation failed.
#[derive(Clone, Copy, Debug, PartialEq, Eq, Structural)]
pub enum Error {
    /// The path is not one the installer may use.
    Unsafe,
    /// Writing to it failed.
    Write,
}

/// ASCII letters compared without case.
pub open spec fn ascii_fold(c: char) -> char {
    if 'A' <= c <= 'Z' {
        ((c as u32) + 32) as char
    } else {
        c
    }
}

/// Whether two texts are equal when ASCII letters are compared without case.
pub open spec fn same_ignoring_case(a: Seq<char>, b: Seq<char>) -> bool {
    a.len() == b.len() && forall|i: int| 0 <= i < a.len() ==> ascii_fold(#[trigger] a[i]) == ascii_fold(b[i])
}

fn fold(c: char) -> (r: char)
    ensures
        r == ascii_fold(c),
{
    if 'A' <= c && c <= 'Z' {
        ((c as u8) + 32) as char
    } else {
        c
    }
}

/// Whether two paths name the same place on Windows, where case does not matter.
pub fn same(a: &str, b: &str) -> (r: bool)
    ensures
        r == same_ignoring_case(a@, b@),
{
    let x = chars_of(a);
    let y = chars_of(b);
    if x.len() != y.len() {
        return false;
    }
    let mut i: usize = 0;
    while i < x.len()
        invariant
            x@ == a@,
            y@ == b@,
            x.len() == y.len(),
            i <= x.len(),
            forall|j: int| 0 <= j < i ==> ascii_fold(#[trigger] x@[j]) == ascii_fold(y@[j]),
        decreases x.len() - i,
    {
        if fold(x[i]) != fold(y[i]) {
            return false;
        }
        i += 1;
    }
    true
}

/// `parent` with its trailing separators removed.
pub open spec fn without_trailing(parent: Seq<char>) -> Seq<char>
    decreases parent.len(),
{
    if parent.len() > 0 && is_separator(parent.last()) {
        without_trailing(parent.drop_last())
    } else {
        parent
    }
}

/// Whether `parent`'s components begin `path`: the texts agree up to the end of
/// `parent`, where `path` ends or continues with a separator.
pub open spec fn components_start(path: Seq<char>, parent: Seq<char>) -> bool {
    let p = without_trailing(parent);
    &&& p.len() <= path.len()
    &&& path.take(p.len() as int) == p
    &&& (p.len() == path.len() || p.len() == 0 || is_separator(path[p.len() as int]) || is_separator(
        p.last(),
    ))
}

/// Whether a piece between separators is a component: repeated separators leave
/// empty pieces and `.` names the same directory, as `std::path::Path::components`
/// skips both.
pub open spec fn counted(piece: Seq<char>) -> bool {
    piece.len() > 0 && piece != "."@
}

/// The components found so far, with one more piece.
pub open spec fn with_piece(found: Seq<Seq<char>>, piece: Seq<char>) -> Seq<Seq<char>> {
    if counted(piece) {
        found.push(piece)
    } else {
        found
    }
}

/// The components of `s` from position `i`, given the piece under way and those
/// found before it.
pub open spec fn components_from(s: Seq<char>, i: int, piece: Seq<char>, found: Seq<Seq<char>>) -> Seq<
    Seq<char>,
>
    decreases s.len() - i,
{
    if i >= s.len() || i < 0 {
        with_piece(found, piece)
    } else if is_separator(s[i]) {
        components_from(s, i + 1, Seq::empty(), with_piece(found, piece))
    } else {
        components_from(s, i + 1, piece.push(s[i]), found)
    }
}

/// The components of a path: the pieces between separators, without empty pieces
/// and `.`.
pub open spec fn components(s: Seq<char>) -> Seq<Seq<char>> {
    components_from(s, 0, Seq::empty(), Seq::empty())
}

/// Whether `path` lies in or at `parent` on Windows: both are put in lower case and
/// the components of `parent` begin those of `path`.
pub open spec fn inside_of(path: Seq<char>, parent: Seq<char>) -> bool {
    let a = components(lowercase(path));
    let b = components(lowercase(parent));
    b.len() <= a.len() && a.take(b.len() as int) == b
}

/// Texts as values.
pub open spec fn chars_view(v: Seq<Vec<char>>) -> Seq<Seq<char>> {
    v.map_values(|x: Vec<char>| x@)
}

proof fn lemma_dot(p: Seq<char>)
    ensures
        (p == "."@) == (p.len() == 1 && p[0] == '.'),
{
    reveal_strlit(".");
    if p.len() == 1 && p[0] == '.' {
        assert(p =~= "."@);
    }
}

/// The components of a path.
fn components_of(v: &Vec<char>) -> (r: Vec<Vec<char>>)
    ensures
        chars_view(r@) == components(v@),
{
    let mut found: Vec<Vec<char>> = Vec::new();
    let mut piece: Vec<char> = Vec::new();
    let mut i: usize = 0;
    assert(chars_view(found@) =~= Seq::<Seq<char>>::empty());
    assert(piece@ =~= Seq::<char>::empty());
    while i < v.len()
        invariant
            i <= v.len(),
            components(v@) == components_from(v@, i as int, piece@, chars_view(found@)),
        decreases v.len() - i,
    {
        if v[i] == '/' || v[i] == '\\' {
            let keep = piece.len() > 0 && !(piece.len() == 1 && piece[0] == '.');
            proof {
                lemma_dot(piece@);
            }
            let ghost before = chars_view(found@);
            let ghost pv = piece@;
            if keep {
                found.push(piece);
                assert(chars_view(found@) =~= before.push(pv));
            }
            piece = Vec::new();
            assert(piece@ =~= Seq::<char>::empty());
        } else {
            piece.push(v[i]);
        }
        i += 1;
    }
    let keep = piece.len() > 0 && !(piece.len() == 1 && piece[0] == '.');
    proof {
        lemma_dot(piece@);
    }
    let ghost before = chars_view(found@);
    let ghost pv = piece@;
    if keep {
        found.push(piece);
        assert(chars_view(found@) =~= before.push(pv));
    }
    found
}

pub(crate) fn starts_with_components(path: &Vec<char>, parent: &Vec<char>) -> (r: bool)
    ensures
        r == components_start(path@, parent@),
{
    let mut n = parent.len();
    assert(parent@.take(n as int) =~= parent@);
    while n > 0 && (parent[n - 1] == '/' || parent[n - 1] == '\\')
        invariant
            n <= parent.len(),
            without_trailing(parent@) == without_trailing(parent@.take(n as int)),
        decreases n,
    {
        assert(parent@.take(n as int).drop_last() =~= parent@.take(n - 1));
        n -= 1;
    }
    assert(without_trailing(parent@.take(n as int)) == parent@.take(n as int));
    let ghost p = parent@.take(n as int);
    if n > path.len() {
        return false;
    }
    let mut i: usize = 0;
    while i < n
        invariant
            n <= parent.len(),
            n <= path.len(),
            p == parent@.take(n as int),
            without_trailing(parent@) == p,
            i <= n,
            forall|j: int| 0 <= j < i ==> path@[j] == parent@[j],
        decreases n - i,
    {
        if path[i] != parent[i] {
            assert(path@.take(n as int)[i as int] != p[i as int]);
            return false;
        }
        i += 1;
    }
    assert(path@.take(n as int) =~= p);
    n == path.len() || n == 0 || path[n] == '/' || path[n] == '\\' || parent[n - 1] == '/'
        || parent[n - 1] == '\\'
}

/// Whether `path` lies in or at `parent`.
pub fn within(path: &str, parent: &str) -> (r: bool)
    ensures
        r == inside_of(path@, parent@),
{
    let lp = to_lower(path);
    let lq = to_lower(parent);
    let a = components_of(&chars_of(lp.as_str()));
    let b = components_of(&chars_of(lq.as_str()));
    assert(chars_view(a@) == components(lowercase(path@)));
    assert(chars_view(b@) == components(lowercase(parent@)));
    assert(chars_view(a@).len() == a.len() && chars_view(b@).len() == b.len());
    if b.len() > a.len() {
        return false;
    }
    let mut i: usize = 0;
    while i < b.len()
        invariant
            chars_view(a@) == components(lowercase(path@)),
            chars_view(b@) == components(lowercase(parent@)),
            b.len() <= a.len(),
            i <= b.len(),
            forall|j: int| 0 <= j < i ==> #[trigger] chars_view(a@)[j] == chars_view(b@)[j],
        decreases b.len() - i,
    {
        assert(chars_view(a@)[i as int] == a@[i as int]@);
        assert(chars_view(b@)[i as int] == b@[i as int]@);
        if !crate::strings::same_chars(&a[i], &b[i]) {
            assert(chars_view(a@).take(b.len() as int)[i as int] != chars_view(b@)[i as int]);
            return false;
        }
        assert(chars_view(a@)[i as int] == chars_view(b@)[i as int]);
        i += 1;
    }
    assert(chars_view(a@).take(b.len() as int) =~= chars_view(b@));
    true
}

/// Whether a path is the system's or a user's own folder: inside the Windows or
/// program directories, or exactly a profile or application-data directory.
pub open spec fn protected_path(path: Seq<char>, system: Seq<Seq<char>>, homes: Seq<Seq<char>>) -> bool {
    ||| exists|i: int| 0 <= i < system.len() && inside_of(path, #[trigger] system[i])
    ||| exists|i: int| 0 <= i < homes.len() && same_ignoring_case(path, #[trigger] homes[i])
}

/// Whether a path is protected, given the system directories (`WINDIR`,
/// `SystemRoot` and the program directories) and the users' own directories
/// (`USERPROFILE`, `LOCALAPPDATA`, `APPDATA`, `PUBLIC`) that are set.
pub fn protected(path: &str, system: &Vec<String>, homes: &Vec<String>) -> (r: bool)
    ensures
        r == protected_path(path@, texts_of(system@), texts_of(homes@)),
{
    let mut i: usize = 0;
    while i < system.len()
        invariant
            i <= system.len(),
            forall|j: int| 0 <= j < i ==> !inside_of(path@, #[trigger] texts_of(system@)[j]),
        decreases system.len() - i,
    {
        if within(path, system[i].as_str()) {
            assert(inside_of(path@, texts_of(system@)[i as int]));
            return true;
        }
        i += 1;
    }
    let mut k: usize = 0;
    while k < homes.len()
        invariant
            k <= homes.len(),
            forall|j: int| 0 <= j < system.len() ==> !inside_of(path@, #[trigger] texts_of(system@)[j]),
            forall|j: int| 0 <= j < k ==> !same_ignoring_case(path@, #[trigger] texts_of(homes@)[j]),
        decreases homes.len() - k,
    {
        if same(path, homes[k].as_str()) {
            assert(same_ignoring_case(path@, texts_of(homes@)[k as int]));
            return true;
        }
        k += 1;
    }
    false
}

/// What the filesystem says of a selected folder.
#[derive(Clone, Copy)]
pub struct Selected {
    /// `std::path::Path::is_absolute` holds of it, and on Windows it starts with a
    /// drive.
    pub absolute: bool,
    /// It holds the data marker.
    pub marked: bool,
    /// It has a parent directory.
    pub has_parent: bool,
    /// It exists and holds something.
    pub populated: bool,
}

/// The child to use below a selected folder, if any: the application's own folder
/// gets `Data`; a folder that holds the application, or an unmarked drive root or
/// non-empty folder, gets a `FastFileOCR` child (`Data` when it is itself named
/// `FastFileOCR`); any other folder is used as it is.
pub open spec fn data_child(selected: Seq<char>, app: Seq<char>, name: Seq<char>, s: Selected) -> Option<Seq<char>> {
    if same_ignoring_case(selected, app) {
        Some("Data"@)
    } else if inside_of(app, selected) || (!s.marked && (!s.has_parent || s.populated)) {
        if same_ignoring_case(name, "FastFileOCR"@) {
            Some("Data"@)
        } else {
            Some("FastFileOCR"@)
        }
    } else {
        None
    }
}

/// Whether a path may be used at all: absolute (on a drive, on Windows) and without
/// a `..` segment.
pub open spec fn lexically_safe(path: Seq<char>, absolute: bool) -> bool {
    absolute && !has_parent_segment(path)
}

/// Whether a path may be used at all, given whether it is absolute.
pub fn path_usable(path: &str, absolute: bool) -> (r: bool)
    ensures
        r == lexically_safe(path@, absolute),
{
    absolute && !parent_segment(path)
}

/// The data directory for a selected folder, before the directory itself is
/// inspected: the selected folder and the application's must both be absolute and
/// free of `..`, the folder must not be protected, the chosen directory must have a
/// parent, must not be protected and must not hold the application.
pub open spec fn resolved(
    selected: Seq<char>,
    app: Seq<char>,
    app_absolute: bool,
    name: Seq<char>,
    s: Selected,
    root_has_parent: bool,
    system: Seq<Seq<char>>,
    homes: Seq<Seq<char>>,
) -> Result<Seq<char>, Error> {
    if !lexically_safe(selected, s.absolute) || !lexically_safe(app, app_absolute) {
        Err(Error::Unsafe)
    } else if protected_path(selected, system, homes) {
        Err(Error::Unsafe)
    } else {
        let root = match data_child(selected, app, name, s) {
            Some(c) => join_path(selected, c),
            None => selected,
        };
        if !root_has_parent || protected_path(root, system, homes) || inside_of(app, root) {
            Err(Error::Unsafe)
        } else {
            Ok(root)
        }
    }
}

/// A resolved data directory is never a protected folder and never holds the
/// application, whichever folder was selected.
pub proof fn lemma_resolved_root_is_safe(
    selected: Seq<char>,
    app: Seq<char>,
    app_absolute: bool,
    name: Seq<char>,
    s: Selected,
    root_has_parent: bool,
    system: Seq<Seq<char>>,
    homes: Seq<Seq<char>>,
)
    requires
        resolved(selected, app, app_absolute, name, s, root_has_parent, system, homes) is Ok,
    ensures
        ({
            let root = resolved(selected, app, app_absolute, name, s, root_has_parent, system, homes)->Ok_0;
            &&& !protected_path(root, system, homes)
            &&& !inside_of(app, root)
            &&& !protected_path(selected, system, homes)
            &&& s.absolute && app_absolute
            &&& !has_parent_segment(selected) && !has_parent_segment(app)
            &&& (root == selected || root == join_path(selected, "Data"@) || root == join_path(
                selected,
                "FastFileOCR"@,
            ))
            &&& !has_parent_segment(root)
        }),
{
    reveal_strlit("Data");
    reveal_strlit("FastFileOCR");
    lemma_child_adds_no_parent_segment(selected, "Data"@);
    lemma_child_adds_no_parent_segment(selected, "FastFileOCR"@);
}

/// A plain child name, with no dot and no separator, adds no `..` segment to a path.
proof fn lemma_child_adds_no_parent_segment(p: Seq<char>, c: Seq<char>)
    requires
        !has_parent_segment(p),
        c.len() > 0,
        forall|k: int| 0 <= k < c.len() ==> #[trigger] c[k] != '.' && !is_separator(c[k]),
    ensures
        !has_parent_segment(join_path(p, c)),
{
    let r = join_path(p, c);
    assert forall|i: int| 0 <= i && i + 2 <= r.len() implies !#[trigger] parent_at(r, i) by {
        if parent_at(r, i) {
            if p.len() == 0 || is_separator(p.last()) {
                assert(r == p + c);
                if i + 1 < p.len() {
                    assert(r[i] == p[i] && r[i + 1] == p[i + 1]);
                    if i > 0 {
                        assert(r[i - 1] == p[i - 1]);
                    }
                    if i + 2 < p.len() {
                        assert(r[i + 2] == p[i + 2]);
                    }
                    assert(parent_at(p, i));
                } else if i + 1 == p.len() {
                    assert(r[i + 1] == c[0]);
                } else {
                    assert(r[i] == c[i - p.len()]);
                }
            } else {
                assert(r == p + "/"@ + c);
                reveal_strlit("/");
                if i + 1 < p.len() {
                    assert(r[i] == p[i] && r[i + 1] == p[i + 1]);
                    if i > 0 {
                        assert(r[i - 1] == p[i - 1]);
                    }
                    if i + 2 < p.len() {
                        assert(r[i + 2] == p[i + 2]);
                    }
                    assert(parent_at(p, i));
                } else if i + 1 == p.len() {
                    assert(r[i + 1] == '/');
                } else if i == p.len() {
                    assert(r[i] == '/');
                } else {
                    assert(r[i] == c[i - p.len() - 1]);
                }
            }
        }
    }
}

/// Installing the application does not move its data: when the application's folder
/// lies inside the selected folder, the data directory is the same whatever the
/// selected folder holds, before the application is installed there and after.
pub proof fn lemma_resolution_is_the_same_before_and_after_install(
    selected: Seq<char>,
    app: Seq<char>,
    app_absolute: bool,
    name: Seq<char>,
    before: Selected,
    after: Selected,
    root_has_parent: bool,
    system: Seq<Seq<char>>,
    homes: Seq<Seq<char>>,
)
    requires
        inside_of(app, selected),
        !same_ignoring_case(selected, app),
        before.absolute == after.absolute,
    ensures
        resolved(selected, app, app_absolute, name, before, root_has_parent, system, homes) == resolved(
            selected,
            app,
            app_absolute,
            name,
            after,
            root_has_parent,
            system,
            homes,
        ),
        !protected_path(selected, system, homes) ==> data_child(selected, app, name, after) == Some(
            if same_ignoring_case(name, "FastFileOCR"@) {
                "Data"@
            } else {
                "FastFileOCR"@
            },
        ),
{
}

/// Resolves a selected folder to the data directory, without claiming unrelated
/// files. `name` is the selected folder's last component; `root_has_parent` says
/// whether the chosen directory has a parent.
pub fn resolve(
    selected: &str,
    app: &str,
    app_absolute: bool,
    name: &str,
    facts: Selected,
    root_has_parent: bool,
    system: &Vec<String>,
    homes: &Vec<String>,
) -> (r: Result<String, Error>)
    ensures
        match resolved(
            selected@,
            app@,
            app_absolute,
            name@,
            facts,
            root_has_parent,
            texts_of(system@),
            texts_of(homes@),
        ) {
            Ok(p) => r matches Ok(x) && x@ == p,
            Err(e) => r == Err::<String, Error>(e),
        },
{
    if !facts.absolute || parent_segment(selected) || !app_absolute || parent_segment(app) {
        return Err(Error::Unsafe);
    }
    if protected(selected, system, homes) {
        return Err(Error::Unsafe);
    }
    let root = if same(selected, app) {
        join(selected, "Data")
    } else if within(app, selected) || (!facts.marked && (!facts.has_parent || facts.populated)) {
        if same(name, "FastFileOCR") {
            join(selected, "Data")
        } else {
            join(selected, "FastFileOCR")
        }
    } else {
        selected.to_string()
    };
    if !root_has_parent || protected(root.as_str(), system, homes) || within(app, root.as_str()) {
        return Err(Error::Unsafe);
    }
    Ok(root)
}

/// The text of the marker that makes a directory the application's own.
pub open spec fn owner_text() -> Seq<char> {
    "FastFileOCR data v1"@
}

/// Whether a data directory is the application's own and may be written or cleared:
/// it has a parent, is not protected, no link lies anywhere in it, and its marker,
/// trimmed, is the owner text.
pub open spec fn owned_root(has_parent: bool, protected: bool, linked: bool, marker: Seq<char>) -> bool {
    has_parent && !protected && !linked && trim(marker) == owner_text()
}

/// The first ownership check, before the directory is read: it must have a parent
/// and not be protected.
pub fn claimable(has_parent: bool, protected: bool) -> (r: Result<(), Error>)
    ensures
        (has_parent && !protected) ==> r is Ok,
        !(has_parent && !protected) ==> r == Err::<(), Error>(Error::Unsafe),
{
    if !has_parent || protected {
        Err(Error::Unsafe)
    } else {
        Ok(())
    }
}

/// The second ownership check, after the directory was walked and its marker read:
/// no link may lie in it and the marker must be the owner text. Both checks passing
/// is `owned_root`.
pub fn marked_ours(linked: bool, marker: &str) -> (r: Result<(), Error>)
    ensures
        (!linked && trim(marker@) == owner_text()) ==> r is Ok,
        !(!linked && trim(marker@) == owner_text()) ==> r == Err::<(), Error>(Error::Unsafe),
{
    if linked {
        return Err(Error::Unsafe);
    }
    let t = trimmed(marker);
    if crate::strings::same_text(t.as_str(), "FastFileOCR data v1") {
        Ok(())
    } else {
        Err(Error::Unsafe)
    }
}

/// What uninstalling removes from the data directory: the settings, models,
/// runtimes, logs and updates when the data goes, the workspaces when the documents
/// go. Anything else in the directory stays.
pub open spec fn removal_names(data: bool, documents: bool) -> Seq<Seq<char>> {
    (if data {
        seq![
            "settings.json"@,
            "settings-backups"@,
            "models"@,
            "runtimes"@,
            "logs"@,
            "updates"@,
        ]
    } else {
        Seq::empty()
    }) + (if documents {
        seq!["workspaces"@]
    } else {
        Seq::empty()
    })
}

/// Uninstalling removes only the application's own entries, whatever is chosen:
/// nothing else in the data directory is touched.
pub proof fn lemma_removal_is_limited_to_owned_entries(data: bool, documents: bool, name: Seq<char>)
    requires
        removal_names(data, documents).contains(name),
    ensures
        name == "settings.json"@ || name == "settings-backups"@ || name == "models"@ || name
            == "runtimes"@ || name == "logs"@ || name == "updates"@ || name == "workspaces"@,
        name == "workspaces"@ ==> documents,
        name != "workspaces"@ ==> data,
{
    let k = choose|k: int| 0 <= k < removal_names(data, documents).len() && removal_names(data, documents)[k] == name;
    reveal_strlit("workspaces");
    reveal_strlit("settings.json");
    reveal_strlit("settings-backups");
    reveal_strlit("models");
    reveal_strlit("runtimes");
    reveal_strlit("logs");
    reveal_strlit("updates");
    if data {
        if k >= 6 {
            assert(name == "workspaces"@);
        }
    } else {
        assert(name == "workspaces"@);
    }
}

/// The entries that uninstalling removes.
pub fn removals(data: bool, documents: bool) -> (r: Vec<String>)
    ensures
        texts_of(r@) == removal_names(data, documents),
{
    let mut r: Vec<String> = Vec::new();
    if data {
        r.push("settings.json".to_string());
        r.push("settings-backups".to_string());
        r.push("models".to_string());
        r.push("runtimes".to_string());
        r.push("logs".to_string());
        r.push("updates".to_string());
    }
    if documents {
        r.push("workspaces".to_string());
    }
    assert(texts_of(r@) =~= removal_names(data, documents));
    r
}

} // verus!

//! Application preferences, where the data lives, and whether a directory may be
//! used as the data root.
use crate::i18n::{key_text, text};
use crate::store::{join, join_path, settings_error, Settings, SettingsView};
use crate::strings::{chars_of, same_text, trim, trimmed};
use crate::updates::{built_in_repository, default_repository, valid_repository, valid_repository_text};
use vstd::prelude::*;

verus! {

/// Versioned application preferences.
pub struct Preferences {
    pub schema_version: u32,
    pub language: String,
    pub check_updates: bool,
    pub github_repository: String,
    pub project_root: Option<String>,
    pub scan: Settings,
}

/// Preferences as values.
pub struct PreferencesView {
    pub schema_version: u32,
    pub language: Seq<char>,
    pub check_updates: bool,
    pub github_repository: Seq<char>,
    pub project_root: Option<Seq<char>>,
    pub scan: SettingsView,
}

impl View for Preferences {
    type V = PreferencesView;

    open spec fn view(&self) -> PreferencesView {
        PreferencesView {
            schema_version: self.schema_version,
            language: self.language@,
            check_updates: self.check_updates,
            github_repository: self.github_repository@,
            project_root: crate::download::opt_view(self.project_root),
            scan: self.scan@,
        }
    }
}

/// The preferences of a first start.
pub open spec fn default_preferences() -> PreferencesView {
    PreferencesView {
        schema_version: 1,
        language: "en"@,
        check_updates: true,
        github_repository: built_in_repository(),
        project_root: None,
        scan: crate::store::default_settings(),
    }
}

impl Default for Preferences {
    /// The preferences of a first start for a build that names no repository of its
    /// own; `for_build` gives them for any build.
    fn default() -> (r: Preferences)
        ensures
            r@ == default_preferences(),
    {
        Preferences {
            schema_version: 1,
            language: "en".to_string(),
            check_updates: true,
            github_repository: default_repository().to_string(),
            project_root: None,
            scan: Settings::default(),
        }
    }
}

/// The languages of the interface.
pub open spec fn known_language(language: Seq<char>) -> bool {
    language == "en"@ || language == "ko"@ || language == "ja"@
}

/// The first rule that preferences break, if any: a schema from a later version, an
/// unknown language, a malformed repository, then the scan settings' own rules.
pub open spec fn preferences_error(p: PreferencesView) -> Option<Seq<char>> {
    if p.schema_version > 1 {
        Some(key_text("futureSettings"@))
    } else if !known_language(p.language) {
        Some(key_text("invalidLanguage"@))
    } else if p.github_repository.len() > 0 && !valid_repository_text(p.github_repository) {
        Some(key_text("invalidRepository"@))
    } else {
        settings_error(p.scan)
    }
}

fn is_known_language(language: &str) -> (r: bool)
    ensures
        r == known_language(language@),
{
    same_text(language, "en") || same_text(language, "ko") || same_text(language, "ja")
}

/// The language of a first start: the one the installer recorded when it is known,
/// English otherwise.
pub open spec fn first_language(registry: Option<Seq<char>>) -> Seq<char> {
    match registry {
        Some(l) => if known_language(l) {
            l
        } else {
            "en"@
        },
        None => "en"@,
    }
}

/// The language of a first start.
pub fn initial_language(registry: Option<&str>) -> (r: String)
    ensures
        r@ == first_language(crate::download::opt_str(registry)),
{
    match registry {
        Some(l) => if is_known_language(l) {
            l.to_string()
        } else {
            "en".to_string()
        },
        None => "en".to_string(),
    }
}

impl Preferences {
    /// The preferences of a first start for a build whose update source is
    /// `configured` at compile time, if it names one (see `repository_from`).
    pub fn for_build(configured: Option<&str>) -> (r: Preferences)
        ensures
            r@ == (PreferencesView {
                github_repository: crate::updates::chosen_repository(
                    crate::download::opt_str(configured),
                ),
                ..default_preferences()
            }),
    {
        let mut p = Preferences::default();
        p.github_repository = crate::updates::repository_from(configured);
        p
    }

    /// Rejects preferences of a later schema, an unknown language, a malformed update
    /// repository, or invalid scan settings, in that order.
    pub fn validate(&self) -> (r: Result<(), String>)
        ensures
            match preferences_error(self@) {
                None => r is Ok,
                Some(e) => r matches Err(m) && m@ == e,
            },
    {
        if self.schema_version > 1 {
            return Err(text("futureSettings"));
        }
        if !is_known_language(self.language.as_str()) {
            return Err(text("invalidLanguage"));
        }
        if chars_of(self.github_repository.as_str()).len() > 0 && !valid_repository(
            self.github_repository.as_str(),
        ) {
            return Err(text("invalidRepository"));
        }
        self.scan.validate()
    }

    /// Preferences that the interface sends: they must be valid, and they never
    /// change the workspace, the scan settings, which have their own commands, or the
    /// update source, which is the build's whatever the interface sends.
    pub fn replace(&mut self, incoming: Preferences) -> (r: Result<(), String>)
        ensures
            match preferences_error(
                PreferencesView { github_repository: old(self)@.github_repository, ..incoming@ },
            ) {
                Some(e) => (r matches Err(m) && m@ == e) && final(self)@ == old(self)@,
                None => r is Ok && final(self)@ == (PreferencesView {
                    github_repository: old(self)@.github_repository,
                    project_root: old(self)@.project_root,
                    scan: old(self)@.scan,
                    ..incoming@
                }),
            },
    {
        let mut next = incoming;
        next.github_repository = self.github_repository.clone();
        match next.validate() {
            Err(e) => {
                return Err(e);
            },
            Ok(()) => {},
        }
        next.project_root = crate::download::clone_opt(&self.project_root);
        next.scan = self.scan.duplicate();
        *self = next;
        Ok(())
    }

    /// A copy of the preferences.
    pub fn duplicate(&self) -> (r: Preferences)
        ensures
            r@ == self@,
    {
        Preferences {
            schema_version: self.schema_version,
            language: self.language.clone(),
            check_updates: self.check_updates,
            github_repository: self.github_repository.clone(),
            project_root: crate::download::clone_opt(&self.project_root),
            scan: self.scan.duplicate(),
        }
    }

    /// The preferences of a first start, in the installer's language.
    pub fn fresh(registry_language: Option<&str>) -> (r: Preferences)
        ensures
            r@ == (PreferencesView {
                language: first_language(crate::download::opt_str(registry_language)),
                ..default_preferences()
            }),
    {
        let mut p = Preferences::default();
        p.language = initial_language(registry_language);
        p
    }

    /// Preferences read back from disk, as loading keeps them: the update source is
    /// always the build's, never a saved one; they must be valid; and they are
    /// written back under the current schema.
    pub fn adopt(self, repository: &str) -> (r: Result<Preferences, String>)
        ensures
            match preferences_error(PreferencesView { github_repository: repository@, ..self@ }) {
                Some(e) => r matches Err(m) && m@ == e,
                None => r matches Ok(p) && p@ == (PreferencesView {
                    schema_version: 1,
                    github_repository: repository@,
                    ..self@
                }),
            },
    {
        let mut p = self;
        p.github_repository = repository.to_string();
        match p.validate() {
            Err(e) => Err(e),
            Ok(()) => {
                p.schema_version = 1;
                Ok(p)
            },
        }
    }
}

/// The data root: the environment's override, else the directory the installer
/// recorded when it is not blank, else `FastFileOCR` in the local application data.
pub open spec fn data_root_of(env: Option<Seq<char>>, registry: Option<Seq<char>>, local: Seq<char>) -> Seq<char> {
    match env {
        Some(e) => e,
        None => match registry {
            Some(r) => if trim(r).len() > 0 {
                r
            } else {
                join_path(local, "FastFileOCR"@)
            },
            None => join_path(local, "FastFileOCR"@),
        },
    }
}

/// The data root.
pub fn data_root(env: Option<&str>, registry: Option<&str>, local: &str) -> (r: String)
    ensures
        r@ == data_root_of(
            crate::download::opt_str(env),
            crate::download::opt_str(registry),
            local@,
        ),
{
    match env {
        Some(e) => e.to_string(),
        None => match registry {
            Some(d) => if chars_of(trimmed(d).as_str()).len() > 0 {
                d.to_string()
            } else {
                join(local, "FastFileOCR")
            },
            None => join(local, "FastFileOCR"),
        },
    }
}

/// The text of the ownership marker.
pub open spec fn marker_text() -> Seq<char> {
    "FastFileOCR data v1"@
}

/// Whether a path may hold the data root at all, from what `std::path::Path` says of
/// it: absolute, with a parent and at least three components, and, when it exists,
/// neither a symbolic link nor a junction.
pub open spec fn data_path_safe(absolute: bool, has_parent: bool, components: usize, linked: Option<bool>) -> bool {
    absolute && has_parent && components >= 3 && linked != Some(true)
}

/// The first check on a data root; `linked` is `None` when the path does not exist.
pub fn check_data_path(absolute: bool, has_parent: bool, components: usize, linked: Option<bool>) -> (r: Result<(), String>)
    ensures
        data_path_safe(absolute, has_parent, components, linked) ==> r is Ok,
        !data_path_safe(absolute, has_parent, components, linked) ==> (r matches Err(e) && e@
            == key_text("unsafeDataPath"@)),
{
    if !absolute || !has_parent || components < 3 || linked == Some(true) {
        Err(text("unsafeDataPath"))
    } else {
        Ok(())
    }
}

/// Whether an existing directory may be used as the data root: its marker, when there
/// is one, must be this application's; without a marker it must be empty.
pub open spec fn owned(marker: Option<Seq<char>>, empty: bool) -> bool {
    match marker {
        Some(m) => trim(m) == marker_text(),
        None => empty,
    }
}

/// Whether an existing directory may be used as the data root.
pub fn check_owner(marker: Option<&str>, empty: bool) -> (r: Result<(), String>)
    ensures
        owned(crate::download::opt_str(marker), empty) ==> r is Ok,
        !owned(crate::download::opt_str(marker), empty) ==> (r matches Err(e) && e@ == key_text(
            "unownedDataPath"@,
        )),
{
    let ok = match marker {
        Some(m) => same_text(trimmed(m).as_str(), "FastFileOCR data v1"),
        None => empty,
    };
    if ok {
        Ok(())
    } else {
        Err(text("unownedDataPath"))
    }
}

} // verus!

//! Application settings and the path conventions derived from them.
//!
//! The engine reads two values out of the persisted settings: the selected
//! Steam account override and the data/cache directory overrides. Loading and
//! saving the settings file is I/O and lives outside the library; the fallback
//! decision between the primary file, the legacy file and the defaults is pure
//! and verified here.

use vstd::prelude::*;

use crate::strutil::{spec_has_prefix, str_has_prefix, str_range_eq};

verus! {

/// Rewrite a path under the alternate home prefix to the canonical home prefix.
///
/// On systems where the real home directory lives under `/var/home` (with
/// `/home` a symlink to it), the sandboxed Steam runtime only exposes `/home`.
/// A path that begins with `/var/home/` is rewritten to begin with `/home/`;
/// every other path is returned unchanged. This is a plain prefix rewrite, not
/// a symlink resolution, so it works for paths that do not exist yet.
pub fn normalize_path_for_steam(path: &str) -> (r: String)
    ensures
        r@ == spec_normalize_path(path@),
{
    proof {
        reveal_strlit("/var/home/");
        reveal_strlit("/home/");
    }
    let alt: &str = "/var/home/";
    let n: usize = path.unicode_len();
    if n >= 10 && str_range_eq(path, 0, alt) {
        let rest = path.substring_char(10, n);
        let mut out = String::from_str("/home/");
        out.append(rest);
        assert(out@ =~= spec_normalize_path(path@));
        out
    } else {
        assert(!spec_has_prefix(path@, "/var/home/"@));
        String::from_str(path)
    }
}

/// The alternate-home rewrite: `/var/home/...` becomes `/home/...`,
/// anything else is unchanged.
pub open spec fn spec_normalize_path(s: Seq<char>) -> Seq<char> {
    if spec_has_prefix(s, "/var/home/"@) {
        "/home/"@ + s.skip("/var/home/"@.len() as int)
    } else {
        s
    }
}

} // verus!

verus! {

/// The persisted application settings. The engine reads only the selected
/// Steam account override and the data/cache locations; the other fields
/// belong to functionality outside the library. Reading and writing the
/// settings file is done outside; this type holds the values.
pub struct AppConfig {
    pub selected_proton: Option<String>,
    pub first_run_completed: bool,
    pub data_path: String,
    pub steam_migration_shown: bool,
    pub cache_location: String,
    pub selected_steam_account: String,
}

/// The mathematical image of an [`AppConfig`].
pub ghost struct AppConfigView {
    pub selected_proton: Option<Seq<char>>,
    pub first_run_completed: bool,
    pub data_path: Seq<char>,
    pub steam_migration_shown: bool,
    pub cache_location: Seq<char>,
    pub selected_steam_account: Seq<char>,
}

impl View for AppConfig {
    type V = AppConfigView;

    open spec fn view(&self) -> AppConfigView {
        AppConfigView {
            selected_proton: match self.selected_proton {
                Option::Some(ref s) => Option::Some(s@),
                Option::None => Option::None,
            },
            first_run_completed: self.first_run_completed,
            data_path: self.data_path@,
            steam_migration_shown: self.steam_migration_shown,
            cache_location: self.cache_location@,
            selected_steam_account: self.selected_steam_account@,
        }
    }
}

/// The default data directory under a home directory.
pub fn default_data_path(home: &str) -> (r: String)
    ensures
        r@ == home@ + "/NaK"@,
{
    let mut out = String::from_str(home);
    out.append("/NaK");
    out
}

/// The settings a fresh installation starts with.
pub open spec fn spec_default_config(home: Seq<char>) -> AppConfigView {
    AppConfigView {
        selected_proton: Option::None,
        first_run_completed: false,
        data_path: home + "/NaK"@,
        steam_migration_shown: false,
        cache_location: Seq::empty(),
        selected_steam_account: Seq::empty(),
    }
}

impl AppConfig {
    /// The settings a fresh installation starts with.
    pub fn default_config(home: &str) -> (r: AppConfig)
        ensures
            r@ == spec_default_config(home@),
    {
        AppConfig {
            selected_proton: Option::None,
            first_run_completed: false,
            data_path: default_data_path(home),
            steam_migration_shown: false,
            cache_location: String::new(),
            selected_steam_account: String::new(),
        }
    }

    /// Where the settings file lives.
    pub fn get_config_path(home: &str) -> (r: String)
        ensures
            r@ == home@ + "/.config/nak/config.json"@,
    {
        let mut out = String::from_str(home);
        out.append("/.config/nak/config.json");
        out
    }

    /// Where an older version kept the settings file.
    pub fn get_legacy_path(home: &str) -> (r: String)
        ensures
            r@ == home@ + "/NaK/config.json"@,
    {
        let mut out = String::from_str(home);
        out.append("/NaK/config.json");
        out
    }

    /// The configured data directory.
    pub fn get_data_path(&self) -> (r: String)
        ensures
            r@ == self@.data_path,
    {
        self.data_path.clone()
    }

    /// The settings directory.
    pub fn get_config_dir(home: &str) -> (r: String)
        ensures
            r@ == home@ + "/.config/nak"@,
    {
        let mut out = String::from_str(home);
        out.append("/.config/nak");
        out
    }

    /// The cache directory used when no override is configured.
    pub fn get_default_cache_dir(home: &str) -> (r: String)
        ensures
            r@ == home@ + "/.cache/nak"@,
    {
        let mut out = String::from_str(home);
        out.append("/.cache/nak");
        out
    }

    /// The cache directory: the configured override, or the default when the
    /// override is empty.
    pub fn get_cache_dir(&self, home: &str) -> (r: String)
        ensures
            r@ == (if self@.cache_location.len() == 0 {
                home@ + "/.cache/nak"@
            } else {
                self@.cache_location
            }),
    {
        if self.cache_location.as_str().is_empty() {
            Self::get_default_cache_dir(home)
        } else {
            self.cache_location.clone()
        }
    }

    /// The directory for temporary files during installation work.
    pub fn get_tmp_path(home: &str) -> (r: String)
        ensures
            r@ == home@ + "/.cache/nak"@ + "/tmp"@,
    {
        let mut out = Self::get_default_cache_dir(home);
        out.append("/tmp");
        out
    }

    /// The legacy prefixes directory under the data directory.
    pub fn get_prefixes_path(&self) -> (r: String)
        ensures
            r@ == self@.data_path + "/Prefixes"@,
    {
        let mut out = self.get_data_path();
        out.append("/Prefixes");
        out
    }

    /// Decide what loading the settings yields, given what each location
    /// parsed to: the primary file when it parsed; else the legacy file,
    /// with an empty data path replaced by the default, and a flag telling
    /// the caller to migrate it; else the defaults. Reading the two files is
    /// the caller's work.
    pub fn resolve_loaded(
        primary: Option<AppConfig>,
        legacy: Option<AppConfig>,
        home: &str,
    ) -> (r: (AppConfig, bool))
        ensures
            match primary {
                Option::Some(c) => r.0@ == c@ && r.1 == false,
                Option::None => match legacy {
                    Option::Some(c) => r.1 == true && r.0@ == (if c@.data_path.len() == 0 {
                        AppConfigView { data_path: home@ + "/NaK"@, ..c@ }
                    } else {
                        c@
                    }),
                    Option::None => r.0@ == spec_default_config(home@) && r.1 == false,
                },
            },
    {
        match primary {
            Option::Some(c) => (c, false),
            Option::None => match legacy {
                Option::Some(mut c) => {
                    if c.data_path.as_str().is_empty() {
                        c.data_path = default_data_path(home);
                    }
                    (c, true)
                },
                Option::None => (AppConfig::default_config(home), false),
            },
        }
    }
}

} // verus!

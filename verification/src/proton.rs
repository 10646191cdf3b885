//! Installed Proton runtimes and the pre-check of the installation entry
//! point.
//!
//! Enumerating the runtimes is a filesystem walk done outside the library;
//! the records, the lookup by install path, and the fail-fast check that
//! precedes installation work are here.

use vstd::prelude::*;

use crate::strutil::{
    has_substring, lower_of, lowercase, spec_underscores, str_contains, str_eq,
    underscore_spaces,
};

verus! {

/// One installed Proton runtime.
#[derive(Debug)]
pub struct SteamProton {
    /// The display name.
    pub name: String,
    /// The short name used in configuration files.
    pub config_name: String,
    /// Where the runtime is installed.
    pub path: String,
    /// Whether this is a vendor-shipped build rather than a community one.
    pub is_steam_proton: bool,
    /// Whether this is an experimental or beta build.
    pub is_experimental: bool,
}

/// The mathematical image of a [`SteamProton`].
pub ghost struct SteamProtonView {
    pub name: Seq<char>,
    pub config_name: Seq<char>,
    pub path: Seq<char>,
    pub is_steam_proton: bool,
    pub is_experimental: bool,
}

impl View for SteamProton {
    type V = SteamProtonView;

    open spec fn view(&self) -> SteamProtonView {
        SteamProtonView {
            name: self.name@,
            config_name: self.config_name@,
            path: self.path@,
            is_steam_proton: self.is_steam_proton,
            is_experimental: self.is_experimental,
        }
    }
}

impl Clone for SteamProton {
    /// A field-for-field copy.
    fn clone(&self) -> (r: SteamProton)
        ensures
            r@ == self@,
    {
        SteamProton {
            name: self.name.clone(),
            config_name: self.config_name.clone(),
            path: self.path.clone(),
            is_steam_proton: self.is_steam_proton,
            is_experimental: self.is_experimental,
        }
    }
}

/// The first runtime installed at `path`.
pub open spec fn spec_find_proton(protons: Seq<SteamProtonView>, path: Seq<char>) -> Option<
    SteamProtonView,
>
    decreases protons.len(),
{
    if protons.len() == 0 {
        Option::None
    } else if protons[0].path == path {
        Option::Some(protons[0])
    } else {
        spec_find_proton(protons.drop_first(), path)
    }
}

/// Find the runtime installed at `proton_path`.
pub fn find_proton_by_path<'a>(protons: &'a Vec<SteamProton>, proton_path: &str) -> (r: Option<
    &'a SteamProton,
>)
    ensures
        match r {
            Option::Some(p) => spec_find_proton(
                protons@.map_values(|p: SteamProton| p@),
                proton_path@,
            ) == Option::Some(p@),
            Option::None => spec_find_proton(
                protons@.map_values(|p: SteamProton| p@),
                proton_path@,
            ) is None,
        },
{
    let ghost views = protons@.map_values(|p: SteamProton| p@);
    let mut i: usize = 0;
    proof {
        assert(views.skip(0) =~= views);
    }
    while i < protons.len()
        invariant
            views == protons@.map_values(|p: SteamProton| p@),
            i <= protons.len(),
            spec_find_proton(views, proton_path@) == spec_find_proton(
                views.skip(i as int),
                proton_path@,
            ),
        decreases protons.len() - i,
    {
        proof {
            assert(views.skip(i as int)[0] == views[i as int]);
            assert(views.skip(i as int).drop_first() =~= views.skip(i + 1));
        }
        if str_eq(protons[i].path.as_str(), proton_path) {
            return Option::Some(&protons[i]);
        }
        i = i + 1;
    }
    proof {
        assert(views.skip(protons@.len() as int) =~= Seq::<SteamProtonView>::empty());
    }
    Option::None
}

/// The fail-fast check before installation work: the runtime named by its
/// install path, or the one explicit error the boundary knows, with the
/// offending path in its message. The error comes exactly when no runtime is
/// installed at that path.
pub fn install_precheck(protons: &Vec<SteamProton>, proton_path: &str) -> (r: Result<
    SteamProton,
    String,
>)
    ensures
        match r {
            Result::Ok(p) => spec_find_proton(
                protons@.map_values(|p: SteamProton| p@),
                proton_path@,
            ) == Option::Some(p@),
            Result::Err(m) => spec_find_proton(
                protons@.map_values(|p: SteamProton| p@),
                proton_path@,
            ) is None && m@ == "Proton not found at path: "@ + proton_path@,
        },
{
    match find_proton_by_path(protons, proton_path) {
        Option::Some(p) => Result::Ok(p.clone()),
        Option::None => {
            let mut msg = String::from_str("Proton not found at path: ");
            msg.append(proton_path);
            Result::Err(msg)
        },
    }
}

} // verus!

verus! {

/// How one directory entry of a runtime location is classified: an entry
/// whose name contains `proton` (ignoring case) is a runtime; its short
/// config name is the lower-cased name with spaces as underscores; it counts
/// as experimental when the name says `experimental` or `beta`. Any other
/// entry is not a runtime.
pub open spec fn spec_classify_proton(
    name: Seq<char>,
    path: Seq<char>,
    vendor_shipped: bool,
) -> Option<SteamProtonView> {
    let ln = lower_of(name);
    if has_substring(ln, "proton"@) {
        Option::Some(
            SteamProtonView {
                name,
                config_name: spec_underscores(ln),
                path,
                is_steam_proton: vendor_shipped,
                is_experimental: has_substring(ln, "experimental"@) || has_substring(
                    ln,
                    "beta"@,
                ),
            },
        )
    } else {
        Option::None
    }
}

/// Classify one directory entry found while enumerating a runtime location.
/// The walk that lists the entries is the caller's work; whether an entry is
/// a runtime, and what record it becomes, is decided here.
pub fn classify_proton_entry(name: &str, path: &str, vendor_shipped: bool) -> (r: Option<
    SteamProton,
>)
    ensures
        match r {
            Option::Some(p) => spec_classify_proton(name@, path@, vendor_shipped)
                == Option::Some(p@),
            Option::None => spec_classify_proton(name@, path@, vendor_shipped) is None,
        },
{
    let ln = lowercase(name);
    if !str_contains(ln.as_str(), "proton") {
        return Option::None;
    }
    let is_experimental = str_contains(ln.as_str(), "experimental") || str_contains(
        ln.as_str(),
        "beta",
    );
    Option::Some(
        SteamProton {
            name: name.to_owned(),
            config_name: underscore_spaces(ln.as_str()),
            path: path.to_owned(),
            is_steam_proton: vendor_shipped,
            is_experimental,
        },
    )
}

} // verus!

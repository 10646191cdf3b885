//! The unified game model: one record per detected installation, whatever
//! launcher it came from, plus the aggregate of one full scan.
//!
//! The launcher probes themselves walk the filesystem and live outside the
//! library; each hands in its list of games. Aggregation, lookup, filtering
//! and the path helpers below are pure and verified.

use vstd::prelude::*;

use crate::strutil::{lower_of, lowercase, str_eq};

verus! {

/// The store behind a Heroic installation.
#[derive(Clone, Copy, PartialEq, Eq, Structural, Debug)]
pub enum HeroicStore {
    GOG,
    Epic,
}

/// The launcher a game was installed from.
#[derive(Clone, Copy, PartialEq, Eq, Structural, Debug)]
pub enum Launcher {
    Steam { is_flatpak: bool, is_snap: bool },
    Heroic { store: HeroicStore },
    Bottles,
}

/// The name shown for each launcher variant.
pub open spec fn spec_display_name(l: Launcher) -> Seq<char> {
    match l {
        Launcher::Steam { is_flatpak, is_snap } => {
            if is_flatpak {
                "Steam (Flatpak)"@
            } else if is_snap {
                "Steam (Snap)"@
            } else {
                "Steam"@
            }
        },
        Launcher::Heroic { store } => match store {
            HeroicStore::GOG => "Heroic (GOG)"@,
            HeroicStore::Epic => "Heroic (Epic)"@,
        },
        Launcher::Bottles => "Bottles"@,
    }
}

impl Launcher {
    /// The display name of this launcher variant.
    pub fn display_name(&self) -> (r: &'static str)
        ensures
            r@ == spec_display_name(*self),
    {
        match self {
            Launcher::Steam { is_flatpak, is_snap } => {
                if *is_flatpak {
                    "Steam (Flatpak)"
                } else if *is_snap {
                    "Steam (Snap)"
                } else {
                    "Steam"
                }
            },
            Launcher::Heroic { store } => match store {
                HeroicStore::GOG => "Heroic (GOG)",
                HeroicStore::Epic => "Heroic (Epic)",
            },
            Launcher::Bottles => "Bottles",
        }
    }
}

/// The launcher families, ignoring sub-variants.
pub ghost enum LauncherFamily {
    Steam,
    Heroic,
    Bottles,
}

/// The family a launcher variant belongs to.
pub open spec fn family_of(l: Launcher) -> LauncherFamily {
    match l {
        Launcher::Steam { .. } => LauncherFamily::Steam,
        Launcher::Heroic { .. } => LauncherFamily::Heroic,
        Launcher::Bottles => LauncherFamily::Bottles,
    }
}

/// One detected game installation. `prefix_path` is present exactly when the
/// launcher runs the game under a compatibility prefix and one was found on
/// disk. The optional folder and registry fields come from the known-game
/// catalog and stay absent for games the catalog does not list.
#[derive(Debug)]
pub struct Game {
    pub name: String,
    pub app_id: String,
    pub install_path: String,
    pub prefix_path: Option<String>,
    pub launcher: Launcher,
    pub my_games_folder: Option<String>,
    pub appdata_local_folder: Option<String>,
    pub appdata_roaming_folder: Option<String>,
    pub registry_path: Option<String>,
    pub registry_value: Option<String>,
}

/// The view of an optional string.
pub open spec fn opt_view(o: Option<String>) -> Option<Seq<char>> {
    match o {
        Option::Some(s) => Option::Some(s@),
        Option::None => Option::None,
    }
}

/// The mathematical image of a [`Game`].
pub ghost struct GameView {
    pub name: Seq<char>,
    pub app_id: Seq<char>,
    pub install_path: Seq<char>,
    pub prefix_path: Option<Seq<char>>,
    pub launcher: Launcher,
    pub my_games_folder: Option<Seq<char>>,
    pub appdata_local_folder: Option<Seq<char>>,
    pub appdata_roaming_folder: Option<Seq<char>>,
    pub registry_path: Option<Seq<char>>,
    pub registry_value: Option<Seq<char>>,
}

impl View for Game {
    type V = GameView;

    open spec fn view(&self) -> GameView {
        GameView {
            name: self.name@,
            app_id: self.app_id@,
            install_path: self.install_path@,
            prefix_path: opt_view(self.prefix_path),
            launcher: self.launcher,
            my_games_folder: opt_view(self.my_games_folder),
            appdata_local_folder: opt_view(self.appdata_local_folder),
            appdata_roaming_folder: opt_view(self.appdata_roaming_folder),
            registry_path: opt_view(self.registry_path),
            registry_value: opt_view(self.registry_value),
        }
    }
}

/// Copy an optional string.
fn clone_opt_string(o: &Option<String>) -> (r: Option<String>)
    ensures
        opt_view(r) == opt_view(*o),
{
    match o {
        Option::Some(s) => Option::Some(s.clone()),
        Option::None => Option::None,
    }
}

impl Clone for Game {
    /// A field-for-field copy.
    fn clone(&self) -> (r: Game)
        ensures
            r@ == self@,
    {
        Game {
            name: self.name.clone(),
            app_id: self.app_id.clone(),
            install_path: self.install_path.clone(),
            prefix_path: clone_opt_string(&self.prefix_path),
            launcher: self.launcher,
            my_games_folder: clone_opt_string(&self.my_games_folder),
            appdata_local_folder: clone_opt_string(&self.appdata_local_folder),
            appdata_roaming_folder: clone_opt_string(&self.appdata_roaming_folder),
            registry_path: clone_opt_string(&self.registry_path),
            registry_value: clone_opt_string(&self.registry_value),
        }
    }
}

/// The user directory chosen inside a prefix: the first listed name that is
/// neither of Wine's reserved accounts, or the conventional `steamuser` when
/// the listing is empty or holds only reserved names.
pub open spec fn spec_prefix_user_name(entries: Seq<Seq<char>>) -> Seq<char>
    decreases entries.len(),
{
    if entries.len() == 0 {
        "steamuser"@
    } else if entries[0] != "Public"@ && entries[0] != "root"@ {
        entries[0]
    } else {
        spec_prefix_user_name(entries.drop_first())
    }
}

/// The user directory inside a prefix, as a path.
pub open spec fn spec_prefix_user_dir(prefix: Seq<char>, entries: Seq<Seq<char>>) -> Seq<char> {
    prefix + "/drive_c/users/"@ + spec_prefix_user_name(entries)
}

impl Game {
    /// Whether a compatibility prefix was found for this game.
    pub fn has_prefix(&self) -> (r: bool)
        ensures
            r == (self@.prefix_path is Some),
    {
        self.prefix_path.is_some()
    }

    /// The user directory inside this game's prefix, given the names listed
    /// under `drive_c/users`; nothing when the game has no prefix.
    pub fn get_prefix_user_path(&self, user_entries: &Vec<String>) -> (r: Option<String>)
        ensures
            match r {
                Option::Some(p) => self@.prefix_path is Some && p@ == spec_prefix_user_dir(
                    self@.prefix_path->0,
                    user_entries@.map_values(|x: String| x@),
                ),
                Option::None => self@.prefix_path is None,
            },
    {
        let prefix = match self.prefix_path {
            Option::Some(ref p) => p,
            Option::None => {
                return Option::None;
            },
        };
        let ghost entry_views = user_entries@.map_values(|x: String| x@);
        let mut i: usize = 0;
        proof {
            assert(entry_views.skip(0) =~= entry_views);
        }
        while i < user_entries.len()
            invariant
                entry_views == user_entries@.map_values(|x: String| x@),
                i <= user_entries.len(),
                self@.prefix_path == Option::Some(prefix@),
                spec_prefix_user_name(entry_views) == spec_prefix_user_name(
                    entry_views.skip(i as int),
                ),
            decreases user_entries.len() - i,
        {
            proof {
                assert(entry_views.skip(i as int)[0] == entry_views[i as int]);
                assert(entry_views.skip(i as int).drop_first() =~= entry_views.skip(i + 1));
            }
            proof {
                reveal_strlit("Public");
                reveal_strlit("root");
            }
            if !str_eq(user_entries[i].as_str(), "Public") && !str_eq(
                user_entries[i].as_str(),
                "root",
            ) {
                let mut out = prefix.clone();
                out.append("/drive_c/users/");
                out.append(user_entries[i].as_str());
                proof {
                    assert(spec_prefix_user_name(entry_views.skip(i as int))
                        == entry_views[i as int]);
                }
                return Option::Some(out);
            }
            i = i + 1;
        }
        proof {
            assert(entry_views.skip(user_entries@.len() as int) =~= Seq::<Seq<char>>::empty());
        }
        let mut out = prefix.clone();
        out.append("/drive_c/users/");
        out.append("steamuser");
        Option::Some(out)
    }

    /// The `Documents` directory inside this game's prefix.
    pub fn get_prefix_documents_path(&self, user_entries: &Vec<String>) -> (r: Option<String>)
        ensures
            match r {
                Option::Some(p) => self@.prefix_path is Some && p@ == spec_prefix_user_dir(
                    self@.prefix_path->0,
                    user_entries@.map_values(|x: String| x@),
                ) + "/Documents"@,
                Option::None => self@.prefix_path is None,
            },
    {
        match self.get_prefix_user_path(user_entries) {
            Option::Some(mut p) => {
                p.append("/Documents");
                Option::Some(p)
            },
            Option::None => Option::None,
        }
    }

    /// This game's save directory under `Documents/My Games`, when both the
    /// prefix and the catalog folder name are known.
    pub fn get_prefix_my_games_path(&self, user_entries: &Vec<String>) -> (r: Option<String>)
        ensures
            match r {
                Option::Some(p) => self@.prefix_path is Some && self@.my_games_folder is Some
                    && p@ == spec_prefix_user_dir(
                    self@.prefix_path->0,
                    user_entries@.map_values(|x: String| x@),
                ) + "/Documents"@ + "/My Games/"@ + self@.my_games_folder->0,
                Option::None => self@.prefix_path is None || self@.my_games_folder is None,
            },
    {
        let docs = match self.get_prefix_documents_path(user_entries) {
            Option::Some(d) => d,
            Option::None => {
                return Option::None;
            },
        };
        match self.my_games_folder {
            Option::Some(ref folder) => {
                let mut p = docs;
                p.append("/My Games/");
                p.append(folder.as_str());
                Option::Some(p)
            },
            Option::None => Option::None,
        }
    }

    /// This game's folder under `AppData/Local`, when both the prefix and
    /// the catalog folder name are known.
    pub fn get_prefix_appdata_local_path(&self, user_entries: &Vec<String>) -> (r: Option<String>)
        ensures
            match r {
                Option::Some(p) => self@.prefix_path is Some && self@.appdata_local_folder
                    is Some && p@ == spec_prefix_user_dir(
                    self@.prefix_path->0,
                    user_entries@.map_values(|x: String| x@),
                ) + "/AppData/Local/"@ + self@.appdata_local_folder->0,
                Option::None => self@.prefix_path is None || self@.appdata_local_folder is None,
            },
    {
        let user = match self.get_prefix_user_path(user_entries) {
            Option::Some(u) => u,
            Option::None => {
                return Option::None;
            },
        };
        match self.appdata_local_folder {
            Option::Some(ref folder) => {
                let mut p = user;
                p.append("/AppData/Local/");
                p.append(folder.as_str());
                Option::Some(p)
            },
            Option::None => Option::None,
        }
    }

    /// This game's folder under `AppData/Roaming`, when both the prefix and
    /// the catalog folder name are known.
    pub fn get_prefix_appdata_roaming_path(&self, user_entries: &Vec<String>) -> (r: Option<
        String,
    >)
        ensures
            match r {
                Option::Some(p) => self@.prefix_path is Some && self@.appdata_roaming_folder
                    is Some && p@ == spec_prefix_user_dir(
                    self@.prefix_path->0,
                    user_entries@.map_values(|x: String| x@),
                ) + "/AppData/Roaming/"@ + self@.appdata_roaming_folder->0,
                Option::None => self@.prefix_path is None || self@.appdata_roaming_folder
                    is None,
            },
    {
        let user = match self.get_prefix_user_path(user_entries) {
            Option::Some(u) => u,
            Option::None => {
                return Option::None;
            },
        };
        match self.appdata_roaming_folder {
            Option::Some(ref folder) => {
                let mut p = user;
                p.append("/AppData/Roaming/");
                p.append(folder.as_str());
                Option::Some(p)
            },
            Option::None => Option::None,
        }
    }
}

} // verus!

verus! {

/// How many of `games` belong to the launcher family `f`.
pub open spec fn count_family(games: Seq<GameView>, f: LauncherFamily) -> nat
    decreases games.len(),
{
    if games.len() == 0 {
        0
    } else {
        count_family(games.drop_last(), f) + (if family_of(games.last().launcher) == f {
            1nat
        } else {
            0nat
        })
    }
}

/// Family counts add up over concatenation.
pub proof fn lemma_count_family_concat(a: Seq<GameView>, b: Seq<GameView>, f: LauncherFamily)
    ensures
        count_family(a + b, f) == count_family(a, f) + count_family(b, f),
    decreases b.len(),
{
    if b.len() == 0 {
        assert(a + b =~= a);
    } else {
        assert((a + b).drop_last() =~= a + b.drop_last());
        assert((a + b).last() == b.last());
        lemma_count_family_concat(a, b.drop_last(), f);
    }
}

/// A list whose games all belong to family `f` counts its full length for
/// `f` and zero for any other family.
pub proof fn lemma_count_family_uniform(s: Seq<GameView>, f: LauncherFamily, g: LauncherFamily)
    requires
        forall|i: int| 0 <= i < s.len() ==> family_of((#[trigger] s[i]).launcher) == f,
    ensures
        count_family(s, f) == s.len(),
        g != f ==> count_family(s, g) == 0,
    decreases s.len(),
{
    if s.len() > 0 {
        assert(forall|i: int|
            0 <= i < s.drop_last().len() ==> family_of((#[trigger] s.drop_last()[i]).launcher)
                == f);
        lemma_count_family_uniform(s.drop_last(), f, g);
        assert(s.last() == s[s.len() - 1]);
    }
}

/// The outcome of one full scan: the games of every probe, in probe order,
/// and one count per launcher family, each taken from its own probe.
pub struct GameScanResult {
    pub games: Vec<Game>,
    pub steam_count: usize,
    pub heroic_count: usize,
    pub bottles_count: usize,
}

/// The counters always equal the number of games of their family.
pub open spec fn scan_wf(r: &GameScanResult) -> bool {
    &&& r.steam_count == count_family(
        r.games@.map_values(|g: Game| g@),
        LauncherFamily::Steam,
    )
    &&& r.heroic_count == count_family(
        r.games@.map_values(|g: Game| g@),
        LauncherFamily::Heroic,
    )
    &&& r.bottles_count == count_family(
        r.games@.map_values(|g: Game| g@),
        LauncherFamily::Bottles,
    )
}

/// The games of `s` that have a compatibility prefix, in order.
pub open spec fn spec_games_with_prefixes(s: Seq<GameView>) -> Seq<GameView>
    decreases s.len(),
{
    if s.len() == 0 {
        Seq::empty()
    } else {
        spec_games_with_prefixes(s.drop_last()) + (if s.last().prefix_path is Some {
            seq![s.last()]
        } else {
            Seq::empty()
        })
    }
}

/// True when launcher `l` belongs to the family named `t` (`steam`,
/// `heroic` or `bottles`).
pub open spec fn spec_family_matches(l: Launcher, t: Seq<char>) -> bool {
    ||| (l is Steam && t == "steam"@)
    ||| (l is Heroic && t == "heroic"@)
    ||| (l is Bottles && t == "bottles"@)
}

/// The games of `s` whose launcher family is named `t`, in order.
pub open spec fn spec_games_by_launcher(s: Seq<GameView>, t: Seq<char>) -> Seq<GameView>
    decreases s.len(),
{
    if s.len() == 0 {
        Seq::empty()
    } else {
        spec_games_by_launcher(s.drop_last(), t) + (if spec_family_matches(s.last().launcher, t) {
            seq![s.last()]
        } else {
            Seq::empty()
        })
    }
}

/// The first game of `s` whose name equals `target` case-insensitively.
pub open spec fn spec_find_by_name(s: Seq<GameView>, target: Seq<char>) -> Option<GameView>
    decreases s.len(),
{
    if s.len() == 0 {
        Option::None
    } else if lower_of(s[0].name) == lower_of(target) {
        Option::Some(s[0])
    } else {
        spec_find_by_name(s.drop_first(), target)
    }
}

/// The first game of `s` whose store id equals `target` exactly.
pub open spec fn spec_find_by_app_id(s: Seq<GameView>, target: Seq<char>) -> Option<GameView>
    decreases s.len(),
{
    if s.len() == 0 {
        Option::None
    } else if s[0].app_id == target {
        Option::Some(s[0])
    } else {
        spec_find_by_app_id(s.drop_first(), target)
    }
}

impl GameScanResult {
    /// The games that carry a compatibility prefix, in scan order.
    pub fn games_with_prefixes(&self) -> (r: Vec<Game>)
        ensures
            r@.map_values(|g: Game| g@) == spec_games_with_prefixes(
                self.games@.map_values(|g: Game| g@),
            ),
    {
        let ghost views = self.games@.map_values(|g: Game| g@);
        let mut out: Vec<Game> = Vec::new();
        let mut i: usize = 0;
        proof {
            assert(views.take(0) =~= Seq::<GameView>::empty());
            assert(out@.map_values(|g: Game| g@) =~= Seq::<GameView>::empty());
        }
        while i < self.games.len()
            invariant
                views == self.games@.map_values(|g: Game| g@),
                i <= self.games.len(),
                out@.map_values(|g: Game| g@) == spec_games_with_prefixes(views.take(i as int)),
            decreases self.games.len() - i,
        {
            let ghost prev = out@.map_values(|g: Game| g@);
            proof {
                assert(views.take(i + 1).drop_last() =~= views.take(i as int));
                assert(views.take(i + 1).last() == views[i as int]);
            }
            if self.games[i].has_prefix() {
                let g = self.games[i].clone();
                out.push(g);
                proof {
                    assert(out@.map_values(|g: Game| g@) =~= prev.push(views[i as int]));
                    assert(prev.push(views[i as int]) =~= prev + seq![views[i as int]]);
                }
            } else {
                proof {
                    assert(prev + Seq::<GameView>::empty() =~= prev);
                }
            }
            i = i + 1;
        }
        proof {
            assert(views.take(self.games@.len() as int) =~= views);
        }
        out
    }

    /// The games whose launcher family is named `launcher_type`, in scan
    /// order.
    pub fn games_by_launcher(&self, launcher_type: &str) -> (r: Vec<Game>)
        ensures
            r@.map_values(|g: Game| g@) == spec_games_by_launcher(
                self.games@.map_values(|g: Game| g@),
                launcher_type@,
            ),
    {
        let ghost views = self.games@.map_values(|g: Game| g@);
        let mut out: Vec<Game> = Vec::new();
        let mut i: usize = 0;
        proof {
            assert(views.take(0) =~= Seq::<GameView>::empty());
            assert(out@.map_values(|g: Game| g@) =~= Seq::<GameView>::empty());
        }
        while i < self.games.len()
            invariant
                views == self.games@.map_values(|g: Game| g@),
                i <= self.games.len(),
                out@.map_values(|g: Game| g@) == spec_games_by_launcher(
                    views.take(i as int),
                    launcher_type@,
                ),
            decreases self.games.len() - i,
        {
            let ghost prev = out@.map_values(|g: Game| g@);
            proof {
                assert(views.take(i + 1).drop_last() =~= views.take(i as int));
                assert(views.take(i + 1).last() == views[i as int]);
            }
            let is_match = match self.games[i].launcher {
                Launcher::Steam { .. } => str_eq(launcher_type, "steam"),
                Launcher::Heroic { .. } => str_eq(launcher_type, "heroic"),
                Launcher::Bottles => str_eq(launcher_type, "bottles"),
            };
            if is_match {
                let g = self.games[i].clone();
                out.push(g);
                proof {
                    assert(out@.map_values(|g: Game| g@) =~= prev.push(views[i as int]));
                    assert(prev.push(views[i as int]) =~= prev + seq![views[i as int]]);
                }
            } else {
                proof {
                    assert(prev + Seq::<GameView>::empty() =~= prev);
                }
            }
            i = i + 1;
        }
        proof {
            assert(views.take(self.games@.len() as int) =~= views);
        }
        out
    }

    /// Look a game up by name, ignoring case.
    pub fn find_by_name(&self, name: &str) -> (r: Option<&Game>)
        ensures
            match r {
                Option::Some(g) => spec_find_by_name(
                    self.games@.map_values(|g: Game| g@),
                    name@,
                ) == Option::Some(g@),
                Option::None => spec_find_by_name(self.games@.map_values(|g: Game| g@), name@)
                    is None,
            },
    {
        let ghost views = self.games@.map_values(|g: Game| g@);
        let name_lower = lowercase(name);
        let mut i: usize = 0;
        proof {
            assert(views.skip(0) =~= views);
        }
        while i < self.games.len()
            invariant
                views == self.games@.map_values(|g: Game| g@),
                i <= self.games.len(),
                name_lower@ == lower_of(name@),
                spec_find_by_name(views, name@) == spec_find_by_name(
                    views.skip(i as int),
                    name@,
                ),
            decreases self.games.len() - i,
        {
            proof {
                assert(views.skip(i as int)[0] == views[i as int]);
                assert(views.skip(i as int).drop_first() =~= views.skip(i + 1));
            }
            let g_lower = lowercase(self.games[i].name.as_str());
            if str_eq(g_lower.as_str(), name_lower.as_str()) {
                return Option::Some(&self.games[i]);
            }
            i = i + 1;
        }
        proof {
            assert(views.skip(self.games@.len() as int) =~= Seq::<GameView>::empty());
        }
        Option::None
    }

    /// Look a game up by its exact store id.
    pub fn find_by_app_id(&self, app_id: &str) -> (r: Option<&Game>)
        ensures
            match r {
                Option::Some(g) => spec_find_by_app_id(
                    self.games@.map_values(|g: Game| g@),
                    app_id@,
                ) == Option::Some(g@),
                Option::None => spec_find_by_app_id(
                    self.games@.map_values(|g: Game| g@),
                    app_id@,
                ) is None,
            },
    {
        let ghost views = self.games@.map_values(|g: Game| g@);
        let mut i: usize = 0;
        proof {
            assert(views.skip(0) =~= views);
        }
        while i < self.games.len()
            invariant
                views == self.games@.map_values(|g: Game| g@),
                i <= self.games.len(),
                spec_find_by_app_id(views, app_id@) == spec_find_by_app_id(
                    views.skip(i as int),
                    app_id@,
                ),
            decreases self.games.len() - i,
        {
            proof {
                assert(views.skip(i as int)[0] == views[i as int]);
                assert(views.skip(i as int).drop_first() =~= views.skip(i + 1));
            }
            if str_eq(self.games[i].app_id.as_str(), app_id) {
                return Option::Some(&self.games[i]);
            }
            i = i + 1;
        }
        proof {
            assert(views.skip(self.games@.len() as int) =~= Seq::<GameView>::empty());
        }
        Option::None
    }
}

/// Aggregate one full scan: the three probes' games concatenated in fixed
/// order (Steam, then Heroic, then Bottles), each counter taken from its own
/// probe's length. Each probe hands in only games of its own launcher, so
/// the counters match the merged list.
pub fn detect_all_games(
    steam_games: Vec<Game>,
    heroic_games: Vec<Game>,
    bottles_games: Vec<Game>,
) -> (r: GameScanResult)
    requires
        forall|i: int|
            0 <= i < steam_games@.len() ==> (#[trigger] steam_games@[i])@.launcher is Steam,
        forall|i: int|
            0 <= i < heroic_games@.len() ==> (#[trigger] heroic_games@[i])@.launcher is Heroic,
        forall|i: int|
            0 <= i < bottles_games@.len() ==> (#[trigger] bottles_games@[i])@.launcher
                is Bottles,
    ensures
        r.games@.map_values(|g: Game| g@) == steam_games@.map_values(|g: Game| g@)
            + heroic_games@.map_values(|g: Game| g@) + bottles_games@.map_values(|g: Game| g@),
        r.steam_count == steam_games@.len(),
        r.heroic_count == heroic_games@.len(),
        r.bottles_count == bottles_games@.len(),
        scan_wf(&r),
{
    let ghost sm = steam_games@.map_values(|g: Game| g@);
    let ghost hm = heroic_games@.map_values(|g: Game| g@);
    let ghost bm = bottles_games@.map_values(|g: Game| g@);
    let steam_count = steam_games.len();
    let heroic_count = heroic_games.len();
    let bottles_count = bottles_games.len();
    let mut games = steam_games;
    let mut heroic_games = heroic_games;
    let mut bottles_games = bottles_games;
    games.append(&mut heroic_games);
    games.append(&mut bottles_games);
    let r = GameScanResult { games, steam_count, heroic_count, bottles_count };
    proof {
        assert(r.games@.map_values(|g: Game| g@) =~= sm + hm + bm);
        lemma_count_family_concat(sm + hm, bm, LauncherFamily::Steam);
        lemma_count_family_concat(sm, hm, LauncherFamily::Steam);
        lemma_count_family_concat(sm + hm, bm, LauncherFamily::Heroic);
        lemma_count_family_concat(sm, hm, LauncherFamily::Heroic);
        lemma_count_family_concat(sm + hm, bm, LauncherFamily::Bottles);
        lemma_count_family_concat(sm, hm, LauncherFamily::Bottles);
        assert(forall|i: int|
            0 <= i < sm.len() ==> family_of((#[trigger] sm[i]).launcher)
                == LauncherFamily::Steam);
        assert(forall|i: int|
            0 <= i < hm.len() ==> family_of((#[trigger] hm[i]).launcher)
                == LauncherFamily::Heroic);
        assert(forall|i: int|
            0 <= i < bm.len() ==> family_of((#[trigger] bm[i]).launcher)
                == LauncherFamily::Bottles);
        lemma_count_family_uniform(sm, LauncherFamily::Steam, LauncherFamily::Heroic);
        lemma_count_family_uniform(sm, LauncherFamily::Steam, LauncherFamily::Bottles);
        lemma_count_family_uniform(hm, LauncherFamily::Heroic, LauncherFamily::Steam);
        lemma_count_family_uniform(hm, LauncherFamily::Heroic, LauncherFamily::Bottles);
        lemma_count_family_uniform(bm, LauncherFamily::Bottles, LauncherFamily::Steam);
        lemma_count_family_uniform(bm, LauncherFamily::Bottles, LauncherFamily::Heroic);
        assert((sm + hm + bm) =~= ((sm + hm) + bm));
    }
    r
}

/// The same pipeline restricted to the Steam probe: its games, its count,
/// and zero for the other two families.
pub fn detect_steam_only(steam_games: Vec<Game>) -> (r: GameScanResult)
    requires
        forall|i: int|
            0 <= i < steam_games@.len() ==> (#[trigger] steam_games@[i])@.launcher is Steam,
    ensures
        r.games@.map_values(|g: Game| g@) == steam_games@.map_values(|g: Game| g@),
        r.steam_count == steam_games@.len(),
        r.heroic_count == 0,
        r.bottles_count == 0,
        scan_wf(&r),
{
    let ghost sm = steam_games@.map_values(|g: Game| g@);
    let steam_count = steam_games.len();
    let r = GameScanResult { games: steam_games, steam_count, heroic_count: 0, bottles_count: 0 };
    proof {
        assert(forall|i: int|
            0 <= i < sm.len() ==> family_of((#[trigger] sm[i]).launcher)
                == LauncherFamily::Steam);
        lemma_count_family_uniform(sm, LauncherFamily::Steam, LauncherFamily::Heroic);
        lemma_count_family_uniform(sm, LauncherFamily::Steam, LauncherFamily::Bottles);
    }
    r
}

} // verus!

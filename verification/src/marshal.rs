//! Flattening the scan result for a foreign caller.
//!
//! The boundary hands games out as flat records of plain strings. Building
//! those records — copying the fields and writing the launcher as its
//! display name — is pure and verified here; turning them into caller-owned
//! allocations is the boundary's own work, outside the library.

use vstd::prelude::*;

use crate::games::{opt_view, spec_display_name, Game, GameScanResult, GameView};

verus! {

/// One game as the boundary hands it out: every field a plain string, the
/// launcher replaced by its display name.
pub struct FlatGame {
    pub name: String,
    pub app_id: String,
    pub install_path: String,
    pub prefix_path: Option<String>,
    pub launcher: String,
    pub my_games_folder: Option<String>,
    pub appdata_local_folder: Option<String>,
    pub appdata_roaming_folder: Option<String>,
    pub registry_path: Option<String>,
    pub registry_value: Option<String>,
}

/// The mathematical image of a [`FlatGame`].
pub ghost struct FlatGameView {
    pub name: Seq<char>,
    pub app_id: Seq<char>,
    pub install_path: Seq<char>,
    pub prefix_path: Option<Seq<char>>,
    pub launcher: Seq<char>,
    pub my_games_folder: Option<Seq<char>>,
    pub appdata_local_folder: Option<Seq<char>>,
    pub appdata_roaming_folder: Option<Seq<char>>,
    pub registry_path: Option<Seq<char>>,
    pub registry_value: Option<Seq<char>>,
}

impl View for FlatGame {
    type V = FlatGameView;

    open spec fn view(&self) -> FlatGameView {
        FlatGameView {
            name: self.name@,
            app_id: self.app_id@,
            install_path: self.install_path@,
            prefix_path: opt_view(self.prefix_path),
            launcher: self.launcher@,
            my_games_folder: opt_view(self.my_games_folder),
            appdata_local_folder: opt_view(self.appdata_local_folder),
            appdata_roaming_folder: opt_view(self.appdata_roaming_folder),
            registry_path: opt_view(self.registry_path),
            registry_value: opt_view(self.registry_value),
        }
    }
}

/// What flattening one game yields.
pub open spec fn spec_flatten(g: GameView) -> FlatGameView {
    FlatGameView {
        name: g.name,
        app_id: g.app_id,
        install_path: g.install_path,
        prefix_path: g.prefix_path,
        launcher: spec_display_name(g.launcher),
        my_games_folder: g.my_games_folder,
        appdata_local_folder: g.appdata_local_folder,
        appdata_roaming_folder: g.appdata_roaming_folder,
        registry_path: g.registry_path,
        registry_value: g.registry_value,
    }
}

/// Copy an optional string.
fn clone_opt_string(o: &Option<String>) -> (r: Option<String>)
    ensures
        opt_view(r) == opt_view(*o),
{
    match o {
        Option::Some(s) => Option::Some(s.clone()),
        Option::None => Option::None,
    }
}

/// Flatten one game for the boundary.
pub fn flatten_game(g: &Game) -> (r: FlatGame)
    ensures
        r@ == spec_flatten(g@),
{
    FlatGame {
        name: g.name.clone(),
        app_id: g.app_id.clone(),
        install_path: g.install_path.clone(),
        prefix_path: clone_opt_string(&g.prefix_path),
        launcher: String::from_str(g.launcher.display_name()),
        my_games_folder: clone_opt_string(&g.my_games_folder),
        appdata_local_folder: clone_opt_string(&g.appdata_local_folder),
        appdata_roaming_folder: clone_opt_string(&g.appdata_roaming_folder),
        registry_path: clone_opt_string(&g.registry_path),
        registry_value: clone_opt_string(&g.registry_value),
    }
}

/// One whole scan as the boundary hands it out.
pub struct FlatGameList {
    pub games: Vec<FlatGame>,
    pub steam_count: usize,
    pub heroic_count: usize,
    pub bottles_count: usize,
}

/// Flatten a scan result: every game flattened in order, the counters
/// carried over unchanged.
pub fn flatten_scan(scan: &GameScanResult) -> (r: FlatGameList)
    ensures
        r.games@.map_values(|f: FlatGame| f@) == scan.games@.map_values(|g: Game| g@).map_values(
            |g: GameView| spec_flatten(g),
        ),
        r.steam_count == scan.steam_count,
        r.heroic_count == scan.heroic_count,
        r.bottles_count == scan.bottles_count,
{
    let ghost views = scan.games@.map_values(|g: Game| g@);
    let mut games: Vec<FlatGame> = Vec::new();
    let mut i: usize = 0;
    while i < scan.games.len()
        invariant
            views == scan.games@.map_values(|g: Game| g@),
            i <= scan.games.len(),
            games@.len() == i,
            forall|j: int|
                0 <= j < i ==> (#[trigger] games@[j])@ == spec_flatten(views[j]),
        decreases scan.games.len() - i,
    {
        let f = flatten_game(&scan.games[i]);
        games.push(f);
        i = i + 1;
    }
    proof {
        assert(games@.map_values(|f: FlatGame| f@) =~= views.map_values(
            |g: GameView| spec_flatten(g),
        ));
    }
    FlatGameList {
        games,
        steam_count: scan.steam_count,
        heroic_count: scan.heroic_count,
        bottles_count: scan.bottles_count,
    }
}

} // verus!

use nak::cache::ScanCache;
use nak::cancel::{CancelBridge, PollEvent};
use nak::config::AppConfig;
use nak::games::{detect_all_games, detect_steam_only, Game, HeroicStore, Launcher};
use nak::marshal::{flatten_game, flatten_scan};
use nak::proton::{classify_proton_entry, find_proton_by_path, install_precheck, SteamProton};

fn strings(v: &[&str]) -> Vec<String> {
    v.iter().map(|s| s.to_string()).collect()
}

fn game(name: &str, app_id: &str, launcher: Launcher, prefix: Option<&str>) -> Game {
    Game {
        name: name.to_string(),
        app_id: app_id.to_string(),
        install_path: format!("/games/{}", name),
        prefix_path: prefix.map(|p| p.to_string()),
        launcher,
        my_games_folder: None,
        appdata_local_folder: None,
        appdata_roaming_folder: None,
        registry_path: None,
        registry_value: None,
    }
}

fn steam() -> Launcher {
    Launcher::Steam { is_flatpak: false, is_snap: false }
}

#[test]
fn display_names() {
    assert_eq!(steam().display_name(), "Steam");
    assert_eq!(
        Launcher::Steam { is_flatpak: true, is_snap: false }.display_name(),
        "Steam (Flatpak)"
    );
    assert_eq!(Launcher::Steam { is_flatpak: false, is_snap: true }.display_name(), "Steam (Snap)");
    assert_eq!(Launcher::Heroic { store: HeroicStore::GOG }.display_name(), "Heroic (GOG)");
    assert_eq!(Launcher::Heroic { store: HeroicStore::Epic }.display_name(), "Heroic (Epic)");
    assert_eq!(Launcher::Bottles.display_name(), "Bottles");
}

#[test]
fn aggregate_counts_and_order() {
    let s = vec![game("Skyrim", "489830", steam(), Some("/pfx/489830"))];
    let h = vec![
        game("Gwent", "gog_1", Launcher::Heroic { store: HeroicStore::GOG }, None),
        game("Hades", "epic_1", Launcher::Heroic { store: HeroicStore::Epic }, None),
    ];
    let b = vec![game("Solitaire", "bot_1", Launcher::Bottles, Some("/bottles/s"))];
    let r = detect_all_games(s, h, b);
    assert_eq!(r.steam_count, 1);
    assert_eq!(r.heroic_count, 2);
    assert_eq!(r.bottles_count, 1);
    assert_eq!(r.games.len(), 4);
    assert_eq!(r.games[0].name, "Skyrim");
    assert_eq!(r.games[1].name, "Gwent");
    assert_eq!(r.games[3].name, "Solitaire");
}

#[test]
fn steam_only_scan() {
    let s = vec![game("Skyrim", "489830", steam(), None)];
    let r = detect_steam_only(s);
    assert_eq!(r.steam_count, 1);
    assert_eq!(r.heroic_count, 0);
    assert_eq!(r.bottles_count, 0);
    assert_eq!(r.games.len(), 1);
}

#[test]
fn lookups_and_filters() {
    let s = vec![
        game("Skyrim", "489830", steam(), Some("/pfx/489830")),
        game("Oblivion", "22330", steam(), None),
    ];
    let h = vec![game("Gwent", "gog_1", Launcher::Heroic { store: HeroicStore::GOG }, None)];
    let r = detect_all_games(s, h, Vec::new());

    let by_name = r.find_by_name("SKYRIM").expect("case-insensitive lookup");
    assert_eq!(by_name.app_id, "489830");
    assert!(r.find_by_name("Morrowind").is_none());

    let by_id = r.find_by_app_id("22330").expect("exact id lookup");
    assert_eq!(by_id.name, "Oblivion");
    assert!(r.find_by_app_id("22331").is_none());

    let steam_games = r.games_by_launcher("steam");
    assert_eq!(steam_games.len(), 2);
    assert_eq!(r.games_by_launcher("heroic").len(), 1);
    assert_eq!(r.games_by_launcher("bottles").len(), 0);
    assert_eq!(r.games_by_launcher("other").len(), 0);

    let prefixed = r.games_with_prefixes();
    assert_eq!(prefixed.len(), 1);
    assert_eq!(prefixed[0].name, "Skyrim");
}

#[test]
fn prefix_paths() {
    let mut g = game("Skyrim", "489830", steam(), Some("/pfx/489830"));
    g.my_games_folder = Some("Skyrim".to_string());
    g.appdata_local_folder = Some("Skyrim Local".to_string());

    assert!(g.has_prefix());
    let entries = strings(&["Public", "root", "alice"]);
    assert_eq!(
        g.get_prefix_user_path(&entries),
        Some("/pfx/489830/drive_c/users/alice".to_string())
    );
    assert_eq!(
        g.get_prefix_user_path(&strings(&["Public", "root"])),
        Some("/pfx/489830/drive_c/users/steamuser".to_string())
    );
    assert_eq!(
        g.get_prefix_documents_path(&entries),
        Some("/pfx/489830/drive_c/users/alice/Documents".to_string())
    );
    assert_eq!(
        g.get_prefix_my_games_path(&entries),
        Some("/pfx/489830/drive_c/users/alice/Documents/My Games/Skyrim".to_string())
    );
    assert_eq!(
        g.get_prefix_appdata_local_path(&entries),
        Some("/pfx/489830/drive_c/users/alice/AppData/Local/Skyrim Local".to_string())
    );
    assert_eq!(g.get_prefix_appdata_roaming_path(&entries), None);

    let no_prefix = game("Oblivion", "22330", steam(), None);
    assert!(!no_prefix.has_prefix());
    assert_eq!(no_prefix.get_prefix_user_path(&entries), None);
    assert_eq!(no_prefix.get_prefix_documents_path(&entries), None);
}

#[test]
fn flattening_uses_display_names() {
    let g = game(
        "Gwent",
        "gog_1",
        Launcher::Heroic { store: HeroicStore::GOG },
        Some("/heroic/pfx"),
    );
    let f = flatten_game(&g);
    assert_eq!(f.name, "Gwent");
    assert_eq!(f.launcher, "Heroic (GOG)");
    assert_eq!(f.prefix_path, Some("/heroic/pfx".to_string()));

    let r = detect_all_games(
        vec![game("Skyrim", "489830", steam(), None)],
        Vec::new(),
        Vec::new(),
    );
    let flat = flatten_scan(&r);
    assert_eq!(flat.games.len(), 1);
    assert_eq!(flat.steam_count, 1);
    assert_eq!(flat.games[0].launcher, "Steam");
}

#[test]
fn scan_cache_lifecycle() {
    let mut cache = ScanCache::new();
    assert!(!cache.is_populated());
    assert!(cache.lookup().is_none());
    let r = detect_steam_only(vec![game("Skyrim", "489830", steam(), None)]);
    cache.populate(r);
    assert!(cache.is_populated());
    assert_eq!(cache.lookup().unwrap().steam_count, 1);
    cache.invalidate();
    assert!(!cache.is_populated());
}

fn proton(name: &str, path: &str) -> SteamProton {
    SteamProton {
        name: name.to_string(),
        config_name: name.to_lowercase().replace(' ', "_"),
        path: path.to_string(),
        is_steam_proton: true,
        is_experimental: false,
    }
}

#[test]
fn proton_lookup_and_precheck() {
    let protons = vec![proton("Proton 9.0", "/steam/common/Proton 9.0"), proton("Proton Experimental", "/steam/common/Proton - Experimental")];
    let found = find_proton_by_path(&protons, "/steam/common/Proton 9.0").unwrap();
    assert_eq!(found.name, "Proton 9.0");
    assert!(find_proton_by_path(&protons, "/nowhere").is_none());

    let ok = install_precheck(&protons, "/steam/common/Proton 9.0").unwrap();
    assert_eq!(ok.name, "Proton 9.0");
    let err = install_precheck(&protons, "/nowhere").unwrap_err();
    assert_eq!(err, "Proton not found at path: /nowhere");
}

#[test]
fn proton_entry_classification() {
    let p = classify_proton_entry("Proton 9.0", "/sc/Proton 9.0", true).unwrap();
    assert_eq!(p.name, "Proton 9.0");
    assert_eq!(p.config_name, "proton_9.0");
    assert_eq!(p.path, "/sc/Proton 9.0");
    assert!(p.is_steam_proton);
    assert!(!p.is_experimental);

    let p = classify_proton_entry("Proton - Experimental", "/sc/pe", true).unwrap();
    assert!(p.is_experimental);
    assert_eq!(p.config_name, "proton_-_experimental");

    let p = classify_proton_entry("GE-Proton8-15", "/ct/ge", false).unwrap();
    assert!(!p.is_steam_proton);
    assert_eq!(p.config_name, "ge-proton8-15");

    let p = classify_proton_entry("Proton 7.0 Beta", "/sc/pb", true).unwrap();
    assert!(p.is_experimental);

    assert!(classify_proton_entry("Skyrim", "/sc/skyrim", true).is_none());
}

#[test]
fn account_with_empty_name_is_dropped() {
    // an account-name key whose value is the empty string does not name an
    // account: the block must be dropped
    let content = [
        "\"76561197960265730\"",
        "\"AccountName\" \"\"",
        "\"PersonaName\" \"ghost\"",
        "\"Timestamp\" \"100\"",
    ]
    .join("\n");
    let entries: Vec<String> = vec!["2".to_string()];
    assert!(nak::accounts::get_steam_accounts(&content, &entries).is_empty());
}

#[test]
fn sort_keeps_input_order_among_equal_timestamps() {
    let mk = |id: &str, ts: u64| nak::accounts::SteamAccount {
        account_id: id.to_string(),
        persona_name: id.to_string(),
        most_recent: false,
        timestamp: ts,
    };
    let sorted = nak::accounts::sort_accounts_desc(vec![
        mk("a", 7),
        mk("b", 9),
        mk("c", 7),
        mk("d", 9),
    ]);
    let ids: Vec<&str> = sorted.iter().map(|a| a.account_id.as_str()).collect();
    assert_eq!(ids, vec!["b", "d", "a", "c"]);
}

#[test]
fn cancel_bridge_steps() {
    let mut bridge = CancelBridge::new();
    assert!(!bridge.cancelled);
    assert!(!bridge.step(PollEvent::FlagRead(0)));
    assert!(!bridge.cancelled);
    assert!(bridge.step(PollEvent::FlagRead(1)));
    assert!(bridge.cancelled);
    // cancellation latches
    assert!(bridge.step(PollEvent::FlagRead(0)));

    let mut bridge = CancelBridge::new();
    assert!(bridge.step(PollEvent::WorkFinished));

    let mut bridge = CancelBridge::new();
    assert!(bridge.step(PollEvent::FlagRead(-1)));
}

#[test]
fn config_defaults_and_getters() {
    let c = AppConfig::default_config("/home/alice");
    assert_eq!(c.data_path, "/home/alice/NaK");
    assert_eq!(c.selected_steam_account, "");
    assert_eq!(c.get_data_path(), "/home/alice/NaK");
    assert_eq!(c.get_cache_dir("/home/alice"), "/home/alice/.cache/nak");
    assert_eq!(c.get_prefixes_path(), "/home/alice/NaK/Prefixes");
    assert_eq!(AppConfig::get_config_dir("/home/alice"), "/home/alice/.config/nak");
    assert_eq!(AppConfig::get_config_path("/home/alice"), "/home/alice/.config/nak/config.json");
    assert_eq!(AppConfig::get_legacy_path("/home/alice"), "/home/alice/NaK/config.json");
    assert_eq!(AppConfig::get_default_cache_dir("/home/alice"), "/home/alice/.cache/nak");
    assert_eq!(AppConfig::get_tmp_path("/home/alice"), "/home/alice/.cache/nak/tmp");

    let mut c = AppConfig::default_config("/home/alice");
    c.cache_location = "/mnt/cache".to_string();
    assert_eq!(c.get_cache_dir("/home/alice"), "/mnt/cache");
}

#[test]
fn config_load_resolution() {
    let home = "/home/alice";
    let primary = AppConfig {
        selected_steam_account: "42".to_string(),
        ..AppConfig::default_config(home)
    };
    let (cfg, migrate) = AppConfig::resolve_loaded(Some(primary), None, home);
    assert_eq!(cfg.selected_steam_account, "42");
    assert!(!migrate);

    let legacy = AppConfig {
        data_path: String::new(),
        ..AppConfig::default_config(home)
    };
    let (cfg, migrate) = AppConfig::resolve_loaded(None, Some(legacy), home);
    assert_eq!(cfg.data_path, "/home/alice/NaK"); // defaulted
    assert!(migrate);

    let (cfg, migrate) = AppConfig::resolve_loaded(None, None, home);
    assert_eq!(cfg.data_path, "/home/alice/NaK");
    assert!(!migrate);
}

use nak::config::normalize_path_for_steam;
use nak::mounts::{detect_extra_mounts, generate_launch_options, join_colon, RootEntry};

fn dir(name: &str) -> RootEntry {
    RootEntry { name: name.to_string(), is_dir: true }
}

fn file(name: &str) -> RootEntry {
    RootEntry { name: name.to_string(), is_dir: false }
}

fn strings(v: &[&str]) -> Vec<String> {
    v.iter().map(|s| s.to_string()).collect()
}

#[test]
fn mounts_filter_and_sort() {
    let entries = vec![
        dir("games"),
        dir("proc"),      // system
        dir("usr"),       // already exposed
        dir(".snapshots"), // hidden
        file("swapfile"), // not a directory
        dir("data"),
        dir("mnt"),
        dir("snap"),      // system
        dir("home"),      // already exposed
    ];
    assert_eq!(detect_extra_mounts(&entries), strings(&["/data", "/games", "/mnt"]));
}

#[test]
fn mounts_order_independent() {
    let forward = vec![dir("games"), dir("data"), dir("mnt")];
    let backward = vec![dir("mnt"), dir("data"), dir("games")];
    let a = detect_extra_mounts(&forward);
    let b = detect_extra_mounts(&backward);
    assert_eq!(a, b);
    assert_eq!(a, strings(&["/data", "/games", "/mnt"]));
    // re-running on the unchanged enumeration is byte-identical
    assert_eq!(detect_extra_mounts(&forward), a);
}

#[test]
fn mounts_excluded_names_never_appear() {
    let entries = vec![
        dir("bin"), dir("etc"), dir("home"), dir("lib"), dir("lib32"), dir("lib64"),
        dir("overrides"), dir("run"), dir("sbin"), dir("tmp"), dir("usr"), dir("var"),
        dir("proc"), dir("sys"), dir("dev"), dir("boot"), dir("root"),
        dir("lost+found"), dir("snap"), dir(".hidden"),
    ];
    assert!(detect_extra_mounts(&entries).is_empty());
}

#[test]
fn join_colon_cases() {
    assert_eq!(join_colon(&strings(&[])), "");
    assert_eq!(join_colon(&strings(&["/a"])), "/a");
    assert_eq!(join_colon(&strings(&["/a", "/b", "/c"])), "/a:/b:/c");
}

#[test]
fn launch_options_neither() {
    assert_eq!(generate_launch_options(&None, &strings(&[]), false), "%command%");
}

#[test]
fn launch_options_mounts_only() {
    let r = generate_launch_options(&None, &strings(&["/data", "/games"]), false);
    assert_eq!(r, "STEAM_COMPAT_MOUNTS=/data:/games %command%");
}

#[test]
fn launch_options_config_only() {
    let conf = Some("/var/home/alice/dxvk.conf".to_string());
    let r = generate_launch_options(&conf, &strings(&[]), false);
    assert_eq!(r, "DXVK_CONFIG_FILE=\"/home/alice/dxvk.conf\" %command%");
}

#[test]
fn launch_options_both_with_electron_flags() {
    let conf = Some("/opt/dxvk.conf".to_string());
    let r = generate_launch_options(&conf, &strings(&["/data"]), true);
    assert_eq!(
        r,
        "DXVK_CONFIG_FILE=\"/opt/dxvk.conf\" STEAM_COMPAT_MOUNTS=/data %command% --disable-gpu --no-sandbox"
    );
}

#[test]
fn launch_options_electron_alone() {
    assert_eq!(
        generate_launch_options(&None, &strings(&[]), true),
        "%command% --disable-gpu --no-sandbox"
    );
}

#[test]
fn normalize_rewrites_alternate_home() {
    assert_eq!(normalize_path_for_steam("/var/home/alice/x"), "/home/alice/x");
    assert_eq!(normalize_path_for_steam("/var/home/"), "/home/");
}

#[test]
fn normalize_leaves_other_paths_alone() {
    assert_eq!(normalize_path_for_steam("/home/alice/x"), "/home/alice/x");
    assert_eq!(normalize_path_for_steam("/var/homey/x"), "/var/homey/x");
    assert_eq!(normalize_path_for_steam("/var/home"), "/var/home");
    assert_eq!(normalize_path_for_steam(""), "");
    // already normalized: applying it twice changes nothing further
    let once = normalize_path_for_steam("/var/home/alice/x");
    assert_eq!(normalize_path_for_steam(&once), once);
}

use nak::accounts::SteamAccount;
use nak::paths::{
    detect_steam_path_checked, find_steam_path, find_userdata_path, find_userdata_path_for_account,
    steam_path_candidates, UserdataDirEntry,
};

fn strings(v: &[&str]) -> Vec<String> {
    v.iter().map(|s| s.to_string()).collect()
}

fn account(id: &str, most_recent: bool, timestamp: u64) -> SteamAccount {
    SteamAccount {
        account_id: id.to_string(),
        persona_name: format!("user{}", id),
        most_recent,
        timestamp,
    }
}

#[test]
fn candidates_in_priority_order() {
    let c = steam_path_candidates("/home/alice");
    assert_eq!(
        c,
        strings(&[
            "/home/alice/.steam/steam",
            "/home/alice/.local/share/Steam",
            "/home/alice/.var/app/com.valvesoftware.Steam/.steam/steam",
            "/home/alice/snap/steam/common/.steam/steam",
        ])
    );
}

#[test]
fn steam_path_takes_first_existing() {
    let existing = strings(&[
        "/home/alice/.var/app/com.valvesoftware.Steam/.steam/steam",
        "/home/alice/.local/share/Steam",
    ]);
    let r = find_steam_path("/home/alice", &existing);
    assert_eq!(r, Some("/home/alice/.local/share/Steam".to_string()));
    assert_eq!(detect_steam_path_checked("/home/alice", &existing), r);
}

#[test]
fn steam_path_none_when_nothing_exists() {
    assert_eq!(find_steam_path("/home/alice", &strings(&["/opt/steam"])), None);
}

#[test]
fn userdata_path_for_account() {
    let entries = strings(&["1001", "1002"]);
    assert_eq!(
        find_userdata_path_for_account("/steam", "1002", &entries),
        Some("/steam/userdata/1002".to_string())
    );
    assert_eq!(find_userdata_path_for_account("/steam", "9", &entries), None);
}

fn no_dirs() -> Vec<UserdataDirEntry> {
    Vec::new()
}

#[test]
fn tier1_override_wins() {
    let accounts = vec![account("1", true, 50)];
    let r = find_userdata_path(
        "77",
        &Some("/steam".to_string()),
        true,
        &accounts,
        &strings(&["77", "1"]),
        &no_dirs(),
    );
    assert_eq!(r, Some("/steam/userdata/77".to_string()));
}

#[test]
fn tier1_missing_override_falls_through() {
    // the override names an account whose directory does not exist: it must
    // not decide the outcome, and the most-recent account wins instead
    let accounts = vec![account("2", false, 900), account("1", true, 50)];
    let r = find_userdata_path(
        "77",
        &Some("/steam".to_string()),
        true,
        &accounts,
        &strings(&["1", "2"]),
        &no_dirs(),
    );
    assert_eq!(r, Some("/steam/userdata/1".to_string()));
}

#[test]
fn tier2_most_recent_flag() {
    let accounts = vec![account("2", false, 900), account("1", true, 50)];
    let r = find_userdata_path(
        "",
        &Some("/steam".to_string()),
        true,
        &accounts,
        &strings(&["1", "2"]),
        &no_dirs(),
    );
    assert_eq!(r, Some("/steam/userdata/1".to_string()));
}

#[test]
fn tier3_first_account_when_no_flag_matches() {
    // the flagged account's directory is gone, so the newest-by-timestamp
    // (first) account is used
    let accounts = vec![account("2", false, 900), account("1", true, 50)];
    let r = find_userdata_path(
        "",
        &Some("/steam".to_string()),
        true,
        &accounts,
        &strings(&["2"]),
        &no_dirs(),
    );
    assert_eq!(r, Some("/steam/userdata/2".to_string()));
}

#[test]
fn tier4_scans_numeric_directories_by_mtime() {
    let dirs = vec![
        UserdataDirEntry { name: "0".to_string(), is_dir: true, modified: Some(999) },
        UserdataDirEntry { name: "anonymous".to_string(), is_dir: true, modified: Some(998) },
        UserdataDirEntry { name: "300".to_string(), is_dir: true, modified: Some(10) },
        UserdataDirEntry { name: "200".to_string(), is_dir: true, modified: Some(20) },
        UserdataDirEntry { name: "400".to_string(), is_dir: false, modified: Some(30) },
        UserdataDirEntry { name: "500".to_string(), is_dir: true, modified: None },
    ];
    let r = find_userdata_path("", &Some("/steam".to_string()), true, &Vec::new(), &strings(&[]), &dirs);
    assert_eq!(r, Some("/steam/userdata/200".to_string()));
}

#[test]
fn tier4_first_of_equal_mtimes_wins() {
    let dirs = vec![
        UserdataDirEntry { name: "300".to_string(), is_dir: true, modified: Some(20) },
        UserdataDirEntry { name: "200".to_string(), is_dir: true, modified: Some(20) },
    ];
    let r = find_userdata_path("", &Some("/steam".to_string()), true, &Vec::new(), &strings(&[]), &dirs);
    assert_eq!(r, Some("/steam/userdata/300".to_string()));
}

#[test]
fn nothing_found_without_steam_path() {
    let r = find_userdata_path("77", &None, true, &Vec::new(), &strings(&["77"]), &no_dirs());
    assert_eq!(r, None);
}

#[test]
fn nothing_found_without_userdata() {
    let accounts = vec![account("1", true, 50)];
    let r = find_userdata_path(
        "",
        &Some("/steam".to_string()),
        false,
        &accounts,
        &strings(&["1"]),
        &no_dirs(),
    );
    assert_eq!(r, None);
}

#[test]
fn nothing_found_at_all() {
    let r = find_userdata_path("", &Some("/steam".to_string()), true, &Vec::new(), &strings(&[]), &no_dirs());
    assert_eq!(r, None);
}

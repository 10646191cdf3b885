use nak::accounts::{derive_account_id, get_steam_accounts, sort_accounts_desc, SteamAccountBuilder};
use nak::kv::{account_header_id, parse_vdf_kv};
use nak::strutil::{parse_u64, split_lines, trim_str, u64_to_string};

fn strings(v: &[&str]) -> Vec<String> {
    v.iter().map(|s| s.to_string()).collect()
}

#[test]
fn parse_kv_basic() {
    let r = parse_vdf_kv("\t\t\"AccountName\"\t\t\"alice\"");
    assert_eq!(r, Some(("AccountName".to_string(), "alice".to_string())));
}

#[test]
fn parse_kv_single_token() {
    assert_eq!(parse_vdf_kv("\"76561197960265729\""), None);
    assert_eq!(parse_vdf_kv("no quotes here"), None);
    assert_eq!(parse_vdf_kv(""), None);
}

#[test]
fn parse_kv_ignores_unquoted_junk() {
    let r = parse_vdf_kv("  \"k\" junk \"v\" more junk \"w\"");
    assert_eq!(r, Some(("k".to_string(), "v".to_string())));
}

#[test]
fn parse_kv_unterminated_token_dropped() {
    assert_eq!(parse_vdf_kv("\"k\" \"v"), None);
}

#[test]
fn header_id_accepted() {
    let r = account_header_id("\"76561197960265729\"");
    assert_eq!(r, Some("76561197960265729".to_string()));
}

#[test]
fn header_id_rejected() {
    assert_eq!(account_header_id("\"users\""), None);
    assert_eq!(account_header_id("\"7656119796026572\""), None); // 16 digits
    assert_eq!(account_header_id("\"86561197960265729\""), None); // wrong prefix
    assert_eq!(account_header_id("\"7656119796026572a\""), None);
    assert_eq!(account_header_id("76561197960265729"), None); // unquoted
    assert_eq!(account_header_id(""), None);
}

#[test]
fn derive_id_is_offset_subtraction() {
    assert_eq!(derive_account_id(76561197960265729), Some(1));
    assert_eq!(derive_account_id(76561198171050789), Some(210785061));
    assert_eq!(derive_account_id(76561197960265728), Some(0));
    assert_eq!(derive_account_id(76561197960265727), None);
}

#[test]
fn derive_id_repeated_calls_agree() {
    let a = derive_account_id(76561198171050789);
    let b = derive_account_id(76561198171050789);
    assert_eq!(a, b);
}

#[test]
fn parse_u64_cases() {
    assert_eq!(parse_u64("123"), Some(123));
    assert_eq!(parse_u64("0"), Some(0));
    assert_eq!(parse_u64("+5"), Some(5));
    assert_eq!(parse_u64(""), None);
    assert_eq!(parse_u64("+"), None);
    assert_eq!(parse_u64("12a"), None);
    assert_eq!(parse_u64(" 12"), None);
    assert_eq!(parse_u64("18446744073709551615"), Some(u64::MAX));
    assert_eq!(parse_u64("18446744073709551616"), None);
    assert_eq!(parse_u64("99999999999999999999"), None);
}

#[test]
fn u64_to_string_cases() {
    assert_eq!(u64_to_string(0), "0");
    assert_eq!(u64_to_string(7), "7");
    assert_eq!(u64_to_string(12345), "12345");
    assert_eq!(u64_to_string(u64::MAX), "18446744073709551615");
}

#[test]
fn trim_and_lines() {
    assert_eq!(trim_str("  \t hello \t "), "hello");
    assert_eq!(trim_str(""), "");
    assert_eq!(trim_str("   "), "");
    assert_eq!(split_lines("a\nb\r\nc\n"), strings(&["a", "b", "c"]));
    assert_eq!(split_lines(""), Vec::<String>::new());
    assert_eq!(split_lines("one"), strings(&["one"]));
}

fn sample_login_history() -> String {
    [
        "\"users\"",
        "{",
        "\t\"76561197960265730\"",
        "\t{",
        "\t\t\"AccountName\"\t\t\"alice\"",
        "\t\t\"PersonaName\"\t\t\"Alice\"",
        "\t\t\"MostRecent\"\t\t\"0\"",
        "\t\t\"Timestamp\"\t\t\"100\"",
        "\t}",
        "\t\"76561197960265731\"",
        "\t{",
        "\t\t\"AccountName\"\t\t\"bob\"",
        "\t\t\"MostRecent\"\t\t\"1\"",
        "\t\t\"Timestamp\"\t\t\"200\"",
        "\t}",
        "}",
    ]
    .join("\n")
}

#[test]
fn accounts_parsed_sorted_desc() {
    let entries = strings(&["2", "3"]);
    let accounts = get_steam_accounts(&sample_login_history(), &entries);
    assert_eq!(accounts.len(), 2);
    // bob has the newer timestamp, so he comes first
    assert_eq!(accounts[0].account_id, "3");
    assert_eq!(accounts[0].persona_name, "bob"); // falls back to account name
    assert!(accounts[0].most_recent);
    assert_eq!(accounts[0].timestamp, 200);
    assert_eq!(accounts[1].account_id, "2");
    assert_eq!(accounts[1].persona_name, "Alice");
    assert!(!accounts[1].most_recent);
    assert_eq!(accounts[1].timestamp, 100);
}

#[test]
fn accounts_without_userdata_dir_are_dropped() {
    let entries = strings(&["3"]); // alice's directory "2" does not exist
    let accounts = get_steam_accounts(&sample_login_history(), &entries);
    assert_eq!(accounts.len(), 1);
    assert_eq!(accounts[0].account_id, "3");
}

#[test]
fn account_without_name_is_dropped() {
    let content = [
        "\"76561197960265730\"",
        "\"PersonaName\" \"ghost\"",
        "\"Timestamp\" \"100\"",
    ]
    .join("\n");
    let entries = strings(&["2"]);
    assert!(get_steam_accounts(&content, &entries).is_empty());
}

#[test]
fn bad_timestamp_becomes_zero() {
    let content = [
        "\"76561197960265730\"",
        "\"AccountName\" \"alice\"",
        "\"Timestamp\" \"soon\"",
    ]
    .join("\n");
    let entries = strings(&["2"]);
    let accounts = get_steam_accounts(&content, &entries);
    assert_eq!(accounts.len(), 1);
    assert_eq!(accounts[0].timestamp, 0);
}

#[test]
fn keys_match_case_insensitively() {
    let content = [
        "\"76561197960265730\"",
        "\"accountname\" \"alice\"",
        "\"TIMESTAMP\" \"42\"",
    ]
    .join("\n");
    let entries = strings(&["2"]);
    let accounts = get_steam_accounts(&content, &entries);
    assert_eq!(accounts.len(), 1);
    assert_eq!(accounts[0].timestamp, 42);
}

#[test]
fn empty_history_yields_nothing() {
    let entries = strings(&["2", "3"]);
    assert!(get_steam_accounts("", &entries).is_empty());
}

#[test]
fn builder_requires_existing_directory() {
    let b = SteamAccountBuilder {
        account_name: Some("alice".to_string()),
        persona_name: None,
        most_recent: false,
        timestamp: 5,
    };
    let missing = b.build("76561197960265730", &strings(&["7"]));
    assert!(missing.is_none());
    let b = SteamAccountBuilder {
        account_name: Some("alice".to_string()),
        persona_name: None,
        most_recent: false,
        timestamp: 5,
    };
    let found = b.build("76561197960265730", &strings(&["2"])).unwrap();
    assert_eq!(found.account_id, "2");
    assert_eq!(found.persona_name, "alice");
}

#[test]
fn lone_carriage_return_stays_in_line() {
    assert_eq!(split_lines("a\rb"), strings(&["a\rb"]));
    assert_eq!(split_lines("a\r"), strings(&["a\r"]));
}

#[test]
fn decimal_round_trip() {
    for n in [0u64, 1, 9, 10, 4096, 76561197960265728, u64::MAX] {
        assert_eq!(parse_u64(&u64_to_string(n)), Some(n));
    }
}

#[test]
fn sort_accounts_is_a_descending_permutation() {
    let mk = |id: &str, ts: u64| nak::accounts::SteamAccount {
        account_id: id.to_string(),
        persona_name: id.to_string(),
        most_recent: false,
        timestamp: ts,
    };
    let sorted = sort_accounts_desc(vec![mk("a", 5), mk("b", 9), mk("c", 7)]);
    let ids: Vec<&str> = sorted.iter().map(|a| a.account_id.as_str()).collect();
    assert_eq!(ids, vec!["b", "c", "a"]);
}

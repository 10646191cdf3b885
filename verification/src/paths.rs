//! Steam install-path discovery and the tiered choice of the active user's
//! data directory.
//!
//! The install path is the first of four conventional locations (native,
//! user-local share, Flatpak, Snap) that exists. The active data directory is
//! chosen by a strict fallback chain: the configured override when its
//! directory exists; else the account flagged most recently used; else the
//! account with the newest login timestamp; else the freshest-looking
//! numeric subdirectory of `userdata`; else nothing. Each tier is tried only
//! when the one before produced nothing usable.

use vstd::prelude::*;

use crate::accounts::{AccountView, SteamAccount};
use crate::strutil::{all_digits, is_digit_char, str_eq};

verus! {

/// The conventional Steam install locations under a home directory, in
/// priority order: native, user-local share, Flatpak sandbox, Snap.
pub fn steam_path_candidates(home: &str) -> (r: Vec<String>)
    ensures
        r@.map_values(|x: String| x@) == spec_steam_candidates(home@),
{
    let mut v: Vec<String> = Vec::new();
    let mut p1 = String::from_str(home);
    p1.append("/.steam/steam");
    v.push(p1);
    let mut p2 = String::from_str(home);
    p2.append("/.local/share/Steam");
    v.push(p2);
    let mut p3 = String::from_str(home);
    p3.append("/.var/app/com.valvesoftware.Steam/.steam/steam");
    v.push(p3);
    let mut p4 = String::from_str(home);
    p4.append("/snap/steam/common/.steam/steam");
    v.push(p4);
    proof {
        assert(v@.map_values(|x: String| x@) =~= spec_steam_candidates(home@));
    }
    v
}

/// The four candidate install paths for a given home directory.
pub open spec fn spec_steam_candidates(home: Seq<char>) -> Seq<Seq<char>> {
    seq![
        home + "/.steam/steam"@,
        home + "/.local/share/Steam"@,
        home + "/.var/app/com.valvesoftware.Steam/.steam/steam"@,
        home + "/snap/steam/common/.steam/steam"@,
    ]
}

/// The first of `cands` that is among `existing`.
pub open spec fn spec_first_existing(cands: Seq<Seq<char>>, existing: Seq<Seq<char>>) -> Option<
    Seq<char>,
>
    decreases cands.len(),
{
    if cands.len() == 0 {
        Option::None
    } else if existing.contains(cands[0]) {
        Option::Some(cands[0])
    } else {
        spec_first_existing(cands.drop_first(), existing)
    }
}

/// True when some entry of `v` reads as `s`.
pub fn contains_str(v: &Vec<String>, s: &str) -> (r: bool)
    ensures
        r == v@.map_values(|x: String| x@).contains(s@),
{
    let ghost views = v@.map_values(|x: String| x@);
    let mut i: usize = 0;
    while i < v.len()
        invariant
            views == v@.map_values(|x: String| x@),
            i <= v.len(),
            forall|j: int| 0 <= j < i ==> views[j] != s@,
        decreases v.len() - i,
    {
        if str_eq(v[i].as_str(), s) {
            proof {
                assert(views[i as int] == s@);
            }
            return true;
        }
        i = i + 1;
    }
    proof {
        assert(forall|j: int| 0 <= j < views.len() ==> views[j] != s@);
    }
    false
}

/// Find the Steam install path: the first conventional location under `home`
/// that is among `existing_paths`, the paths that exist on disk.
pub fn find_steam_path(home: &str, existing_paths: &Vec<String>) -> (r: Option<String>)
    ensures
        match r {
            Option::Some(p) => spec_first_existing(
                spec_steam_candidates(home@),
                existing_paths@.map_values(|x: String| x@),
            ) == Option::Some(p@),
            Option::None => spec_first_existing(
                spec_steam_candidates(home@),
                existing_paths@.map_values(|x: String| x@),
            ) is None,
        },
{
    let cands = steam_path_candidates(home);
    let ghost cviews = cands@.map_values(|x: String| x@);
    let ghost existing = existing_paths@.map_values(|x: String| x@);
    let mut i: usize = 0;
    proof {
        assert(cviews.skip(0) =~= cviews);
    }
    while i < cands.len()
        invariant
            cviews == cands@.map_values(|x: String| x@),
            cviews == spec_steam_candidates(home@),
            existing == existing_paths@.map_values(|x: String| x@),
            i <= cands.len(),
            spec_first_existing(cviews, existing) == spec_first_existing(
                cviews.skip(i as int),
                existing,
            ),
        decreases cands.len() - i,
    {
        proof {
            assert(cviews.skip(i as int)[0] == cviews[i as int]);
            assert(cviews.skip(i as int).drop_first() =~= cviews.skip(i + 1));
        }
        if contains_str(existing_paths, cands[i].as_str()) {
            let p = cands[i].clone();
            proof {
                assert(existing.contains(cviews.skip(i as int)[0]));
                assert(spec_first_existing(cviews.skip(i as int), existing) == Option::Some(
                    cviews[i as int],
                ));
                assert(p@ == cviews[i as int]);
            }
            return Option::Some(p);
        }
        i = i + 1;
    }
    proof {
        assert(cviews.skip(cands@.len() as int) =~= Seq::<Seq<char>>::empty());
    }
    Option::None
}

/// The same discovery as [`find_steam_path`]; the caller reports the outcome.
pub fn detect_steam_path_checked(home: &str, existing_paths: &Vec<String>) -> (r: Option<String>)
    ensures
        match r {
            Option::Some(p) => spec_first_existing(
                spec_steam_candidates(home@),
                existing_paths@.map_values(|x: String| x@),
            ) == Option::Some(p@),
            Option::None => spec_first_existing(
                spec_steam_candidates(home@),
                existing_paths@.map_values(|x: String| x@),
            ) is None,
        },
{
    find_steam_path(home, existing_paths)
}

/// The data directory of one account: `<steam_path>/userdata/<account_id>`.
pub open spec fn spec_userdata_dir(steam_path: Seq<char>, account_id: Seq<char>) -> Seq<char> {
    steam_path + "/userdata/"@ + account_id
}

/// Build `<steam_path>/userdata/<account_id>`.
pub fn userdata_dir(steam_path: &str, account_id: &str) -> (r: String)
    ensures
        r@ == spec_userdata_dir(steam_path@, account_id@),
{
    let mut out = String::from_str(steam_path);
    out.append("/userdata/");
    out.append(account_id);
    out
}

/// The data directory for one chosen account, when an entry of that name
/// exists in `userdata`; nothing otherwise.
pub fn find_userdata_path_for_account(
    steam_path: &str,
    account_id: &str,
    userdata_entries: &Vec<String>,
) -> (r: Option<String>)
    ensures
        match r {
            Option::Some(p) => userdata_entries@.map_values(|x: String| x@).contains(account_id@)
                && p@ == spec_userdata_dir(steam_path@, account_id@),
            Option::None => !userdata_entries@.map_values(|x: String| x@).contains(account_id@),
        },
{
    if contains_str(userdata_entries, account_id) {
        Option::Some(userdata_dir(steam_path, account_id))
    } else {
        Option::None
    }
}

/// One entry of the `userdata` directory, as the filesystem shows it: its
/// name, whether it is a directory, and its modification time when one could
/// be read.
pub struct UserdataDirEntry {
    pub name: String,
    pub is_dir: bool,
    pub modified: Option<u64>,
}

/// The mathematical image of a [`UserdataDirEntry`].
pub ghost struct UserdataDirView {
    pub name: Seq<char>,
    pub is_dir: bool,
    pub modified: Option<u64>,
}

impl View for UserdataDirEntry {
    type V = UserdataDirView;

    open spec fn view(&self) -> UserdataDirView {
        UserdataDirView { name: self.name@, is_dir: self.is_dir, modified: self.modified }
    }
}

/// A `userdata` entry that can stand for an account: a directory with an
/// all-digit name other than the reserved `"0"`.
pub open spec fn spec_fallback_eligible(d: UserdataDirView) -> bool {
    d.is_dir && d.name != "0"@ && all_digits(d.name)
}

/// Strictly-older order on optional modification times; an unreadable time
/// counts as older than any read one.
pub open spec fn opt_time_lt(a: Option<u64>, b: Option<u64>) -> bool {
    match (a, b) {
        (Option::None, Option::None) => false,
        (Option::None, Option::Some(_)) => true,
        (Option::Some(_), Option::None) => false,
        (Option::Some(x), Option::Some(y)) => x < y,
    }
}

/// The eligible entry with the newest modification time, the earliest such
/// entry when several tie.
pub open spec fn spec_fallback_best(dirs: Seq<UserdataDirView>) -> Option<UserdataDirView>
    decreases dirs.len(),
{
    if dirs.len() == 0 {
        Option::None
    } else {
        let b = spec_fallback_best(dirs.drop_last());
        let x = dirs.last();
        if !spec_fallback_eligible(x) {
            b
        } else {
            match b {
                Option::None => Option::Some(x),
                Option::Some(y) => if opt_time_lt(y.modified, x.modified) {
                    Option::Some(x)
                } else {
                    Option::Some(y)
                },
            }
        }
    }
}

/// Runtime test for [`spec_fallback_eligible`].
fn fallback_eligible(d: &UserdataDirEntry) -> (r: bool)
    ensures
        r == spec_fallback_eligible(d@),
{
    if !d.is_dir {
        return false;
    }
    proof {
        reveal_strlit("0");
    }
    if str_eq(d.name.as_str(), "0") {
        return false;
    }
    let n: usize = d.name.unicode_len();
    let mut i: usize = 0;
    while i < n
        invariant
            n == d.name@.len(),
            i <= n,
            forall|j: int| 0 <= j < i ==> crate::strutil::is_digit(#[trigger] d.name@[j]),
        decreases n - i,
    {
        if !is_digit_char(d.name.get_char(i)) {
            assert(!all_digits(d.name@)) by {
                assert(!crate::strutil::is_digit(d.name@[i as int]));
            }
            return false;
        }
        i = i + 1;
    }
    true
}

/// Runtime test for [`opt_time_lt`].
fn opt_time_lt_exec(a: &Option<u64>, b: &Option<u64>) -> (r: bool)
    ensures
        r == opt_time_lt(*a, *b),
{
    match (a, b) {
        (Option::None, Option::None) => false,
        (Option::None, Option::Some(_)) => true,
        (Option::Some(_), Option::None) => false,
        (Option::Some(x), Option::Some(y)) => *x < *y,
    }
}

/// Pick the fallback account directory out of the raw `userdata` listing.
pub fn pick_fallback_dir(dirs: &Vec<UserdataDirEntry>) -> (r: Option<usize>)
    ensures
        match r {
            Option::Some(i) => i < dirs@.len() && spec_fallback_best(
                dirs@.map_values(|d: UserdataDirEntry| d@),
            ) == Option::Some(dirs@[i as int]@),
            Option::None => spec_fallback_best(dirs@.map_values(|d: UserdataDirEntry| d@))
                is None,
        },
{
    let ghost views = dirs@.map_values(|d: UserdataDirEntry| d@);
    let mut best: Option<usize> = Option::None;
    let mut i: usize = 0;
    proof {
        assert(views.take(0) =~= Seq::<UserdataDirView>::empty());
    }
    while i < dirs.len()
        invariant
            views == dirs@.map_values(|d: UserdataDirEntry| d@),
            i <= dirs.len(),
            match best {
                Option::Some(b) => b < i && spec_fallback_best(views.take(i as int))
                    == Option::Some(views[b as int]),
                Option::None => spec_fallback_best(views.take(i as int)) is None,
            },
        decreases dirs.len() - i,
    {
        proof {
            assert(views.take(i + 1).drop_last() =~= views.take(i as int));
            assert(views.take(i + 1).last() == views[i as int]);
        }
        if fallback_eligible(&dirs[i]) {
            match best {
                Option::None => {
                    best = Option::Some(i);
                },
                Option::Some(b) => {
                    if opt_time_lt_exec(&dirs[b].modified, &dirs[i].modified) {
                        best = Option::Some(i);
                    }
                },
            }
        }
        i = i + 1;
    }
    proof {
        assert(views.take(dirs@.len() as int) =~= views);
    }
    best
}

/// The first account flagged most recently used, in list order.
pub open spec fn spec_first_most_recent(accounts: Seq<AccountView>) -> Option<AccountView>
    decreases accounts.len(),
{
    if accounts.len() == 0 {
        Option::None
    } else if accounts[0].most_recent {
        Option::Some(accounts[0])
    } else {
        spec_first_most_recent(accounts.drop_first())
    }
}

/// The tiered choice of the active account's data directory. `selected` is
/// the configured override; `steam_path` the discovered install path;
/// `userdata_present` whether the `userdata` directory exists; `accounts`
/// the parsed login history; `entries` the names present in `userdata`;
/// `dirs` the raw `userdata` listing for the last-resort scan.
pub open spec fn spec_find_userdata(
    selected: Seq<char>,
    steam_path: Option<Seq<char>>,
    userdata_present: bool,
    accounts: Seq<AccountView>,
    entries: Seq<Seq<char>>,
    dirs: Seq<UserdataDirView>,
) -> Option<Seq<char>> {
    if selected.len() > 0 && steam_path is Some && entries.contains(selected) {
        Option::Some(spec_userdata_dir(steam_path->0, selected))
    } else {
        match steam_path {
            Option::None => Option::None,
            Option::Some(sp) => {
                if !userdata_present {
                    Option::None
                } else {
                    let mr = spec_first_most_recent(accounts);
                    if mr is Some && entries.contains(mr->0.account_id) {
                        Option::Some(spec_userdata_dir(sp, mr->0.account_id))
                    } else if accounts.len() > 0 && entries.contains(accounts[0].account_id) {
                        Option::Some(spec_userdata_dir(sp, accounts[0].account_id))
                    } else {
                        match spec_fallback_best(dirs) {
                            Option::Some(d) => Option::Some(spec_userdata_dir(sp, d.name)),
                            Option::None => Option::None,
                        }
                    }
                }
            },
        }
    }
}

/// Resolve the active account's data directory through the fallback chain:
/// the configured override when its directory exists, else the account
/// flagged most recently used, else the account with the newest login
/// timestamp, else the freshest numeric `userdata` subdirectory, else
/// nothing. Every tier but the override also needs the install path and an
/// existing `userdata` directory.
pub fn find_userdata_path(
    selected_account: &str,
    steam_path: &Option<String>,
    userdata_present: bool,
    accounts: &Vec<SteamAccount>,
    userdata_entries: &Vec<String>,
    userdata_dirs: &Vec<UserdataDirEntry>,
) -> (r: Option<String>)
    ensures
        match r {
            Option::Some(p) => spec_find_userdata(
                selected_account@,
                match steam_path {
                    Option::Some(sp) => Option::Some(sp@),
                    Option::None => Option::None,
                },
                userdata_present,
                accounts@.map_values(|a: SteamAccount| a@),
                userdata_entries@.map_values(|x: String| x@),
                userdata_dirs@.map_values(|d: UserdataDirEntry| d@),
            ) == Option::Some(p@),
            Option::None => spec_find_userdata(
                selected_account@,
                match steam_path {
                    Option::Some(sp) => Option::Some(sp@),
                    Option::None => Option::None,
                },
                userdata_present,
                accounts@.map_values(|a: SteamAccount| a@),
                userdata_entries@.map_values(|x: String| x@),
                userdata_dirs@.map_values(|d: UserdataDirEntry| d@),
            ) is None,
        },
{
    let ghost account_views = accounts@.map_values(|a: SteamAccount| a@);
    if selected_account.unicode_len() > 0 {
        match steam_path {
            Option::Some(sp) => {
                match find_userdata_path_for_account(
                    sp.as_str(),
                    selected_account,
                    userdata_entries,
                ) {
                    Option::Some(p) => {
                        return Option::Some(p);
                    },
                    Option::None => {},
                }
            },
            Option::None => {},
        }
    }
    let sp = match steam_path {
        Option::Some(sp) => sp,
        Option::None => {
            return Option::None;
        },
    };
    if !userdata_present {
        return Option::None;
    }
    let mut i: usize = 0;
    let mut mr_idx: Option<usize> = Option::None;
    proof {
        assert(account_views.skip(0) =~= account_views);
    }
    while i < accounts.len()
        invariant
            account_views == accounts@.map_values(|a: SteamAccount| a@),
            i <= accounts.len(),
            match mr_idx {
                Option::Some(b) => b < accounts@.len() && spec_first_most_recent(account_views)
                    == Option::Some(account_views[b as int]),
                Option::None => spec_first_most_recent(account_views) == spec_first_most_recent(
                    account_views.skip(i as int),
                ),
            },
        decreases accounts.len() - i,
    {
        proof {
            assert(account_views.skip(i as int)[0] == account_views[i as int]);
            assert(account_views.skip(i as int).drop_first() =~= account_views.skip(i + 1));
        }
        if mr_idx.is_none() && accounts[i].most_recent {
            mr_idx = Option::Some(i);
        }
        i = i + 1;
    }
    proof {
        if mr_idx is None {
            assert(account_views.skip(accounts@.len() as int) =~= Seq::<AccountView>::empty());
        }
    }
    match mr_idx {
        Option::Some(b) => {
            match find_userdata_path_for_account(
                sp.as_str(),
                accounts[b].account_id.as_str(),
                userdata_entries,
            ) {
                Option::Some(p) => {
                    return Option::Some(p);
                },
                Option::None => {},
            }
        },
        Option::None => {},
    }
    if accounts.len() > 0 {
        match find_userdata_path_for_account(
            sp.as_str(),
            accounts[0].account_id.as_str(),
            userdata_entries,
        ) {
            Option::Some(p) => {
                return Option::Some(p);
            },
            Option::None => {},
        }
    }
    match pick_fallback_dir(userdata_dirs) {
        Option::Some(d) => Option::Some(userdata_dir(sp.as_str(), userdata_dirs[d].name.as_str())),
        Option::None => Option::None,
    }
}

/// A configured account override whose data directory does not exist never
/// decides the outcome: the chain falls through to the later tiers exactly
/// as if no override were set.
pub proof fn lemma_override_missing_falls_through(
    selected: Seq<char>,
    steam_path: Option<Seq<char>>,
    userdata_present: bool,
    accounts: Seq<AccountView>,
    entries: Seq<Seq<char>>,
    dirs: Seq<UserdataDirView>,
)
    requires
        !entries.contains(selected),
    ensures
        spec_find_userdata(selected, steam_path, userdata_present, accounts, entries, dirs)
            == spec_find_userdata(
            Seq::<char>::empty(),
            steam_path,
            userdata_present,
            accounts,
            entries,
            dirs,
        ),
{
}

} // verus!

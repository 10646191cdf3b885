//! Steam account records parsed out of the login-history text.
//!
//! The login history is quote-delimited key-value text. A line holding one
//! quoted seventeen-digit platform id opens an account block; the following
//! key-value lines fill it. A finished block becomes an account only when it
//! names a non-empty account, its id converts to a small per-user id by
//! subtracting the platform base offset, and a data directory for that id
//! exists. The surviving accounts are ordered by last-login time, most
//! recent first.

use vstd::prelude::*;
use vstd::relations::sorted_by;
use vstd::seq_lib::group_to_multiset_ensures;

use crate::kv::{spec_is_account_header, spec_parse_kv, trim_quotes, account_header_id};
use crate::strutil::{
    lower_of, spec_parse_u64, spec_trim, spec_u64_chars, lowercase, parse_u64, split_lines,
    str_eq, trim_str, u64_to_string,
};

verus! {

/// The fixed offset between a seventeen-digit platform-wide id and the small
/// per-user account id used to name data directories.
pub const STEAM64_BASE: u64 = 76561197960265728;

/// One Steam user account taken from the login history.
#[derive(Debug)]
pub struct SteamAccount {
    /// The small per-user id, in decimal, naming the `userdata` subdirectory.
    pub account_id: String,
    /// The display name; falls back to the account name when absent.
    pub persona_name: String,
    /// Whether the login history marks this account as the most recently used.
    pub most_recent: bool,
    /// The last-login timestamp from the login history.
    pub timestamp: u64,
}

/// The mathematical image of a [`SteamAccount`].
pub ghost struct AccountView {
    pub account_id: Seq<char>,
    pub persona_name: Seq<char>,
    pub most_recent: bool,
    pub timestamp: u64,
}

impl View for SteamAccount {
    type V = AccountView;

    open spec fn view(&self) -> AccountView {
        AccountView {
            account_id: self.account_id@,
            persona_name: self.persona_name@,
            most_recent: self.most_recent,
            timestamp: self.timestamp,
        }
    }
}

/// The fields gathered while one account block is being read.
pub struct SteamAccountBuilder {
    pub account_name: Option<String>,
    pub persona_name: Option<String>,
    pub most_recent: bool,
    pub timestamp: u64,
}

/// The mathematical image of a [`SteamAccountBuilder`].
pub ghost struct BuilderView {
    pub account_name: Option<Seq<char>>,
    pub persona_name: Option<Seq<char>>,
    pub most_recent: bool,
    pub timestamp: u64,
}

impl View for SteamAccountBuilder {
    type V = BuilderView;

    open spec fn view(&self) -> BuilderView {
        BuilderView {
            account_name: match self.account_name {
                Option::Some(ref s) => Option::Some(s@),
                Option::None => Option::None,
            },
            persona_name: match self.persona_name {
                Option::Some(ref s) => Option::Some(s@),
                Option::None => Option::None,
            },
            most_recent: self.most_recent,
            timestamp: self.timestamp,
        }
    }
}

/// A builder with nothing gathered yet.
pub open spec fn init_builder() -> BuilderView {
    BuilderView {
        account_name: Option::None,
        persona_name: Option::None,
        most_recent: false,
        timestamp: 0,
    }
}

impl SteamAccountBuilder {
    /// An empty builder, opened when an account header line is seen.
    pub fn new() -> (r: SteamAccountBuilder)
        ensures
            r@ == init_builder(),
    {
        SteamAccountBuilder {
            account_name: Option::None,
            persona_name: Option::None,
            most_recent: false,
            timestamp: 0,
        }
    }

    /// Finish one account block.
    ///
    /// The block is kept only when it named a non-empty account name, the
    /// platform id parses and lies at or above the base offset, and the
    /// derived per-user id is among the names present in the `userdata`
    /// directory. The display name falls back to the account name.
    pub fn build(self, steam_id: &str, userdata_entries: &Vec<String>) -> (r: Option<SteamAccount>)
        ensures
            match r {
                Option::Some(a) => spec_build(
                    steam_id@,
                    self@,
                    userdata_entries@.map_values(|x: String| x@),
                ) == Option::Some(a@),
                Option::None => spec_build(
                    steam_id@,
                    self@,
                    userdata_entries@.map_values(|x: String| x@),
                ) is None,
            },
    {
        let name = match self.account_name {
            Option::Some(ref n) => n.clone(),
            Option::None => {
                return Option::None;
            },
        };
        if name.as_str().is_empty() {
            return Option::None;
        }
        let persona = match self.persona_name {
            Option::Some(ref p) => p.clone(),
            Option::None => name.clone(),
        };
        let sid = match parse_u64(steam_id) {
            Option::Some(s) => s,
            Option::None => {
                return Option::None;
            },
        };
        if sid < STEAM64_BASE {
            return Option::None;
        }
        let aid = u64_to_string(sid - STEAM64_BASE);
        let ghost entry_views = userdata_entries@.map_values(|x: String| x@);
        let mut found = false;
        let mut i: usize = 0;
        while i < userdata_entries.len()
            invariant
                entry_views == userdata_entries@.map_values(|x: String| x@),
                i <= userdata_entries.len(),
                !found ==> forall|j: int| 0 <= j < i ==> entry_views[j] != aid@,
                found ==> entry_views.contains(aid@),
            decreases userdata_entries.len() - i,
        {
            if str_eq(aid.as_str(), userdata_entries[i].as_str()) {
                found = true;
                proof {
                    assert(entry_views[i as int] == aid@);
                }
            }
            i = i + 1;
        }
        if !found {
            proof {
                assert(forall|j: int| 0 <= j < entry_views.len() ==> entry_views[j] != aid@);
            }
            return Option::None;
        }
        Option::Some(
            SteamAccount {
                account_id: aid,
                persona_name: persona,
                most_recent: self.most_recent,
                timestamp: self.timestamp,
            },
        )
    }
}

/// What finishing a block with platform id `id` and gathered fields `b`
/// yields, given the names present in the `userdata` directory. A block
/// without a non-empty account name is dropped.
pub open spec fn spec_build(id: Seq<char>, b: BuilderView, existing: Seq<Seq<char>>) -> Option<
    AccountView,
> {
    match b.account_name {
        Option::None => Option::None,
        Option::Some(name) => {
            if name.len() == 0 {
                Option::None
            } else {
                let persona = match b.persona_name {
                    Option::Some(p) => p,
                    Option::None => name,
                };
                match spec_parse_u64(id) {
                    Option::None => Option::None,
                    Option::Some(sid) => {
                        if sid >= STEAM64_BASE {
                            let aid = spec_u64_chars((sid - STEAM64_BASE) as nat);
                            if existing.contains(aid) {
                                Option::Some(
                                    AccountView {
                                        account_id: aid,
                                        persona_name: persona,
                                        most_recent: b.most_recent,
                                        timestamp: b.timestamp,
                                    },
                                )
                            } else {
                                Option::None
                            }
                        } else {
                            Option::None
                        }
                    },
                }
            }
        },
    }
}

/// How one trimmed key-value line updates the gathered fields: the key is
/// matched case-insensitively; an unknown key changes nothing; a timestamp
/// that does not parse becomes zero.
pub open spec fn spec_apply_kv(t: Seq<char>, b: BuilderView) -> BuilderView {
    match spec_parse_kv(t) {
        Option::None => b,
        Option::Some((k, v)) => {
            let lk = lower_of(k);
            if lk == "accountname"@ {
                BuilderView { account_name: Option::Some(v), ..b }
            } else if lk == "personaname"@ {
                BuilderView { persona_name: Option::Some(v), ..b }
            } else if lk == "mostrecent"@ {
                BuilderView { most_recent: v == "1"@, ..b }
            } else if lk == "timestamp"@ {
                BuilderView {
                    timestamp: match spec_parse_u64(v) {
                        Option::Some(n) => n,
                        Option::None => 0,
                    },
                    ..b
                }
            } else {
                b
            }
        },
    }
}

/// Apply one trimmed line to the open builder as a key-value record.
pub fn apply_kv_line(t: &str, b: &mut SteamAccountBuilder)
    ensures
        final(b)@ == spec_apply_kv(t@, old(b)@),
{
    match crate::kv::parse_vdf_kv(t) {
        Option::None => {},
        Option::Some((k, v)) => {
            let lk = lowercase(k.as_str());
            if str_eq(lk.as_str(), "accountname") {
                b.account_name = Option::Some(v);
            } else if str_eq(lk.as_str(), "personaname") {
                b.persona_name = Option::Some(v);
            } else if str_eq(lk.as_str(), "mostrecent") {
                b.most_recent = str_eq(v.as_str(), "1");
            } else if str_eq(lk.as_str(), "timestamp") {
                b.timestamp = match parse_u64(v.as_str()) {
                    Option::Some(n) => n,
                    Option::None => 0,
                };
            }
        },
    }
}

/// The parser's running state: the open block, if any, and the accounts
/// finished so far.
pub ghost struct ParseState {
    pub cur: Option<(Seq<char>, BuilderView)>,
    pub finished: Seq<AccountView>,
}

/// The accounts an open block contributes when it is finalized.
pub open spec fn finalize_cur(
    cur: Option<(Seq<char>, BuilderView)>,
    existing: Seq<Seq<char>>,
) -> Seq<AccountView> {
    match cur {
        Option::None => Seq::empty(),
        Option::Some((id, b)) => match spec_build(id, b, existing) {
            Option::Some(a) => seq![a],
            Option::None => Seq::empty(),
        },
    }
}

/// How one line of the login history advances the parser: a header line
/// finalizes the open block and opens a fresh one; then, when a block is
/// open, the line is applied to it as a key-value record.
pub open spec fn step_line(st: ParseState, line: Seq<char>, existing: Seq<Seq<char>>) -> ParseState {
    let t = spec_trim(line);
    let st1 = if spec_is_account_header(t) {
        ParseState {
            cur: Option::Some((trim_quotes(t), init_builder())),
            finished: st.finished + finalize_cur(st.cur, existing),
        }
    } else {
        st
    };
    match st1.cur {
        Option::None => st1,
        Option::Some((id, b)) => ParseState {
            cur: Option::Some((id, spec_apply_kv(t, b))),
            finished: st1.finished,
        },
    }
}

/// The parser state after reading all of `lines`.
pub open spec fn fold_lines(lines: Seq<Seq<char>>, existing: Seq<Seq<char>>) -> ParseState
    decreases lines.len(),
{
    if lines.len() == 0 {
        ParseState { cur: Option::None, finished: Seq::empty() }
    } else {
        step_line(fold_lines(lines.drop_last(), existing), lines.last(), existing)
    }
}

/// All accounts the login-history text yields, before sorting: the blocks
/// in text order, each kept only when [`spec_build`] accepts it.
pub open spec fn spec_steam_accounts(content: Seq<char>, existing: Seq<Seq<char>>) -> Seq<
    AccountView,
> {
    let st = fold_lines(crate::strutil::spec_lines(content), existing);
    st.finished + finalize_cur(st.cur, existing)
}

/// The descending order on last-login timestamps.
pub open spec fn ts_desc() -> spec_fn(AccountView, AccountView) -> bool {
    |x: AccountView, y: AccountView| x.timestamp >= y.timestamp
}

/// Read every account out of the login-history text.
///
/// `content` is the text of the login-history file; `userdata_entries` holds
/// the names of the entries that exist in the `userdata` directory beside
/// it. The result holds exactly the accounts of the well-formed blocks whose
/// derived per-user data directory exists, ordered by last-login timestamp,
/// most recent first; blocks with equal timestamps keep their order in the
/// text.
pub fn get_steam_accounts(content: &str, userdata_entries: &Vec<String>) -> (r: Vec<SteamAccount>)
    ensures
        r@.map_values(|a: SteamAccount| a@) == spec_sort_desc(
            spec_steam_accounts(content@, userdata_entries@.map_values(|x: String| x@)),
        ),
        r@.map_values(|a: SteamAccount| a@).to_multiset() == spec_steam_accounts(
            content@,
            userdata_entries@.map_values(|x: String| x@),
        ).to_multiset(),
        sorted_by(r@.map_values(|a: SteamAccount| a@), ts_desc()),
{
    let ghost existing = userdata_entries@.map_values(|x: String| x@);
    let lines = split_lines(content);
    let ghost line_views = lines@.map_values(|x: String| x@);
    let mut finished: Vec<SteamAccount> = Vec::new();
    let mut cur_id: Option<String> = Option::None;
    let mut bld = SteamAccountBuilder::new();
    let mut i: usize = 0;
    proof {
        assert(line_views.take(0) =~= Seq::<Seq<char>>::empty());
        assert(finished@.map_values(|a: SteamAccount| a@) =~= Seq::<AccountView>::empty());
    }
    while i < lines.len()
        invariant
            existing == userdata_entries@.map_values(|x: String| x@),
            line_views == lines@.map_values(|x: String| x@),
            i <= lines.len(),
            fold_lines(line_views.take(i as int), existing) == (ParseState {
                cur: match cur_id {
                    Option::Some(ref id) => Option::Some((id@, bld@)),
                    Option::None => Option::None,
                },
                finished: finished@.map_values(|a: SteamAccount| a@),
            }),
        decreases lines.len() - i,
    {
        let ghost st_before = fold_lines(line_views.take(i as int), existing);
        proof {
            assert(line_views.take(i + 1).drop_last() =~= line_views.take(i as int));
            assert(line_views.take(i + 1).last() == line_views[i as int]);
            assert(line_views[i as int] == lines@[i as int]@);
        }
        let t = trim_str(lines[i].as_str());
        match account_header_id(t) {
            Option::Some(idstr) => {
                let prev_id = cur_id;
                let prev_bld = bld;
                cur_id = Option::Some(idstr);
                bld = SteamAccountBuilder::new();
                let ghost fin_before = finished@.map_values(|a: SteamAccount| a@);
                match prev_id {
                    Option::Some(pid) => {
                        match prev_bld.build(pid.as_str(), userdata_entries) {
                            Option::Some(a) => {
                                finished.push(a);
                                proof {
                                    assert(finished@.map_values(|a: SteamAccount| a@)
                                        =~= fin_before.push(a@));
                                    assert(fin_before.push(a@) =~= fin_before + seq![a@]);
                                }
                            },
                            Option::None => {
                                proof {
                                    assert(fin_before + Seq::<AccountView>::empty()
                                        =~= fin_before);
                                }
                            },
                        }
                    },
                    Option::None => {
                        proof {
                            assert(fin_before + Seq::<AccountView>::empty() =~= fin_before);
                        }
                    },
                }
            },
            Option::None => {},
        }
        match cur_id {
            Option::Some(_) => {
                apply_kv_line(t, &mut bld);
            },
            Option::None => {},
        }
        i = i + 1;
    }
    proof {
        assert(line_views.take(lines.len() as int) =~= line_views);
    }
    let ghost fin_before = finished@.map_values(|a: SteamAccount| a@);
    match cur_id {
        Option::Some(pid) => {
            match bld.build(pid.as_str(), userdata_entries) {
                Option::Some(a) => {
                    finished.push(a);
                    proof {
                        assert(finished@.map_values(|a: SteamAccount| a@) =~= fin_before.push(
                            a@,
                        ));
                        assert(fin_before.push(a@) =~= fin_before + seq![a@]);
                    }
                },
                Option::None => {
                    proof {
                        assert(fin_before + Seq::<AccountView>::empty() =~= fin_before);
                    }
                },
            }
        },
        Option::None => {
            proof {
                assert(fin_before + Seq::<AccountView>::empty() =~= fin_before);
            }
        },
    }
    sort_accounts_desc(finished)
}

/// The index of the account with the greatest timestamp; the earliest index
/// when several tie.
pub open spec fn first_max_ts_idx(s: Seq<AccountView>) -> int
    decreases s.len(),
{
    if s.len() <= 1 {
        0
    } else {
        let b = first_max_ts_idx(s.drop_last());
        if s.last().timestamp > s[b].timestamp {
            s.len() - 1
        } else {
            b
        }
    }
}

/// The chosen index always lies within the list.
pub proof fn lemma_first_max_ts_idx_in_range(s: Seq<AccountView>)
    requires
        s.len() > 0,
    ensures
        0 <= first_max_ts_idx(s) < s.len(),
    decreases s.len(),
{
    if s.len() > 1 {
        lemma_first_max_ts_idx_in_range(s.drop_last());
    }
}

/// The accounts in descending-timestamp order, with equal timestamps kept
/// in their earlier order: repeatedly take the first account with the
/// greatest timestamp. (The range test only makes the recursion visibly
/// well-founded; [`lemma_first_max_ts_idx_in_range`] shows it never fails.)
pub open spec fn spec_sort_desc(s: Seq<AccountView>) -> Seq<AccountView>
    decreases s.len(),
{
    if s.len() == 0 {
        Seq::empty()
    } else {
        let b = first_max_ts_idx(s);
        if 0 <= b < s.len() {
            seq![s[b]] + spec_sort_desc(s.remove(b))
        } else {
            s
        }
    }
}

/// Order accounts by last-login timestamp, most recent first. The result is
/// exactly [`spec_sort_desc`] of the input: a permutation, descending in
/// timestamp, with accounts of equal timestamp keeping their input order
/// (the first maximum is taken first).
pub fn sort_accounts_desc(input: Vec<SteamAccount>) -> (r: Vec<SteamAccount>)
    ensures
        r@.map_values(|a: SteamAccount| a@) == spec_sort_desc(
            input@.map_values(|a: SteamAccount| a@),
        ),
        r@.map_values(|a: SteamAccount| a@).to_multiset() == input@.map_values(
            |a: SteamAccount| a@,
        ).to_multiset(),
        sorted_by(r@.map_values(|a: SteamAccount| a@), ts_desc()),
{
    broadcast use group_to_multiset_ensures;
    broadcast use vstd::multiset::group_multiset_axioms;

    let ghost orig = input@.map_values(|a: SteamAccount| a@);
    let mut v = input;
    let mut out: Vec<SteamAccount> = Vec::new();
    proof {
        assert(out@.map_values(|a: SteamAccount| a@) =~= Seq::<AccountView>::empty());
        assert(out@.map_values(|a: SteamAccount| a@).to_multiset().add(
            v@.map_values(|a: SteamAccount| a@).to_multiset(),
        ) =~= orig.to_multiset());
        assert(Seq::<AccountView>::empty() + spec_sort_desc(orig) =~= spec_sort_desc(orig));
    }
    while v.len() > 0
        invariant
            spec_sort_desc(orig) == out@.map_values(|a: SteamAccount| a@) + spec_sort_desc(
                v@.map_values(|a: SteamAccount| a@),
            ),
            out@.map_values(|a: SteamAccount| a@).to_multiset().add(
                v@.map_values(|a: SteamAccount| a@).to_multiset(),
            ) == orig.to_multiset(),
            sorted_by(out@.map_values(|a: SteamAccount| a@), ts_desc()),
            forall|p: int, q: int|
                0 <= p < out@.len() && 0 <= q < v@.len() ==> (#[trigger] out@[p])@.timestamp >= (
                #[trigger] v@[q])@.timestamp,
        decreases v.len(),
    {
        let ghost vm = v@.map_values(|a: SteamAccount| a@);
        let ghost om = out@.map_values(|a: SteamAccount| a@);
        let ghost v_seq0 = v@;
        let ghost out_seq0 = out@;
        let mut best: usize = 0;
        let mut j: usize = 1;
        proof {
            assert(vm.take(1).len() == 1);
        }
        while j < v.len()
            invariant
                vm == v@.map_values(|a: SteamAccount| a@),
                v.len() > 0,
                best < j <= v.len(),
                best == first_max_ts_idx(vm.take(j as int)),
                forall|k: int|
                    0 <= k < j ==> (#[trigger] vm[k]).timestamp <= vm[best as int].timestamp,
            decreases v.len() - j,
        {
            proof {
                assert(vm.take(j + 1).drop_last() =~= vm.take(j as int));
                assert(vm.take(j + 1).last() == vm[j as int]);
                assert(vm.take(j + 1)[best as int] == vm[best as int]);
            }
            if v[j].timestamp > v[best].timestamp {
                best = j;
            }
            j = j + 1;
        }
        proof {
            assert(vm.take(v@.len() as int) =~= vm);
        }
        let x = v.remove(best);
        out.push(x);
        proof {
            broadcast use group_to_multiset_ensures;
            broadcast use vstd::multiset::group_multiset_axioms;

            assert(v@.map_values(|a: SteamAccount| a@) =~= vm.remove(best as int));
            assert(out@.map_values(|a: SteamAccount| a@) =~= om.push(x@));
            assert(x@ == vm[best as int]);
            lemma_first_max_ts_idx_in_range(vm);
            assert(spec_sort_desc(vm) == seq![vm[best as int]] + spec_sort_desc(
                vm.remove(best as int),
            ));
            assert(om + (seq![x@] + spec_sort_desc(vm.remove(best as int))) =~= om.push(x@)
                + spec_sort_desc(vm.remove(best as int)));
            assert(vm.remove(best as int).to_multiset() == vm.to_multiset().remove(
                vm[best as int],
            ));
            assert(om.push(x@).to_multiset() == om.to_multiset().insert(x@));
            assert(vm.to_multiset().contains(x@)) by {
                assert(vm.contains(x@)) by {
                    assert(vm[best as int] == x@);
                }
            }
            assert(om.to_multiset().insert(x@).add(vm.to_multiset().remove(x@))
                =~= om.to_multiset().add(vm.to_multiset()));
            assert(sorted_by(om.push(x@), ts_desc())) by {
                assert(forall|p: int|
                    0 <= p < om.len() ==> om[p].timestamp >= x@.timestamp);
                assert(forall|p: int, q: int|
                    0 <= p < q < om.push(x@).len() ==> (ts_desc())(
                        om.push(x@)[p],
                        om.push(x@)[q],
                    ));
            }
            assert(forall|q: int|
                0 <= q < v@.len() ==> (#[trigger] v@[q])@.timestamp <= x@.timestamp) by {
                assert(forall|q: int|
                    0 <= q < v@.len() ==> v@[q] == (if q < best {
                        v_seq0[q]
                    } else {
                        v_seq0[q + 1]
                    }));
                assert(forall|k: int| 0 <= k < vm.len() ==> vm[k] == (#[trigger] v_seq0[k])@);
                assert(forall|k: int|
                    0 <= k < v_seq0.len() ==> (#[trigger] v_seq0[k])@.timestamp <= x@.timestamp);
            }
            assert(forall|p: int|
                0 <= p < out@.len() ==> (#[trigger] out@[p])@.timestamp >= x@.timestamp) by {
                assert(forall|p: int| 0 <= p < out@.len() - 1 ==> out@[p] == out_seq0[p]);
                assert(out@[out@.len() - 1] == x);
                assert(0 <= best < v_seq0.len());
                assert(forall|p: int|
                    0 <= p < out_seq0.len() ==> (#[trigger] out_seq0[p])@.timestamp
                        >= v_seq0[best as int]@.timestamp);
            }
        }
    }
    proof {
        assert(v@.map_values(|a: SteamAccount| a@) =~= Seq::<AccountView>::empty());
        assert(out@.map_values(|a: SteamAccount| a@).to_multiset().add(
            Seq::<AccountView>::empty().to_multiset(),
        ) =~= out@.map_values(|a: SteamAccount| a@).to_multiset());
        assert(spec_sort_desc(Seq::<AccountView>::empty()) =~= Seq::<AccountView>::empty());
        assert(out@.map_values(|a: SteamAccount| a@) + Seq::<AccountView>::empty()
            =~= out@.map_values(|a: SteamAccount| a@));
    }
    out
}

} // verus!

verus! {

/// The small per-user account id for a platform-wide id: the id minus the
/// base offset, or nothing when the id lies below the offset and so cannot
/// be a platform id.
pub fn derive_account_id(steam64: u64) -> (r: Option<u64>)
    ensures
        r == (if steam64 >= STEAM64_BASE {
            Option::Some((steam64 - STEAM64_BASE) as u64)
        } else {
            Option::<u64>::None
        }),
{
    if steam64 >= STEAM64_BASE {
        Option::Some(steam64 - STEAM64_BASE)
    } else {
        Option::None
    }
}

/// Account-id derivation is a pure arithmetic inverse: for a platform id at
/// or above the base offset, the derived id plus the offset is the platform
/// id again, and the decimal string written for the derived id reads back as
/// exactly the platform id minus the offset.
pub proof fn lemma_account_id_inverse(p: u64)
    requires
        p >= STEAM64_BASE,
    ensures
        (p - STEAM64_BASE) + STEAM64_BASE == p,
        crate::strutil::digits_val(spec_u64_chars((p - STEAM64_BASE) as nat)) == p
            - STEAM64_BASE,
        crate::strutil::all_digits(spec_u64_chars((p - STEAM64_BASE) as nat)),
{
    crate::strutil::lemma_u64_chars_val((p - STEAM64_BASE) as nat);
}

} // verus!

verus! {

/// Every account the parser keeps has an existing data directory: its
/// per-user id is among the names present in `userdata`.
proof fn lemma_fold_accounts_exist(lines: Seq<Seq<char>>, existing: Seq<Seq<char>>)
    ensures
        forall|k: int|
            0 <= k < fold_lines(lines, existing).finished.len() ==> existing.contains(
                (#[trigger] fold_lines(lines, existing).finished[k]).account_id,
            ),
    decreases lines.len(),
{
    if lines.len() > 0 {
        lemma_fold_accounts_exist(lines.drop_last(), existing);
        let st = fold_lines(lines.drop_last(), existing);
        let t = spec_trim(lines.last());
        if spec_is_account_header(t) {
            let fin = finalize_cur(st.cur, existing);
            assert(forall|k: int|
                0 <= k < fin.len() ==> existing.contains((#[trigger] fin[k]).account_id));
            assert(forall|k: int|
                0 <= k < st.finished.len() ==> (st.finished + fin)[k] == st.finished[k]);
            assert(forall|k: int|
                st.finished.len() <= k < (st.finished + fin).len() ==> (st.finished + fin)[k]
                    == fin[k - st.finished.len()]);
        }
    }
}

/// The accounts read out of the login history are exactly a set of accounts
/// whose derived data directory exists: each one's per-user id is among the
/// names present in `userdata`.
pub proof fn lemma_accounts_have_existing_dirs(content: Seq<char>, existing: Seq<Seq<char>>)
    ensures
        forall|k: int|
            0 <= k < spec_steam_accounts(content, existing).len() ==> existing.contains(
                (#[trigger] spec_steam_accounts(content, existing)[k]).account_id,
            ),
{
    let lines = crate::strutil::spec_lines(content);
    lemma_fold_accounts_exist(lines, existing);
    let st = fold_lines(lines, existing);
    let fin = finalize_cur(st.cur, existing);
    assert(forall|k: int|
        0 <= k < st.finished.len() ==> (st.finished + fin)[k] == st.finished[k]);
    assert(forall|k: int|
        st.finished.len() <= k < (st.finished + fin).len() ==> (st.finished + fin)[k] == fin[k
            - st.finished.len()]);
}

} // verus!

verus! {

/// The parser state reached from `st` after reading all of `lines`.
pub open spec fn fold_from(
    st: ParseState,
    lines: Seq<Seq<char>>,
    existing: Seq<Seq<char>>,
) -> ParseState
    decreases lines.len(),
{
    if lines.len() == 0 {
        st
    } else {
        step_line(fold_from(st, lines.drop_last(), existing), lines.last(), existing)
    }
}

/// The parser's initial state.
pub open spec fn init_state() -> ParseState {
    ParseState { cur: Option::None, finished: Seq::empty() }
}

/// Folding all lines from the initial state is the parser's fold.
pub proof fn lemma_fold_lines_is_fold_from(lines: Seq<Seq<char>>, existing: Seq<Seq<char>>)
    ensures
        fold_lines(lines, existing) == fold_from(init_state(), lines, existing),
    decreases lines.len(),
{
    if lines.len() > 0 {
        lemma_fold_lines_is_fold_from(lines.drop_last(), existing);
    }
}

/// Folding a concatenation folds the two parts in turn.
pub proof fn lemma_fold_from_concat(
    st: ParseState,
    a: Seq<Seq<char>>,
    b: Seq<Seq<char>>,
    existing: Seq<Seq<char>>,
)
    ensures
        fold_from(st, a + b, existing) == fold_from(fold_from(st, a, existing), b, existing),
    decreases b.len(),
{
    if b.len() == 0 {
        assert(a + b =~= a);
    } else {
        assert((a + b).drop_last() =~= a + b.drop_last());
        assert((a + b).last() == b.last());
        lemma_fold_from_concat(st, a, b.drop_last(), existing);
    }
}

/// The builder after applying every line of `lines`, trimmed, as a key-value
/// record, starting from `b`.
pub open spec fn kv_fold(lines: Seq<Seq<char>>, b: BuilderView) -> BuilderView
    decreases lines.len(),
{
    if lines.len() == 0 {
        b
    } else {
        spec_apply_kv(spec_trim(lines.last()), kv_fold(lines.drop_last(), b))
    }
}

/// True when no line of `lines` opens an account block.
pub open spec fn no_header_lines(lines: Seq<Seq<char>>) -> bool {
    forall|i: int|
        0 <= i < lines.len() ==> !spec_is_account_header(spec_trim(#[trigger] lines[i]))
}

/// Over header-free lines the parser only feeds the open block: nothing is
/// finalized, a closed state stays closed, and an open block's fields fold
/// through [`kv_fold`].
pub proof fn lemma_fold_no_headers(
    st: ParseState,
    lines: Seq<Seq<char>>,
    existing: Seq<Seq<char>>,
)
    requires
        no_header_lines(lines),
    ensures
        fold_from(st, lines, existing) == (ParseState {
            cur: match st.cur {
                Option::None => Option::None,
                Option::Some((id, b)) => Option::Some((id, kv_fold(lines, b))),
            },
            finished: st.finished,
        }),
    decreases lines.len(),
{
    if lines.len() == 0 {
        assert(fold_from(st, lines, existing) == st);
        match st.cur {
            Option::None => {},
            Option::Some((id, b)) => {
                assert(kv_fold(lines, b) == b);
            },
        }
    } else {
        assert(no_header_lines(lines.drop_last())) by {
            assert(forall|i: int|
                0 <= i < lines.drop_last().len() ==> lines.drop_last()[i] == #[trigger] lines[i]);
        }
        lemma_fold_no_headers(st, lines.drop_last(), existing);
        assert(!spec_is_account_header(spec_trim(lines.last()))) by {
            assert(lines[lines.len() - 1] == lines.last());
        }
    }
}

} // verus!

verus! {

/// Folding key-value lines composes over concatenation.
pub proof fn lemma_kv_fold_concat(a: Seq<Seq<char>>, b: Seq<Seq<char>>, x: BuilderView)
    ensures
        kv_fold(a + b, x) == kv_fold(b, kv_fold(a, x)),
    decreases b.len(),
{
    if b.len() == 0 {
        assert(a + b =~= a);
    } else {
        assert((a + b).drop_last() =~= a + b.drop_last());
        assert((a + b).last() == b.last());
        lemma_kv_fold_concat(a, b.drop_last(), x);
    }
}

/// One account block as it stands in the text: its header line and the lines
/// that follow it up to the next header.
pub ghost struct AccountBlock {
    pub header: Seq<char>,
    pub body: Seq<Seq<char>>,
}

/// The lines a block occupies.
pub open spec fn block_lines(blk: AccountBlock) -> Seq<Seq<char>> {
    seq![blk.header] + blk.body
}

/// A well-formed block: its header line opens a block and none of its body
/// lines does.
pub open spec fn wf_block(blk: AccountBlock) -> bool {
    &&& spec_is_account_header(spec_trim(blk.header))
    &&& no_header_lines(blk.body)
}

/// The platform id a block's header carries.
pub open spec fn block_id(blk: AccountBlock) -> Seq<char> {
    trim_quotes(spec_trim(blk.header))
}

/// The account one block yields on its own: its lines folded into a fresh
/// builder and finished against the existing directory names.
pub open spec fn block_account(blk: AccountBlock, existing: Seq<Seq<char>>) -> Option<
    AccountView,
> {
    spec_build(block_id(blk), kv_fold(block_lines(blk), init_builder()), existing)
}

/// The lines of a whole run of blocks, in order.
pub open spec fn blocks_lines(blocks: Seq<AccountBlock>) -> Seq<Seq<char>>
    decreases blocks.len(),
{
    if blocks.len() == 0 {
        Seq::empty()
    } else {
        blocks_lines(blocks.drop_last()) + block_lines(blocks.last())
    }
}

/// The accounts a run of blocks yields: one candidate per block, in block
/// order, kept exactly when [`spec_build`] accepts it.
pub open spec fn blocks_accounts(
    blocks: Seq<AccountBlock>,
    existing: Seq<Seq<char>>,
) -> Seq<AccountView>
    decreases blocks.len(),
{
    if blocks.len() == 0 {
        Seq::empty()
    } else {
        blocks_accounts(blocks.drop_last(), existing) + (match block_account(
            blocks.last(),
            existing,
        ) {
            Option::Some(a) => seq![a],
            Option::None => Seq::empty(),
        })
    }
}

/// Reading one well-formed block finalizes whatever was open and leaves the
/// block open with its lines folded in.
proof fn lemma_fold_block(st: ParseState, blk: AccountBlock, existing: Seq<Seq<char>>)
    requires
        wf_block(blk),
    ensures
        fold_from(st, block_lines(blk), existing) == (ParseState {
            cur: Option::Some((block_id(blk), kv_fold(block_lines(blk), init_builder()))),
            finished: st.finished + finalize_cur(st.cur, existing),
        }),
{
    let hdr = seq![blk.header];
    assert(block_lines(blk) == hdr + blk.body);
    lemma_fold_from_concat(st, hdr, blk.body, existing);
    assert(hdr.drop_last() =~= Seq::<Seq<char>>::empty());
    assert(hdr.last() == blk.header);
    assert(fold_from(st, Seq::<Seq<char>>::empty(), existing) == st);
    let st1 = step_line(st, blk.header, existing);
    assert(fold_from(st, hdr, existing) == st1);
    assert(st1 == (ParseState {
        cur: Option::Some(
            (block_id(blk), spec_apply_kv(spec_trim(blk.header), init_builder())),
        ),
        finished: st.finished + finalize_cur(st.cur, existing),
    }));
    lemma_fold_no_headers(st1, blk.body, existing);
    lemma_kv_fold_concat(hdr, blk.body, init_builder());
    assert(kv_fold(hdr, init_builder()) == spec_apply_kv(spec_trim(blk.header), init_builder()))
        by {
        assert(hdr.drop_last() =~= Seq::<Seq<char>>::empty());
        assert(hdr.last() == blk.header);
        assert(kv_fold(Seq::<Seq<char>>::empty(), init_builder()) == init_builder());
    }
}

/// After a headerless preamble and a run of well-formed blocks, the parser
/// holds the accounts of all blocks but the last, with the last still open.
proof fn lemma_fold_blocks(
    prefix: Seq<Seq<char>>,
    blocks: Seq<AccountBlock>,
    existing: Seq<Seq<char>>,
)
    requires
        no_header_lines(prefix),
        forall|i: int| 0 <= i < blocks.len() ==> wf_block(#[trigger] blocks[i]),
    ensures
        fold_lines(prefix + blocks_lines(blocks), existing) == (if blocks.len() == 0 {
            ParseState { cur: Option::None, finished: Seq::empty() }
        } else {
            ParseState {
                cur: Option::Some(
                    (
                        block_id(blocks.last()),
                        kv_fold(block_lines(blocks.last()), init_builder()),
                    ),
                ),
                finished: blocks_accounts(blocks.drop_last(), existing),
            }
        }),
    decreases blocks.len(),
{
    lemma_fold_lines_is_fold_from(prefix + blocks_lines(blocks), existing);
    if blocks.len() == 0 {
        assert(prefix + blocks_lines(blocks) =~= prefix);
        lemma_fold_lines_is_fold_from(prefix, existing);
        lemma_fold_no_headers(init_state(), prefix, existing);
    } else {
        let bs = blocks.drop_last();
        let last = blocks.last();
        assert(forall|i: int| 0 <= i < bs.len() ==> wf_block(#[trigger] bs[i])) by {
            assert(forall|i: int| 0 <= i < bs.len() ==> bs[i] == #[trigger] blocks[i]);
        }
        assert(wf_block(last)) by {
            assert(blocks[blocks.len() - 1] == last);
        }
        lemma_fold_blocks(prefix, bs, existing);
        assert(prefix + blocks_lines(blocks) =~= (prefix + blocks_lines(bs)) + block_lines(
            last,
        ));
        lemma_fold_lines_is_fold_from(prefix + blocks_lines(bs), existing);
        lemma_fold_from_concat(
            init_state(),
            prefix + blocks_lines(bs),
            block_lines(last),
            existing,
        );
        let st_prev = fold_lines(prefix + blocks_lines(bs), existing);
        lemma_fold_block(st_prev, last, existing);
        if bs.len() == 0 {
            assert(st_prev.finished + finalize_cur(st_prev.cur, existing)
                =~= Seq::<AccountView>::empty());
            assert(blocks_accounts(bs, existing) == Seq::<AccountView>::empty());
        } else {
            assert(st_prev.finished + finalize_cur(st_prev.cur, existing) == blocks_accounts(
                bs,
                existing,
            )) by {
                assert(finalize_cur(st_prev.cur, existing) == (match block_account(
                    bs.last(),
                    existing,
                ) {
                    Option::Some(a) => seq![a],
                    Option::None => Seq::<AccountView>::empty(),
                }));
            }
        }
    }
}

/// The per-block reading of the parser: a login history whose lines are a
/// headerless preamble followed by well-formed account blocks yields exactly
/// one candidate account per block, in block order — each kept exactly when
/// its block names a non-empty account, its id parses at or above the base
/// offset, and the derived data directory exists.
pub proof fn lemma_accounts_per_block(
    prefix: Seq<Seq<char>>,
    blocks: Seq<AccountBlock>,
    existing: Seq<Seq<char>>,
)
    requires
        no_header_lines(prefix),
        forall|i: int| 0 <= i < blocks.len() ==> wf_block(#[trigger] blocks[i]),
    ensures
        ({
            let st = fold_lines(prefix + blocks_lines(blocks), existing);
            st.finished + finalize_cur(st.cur, existing)
        }) == blocks_accounts(blocks, existing),
{
    lemma_fold_blocks(prefix, blocks, existing);
    let st = fold_lines(prefix + blocks_lines(blocks), existing);
    if blocks.len() == 0 {
        assert(st.finished + finalize_cur(st.cur, existing) =~= Seq::<AccountView>::empty());
    } else {
        assert(finalize_cur(st.cur, existing) == (match block_account(blocks.last(), existing) {
            Option::Some(a) => seq![a],
            Option::None => Seq::<AccountView>::empty(),
        }));
    }
}

} // verus!

verus! {

/// The per-block form of the account reader: when the login-history text
/// splits into a headerless preamble and well-formed account blocks, the
/// accounts read from it (before sorting) are exactly one candidate per
/// block, in block order. Together with the reader's own contract, the
/// sorted result of [`get_steam_accounts`] is exactly these accounts ordered
/// by timestamp, most recent first.
pub proof fn lemma_steam_accounts_per_block(
    content: Seq<char>,
    prefix: Seq<Seq<char>>,
    blocks: Seq<AccountBlock>,
    existing: Seq<Seq<char>>,
)
    requires
        crate::strutil::spec_lines(content) == prefix + blocks_lines(blocks),
        no_header_lines(prefix),
        forall|i: int| 0 <= i < blocks.len() ==> wf_block(#[trigger] blocks[i]),
    ensures
        spec_steam_accounts(content, existing) == blocks_accounts(blocks, existing),
{
    lemma_accounts_per_block(prefix, blocks, existing);
}

} // verus!

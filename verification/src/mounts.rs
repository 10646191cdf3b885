//! Extra sandbox mounts and the launch-options string.
//!
//! The sandboxed Steam runtime exposes a fixed set of top-level directories.
//! Any other top-level directory — except the system directories and hidden
//! names — must be passed in explicitly. The launch-options string composes
//! an optional config-file assignment, the optional mount list, the literal
//! command placeholder, and optional flags for browser-engine applications,
//! always in that order and with fixed spacing.

use vstd::prelude::*;
use vstd::relations::{sorted_by, total_ordering};
use vstd::seq_lib::{group_to_multiset_ensures, lemma_multiset_commutative, lemma_sorted_unique};

use crate::config::spec_normalize_path;
use crate::strutil::{
    lemma_lex_antisym, lemma_lex_refl, lemma_lex_total, lemma_lex_trans, lex_leq, lex_leq_str,
};

verus! {

/// One top-level filesystem entry, as the enumeration shows it.
pub struct RootEntry {
    pub name: String,
    pub is_dir: bool,
}

/// The mathematical image of a [`RootEntry`].
pub ghost struct RootEntryView {
    pub name: Seq<char>,
    pub is_dir: bool,
}

impl View for RootEntry {
    type V = RootEntryView;

    open spec fn view(&self) -> RootEntryView {
        RootEntryView { name: self.name@, is_dir: self.is_dir }
    }
}

/// Directories the sandboxed runtime already exposes by itself.
pub open spec fn is_already_exposed(s: Seq<char>) -> bool {
    ||| s == "bin"@
    ||| s == "etc"@
    ||| s == "home"@
    ||| s == "lib"@
    ||| s == "lib32"@
    ||| s == "lib64"@
    ||| s == "overrides"@
    ||| s == "run"@
    ||| s == "sbin"@
    ||| s == "tmp"@
    ||| s == "usr"@
    ||| s == "var"@
}

/// System directories that must never be mounted into the runtime.
pub open spec fn is_system_dir(s: Seq<char>) -> bool {
    ||| s == "proc"@
    ||| s == "sys"@
    ||| s == "dev"@
    ||| s == "boot"@
    ||| s == "root"@
    ||| s == "lost+found"@
    ||| s == "snap"@
}

/// An entry worth mounting: a directory that is neither already exposed, nor
/// a system directory, nor hidden behind a leading dot.
pub open spec fn spec_mount_kept(e: RootEntryView) -> bool {
    &&& !is_already_exposed(e.name)
    &&& !is_system_dir(e.name)
    &&& !(e.name.len() > 0 && e.name[0] == '.')
    &&& e.is_dir
}

/// What one entry contributes to the mount list: its absolute path when it
/// is kept, nothing otherwise.
pub open spec fn spec_mount_contrib(e: RootEntryView) -> Seq<Seq<char>> {
    if spec_mount_kept(e) {
        seq!["/"@ + e.name]
    } else {
        Seq::empty()
    }
}

/// The kept entries of the enumeration, as absolute paths, in enumeration
/// order (before sorting).
pub open spec fn spec_mount_candidates(entries: Seq<RootEntryView>) -> Seq<Seq<char>>
    decreases entries.len(),
{
    if entries.len() == 0 {
        Seq::empty()
    } else {
        spec_mount_candidates(entries.drop_last()) + spec_mount_contrib(entries.last())
    }
}

/// Runtime test for [`spec_mount_kept`].
fn mount_kept(e: &RootEntry) -> (r: bool)
    ensures
        r == spec_mount_kept(e@),
{
    if !e.is_dir {
        return false;
    }
    let s = e.name.as_str();
    let exposed = crate::strutil::str_eq(s, "bin") || crate::strutil::str_eq(s, "etc")
        || crate::strutil::str_eq(s, "home") || crate::strutil::str_eq(s, "lib")
        || crate::strutil::str_eq(s, "lib32") || crate::strutil::str_eq(s, "lib64")
        || crate::strutil::str_eq(s, "overrides") || crate::strutil::str_eq(s, "run")
        || crate::strutil::str_eq(s, "sbin") || crate::strutil::str_eq(s, "tmp")
        || crate::strutil::str_eq(s, "usr") || crate::strutil::str_eq(s, "var");
    if exposed {
        return false;
    }
    let system = crate::strutil::str_eq(s, "proc") || crate::strutil::str_eq(s, "sys")
        || crate::strutil::str_eq(s, "dev") || crate::strutil::str_eq(s, "boot")
        || crate::strutil::str_eq(s, "root") || crate::strutil::str_eq(s, "lost+found")
        || crate::strutil::str_eq(s, "snap");
    if system {
        return false;
    }
    if s.unicode_len() > 0 && s.get_char(0) == '.' {
        return false;
    }
    true
}

/// The lexicographic order on character sequences, as a relation value.
pub open spec fn lex_order() -> spec_fn(Seq<char>, Seq<char>) -> bool {
    |a: Seq<char>, b: Seq<char>| lex_leq(a, b)
}

/// The lexicographic order is a total order.
pub proof fn lemma_lex_total_ordering()
    ensures
        total_ordering(lex_order()),
{
    assert forall|x: Seq<char>| #[trigger] (lex_order())(x, x) by {
        lemma_lex_refl(x);
    }
    assert forall|x: Seq<char>, y: Seq<char>|
        #[trigger] (lex_order())(x, y) && #[trigger] (lex_order())(y, x) implies x == y by {
        lemma_lex_antisym(x, y);
    }
    assert forall|x: Seq<char>, y: Seq<char>, z: Seq<char>|
        #[trigger] (lex_order())(x, y) && #[trigger] (lex_order())(y, z) implies (lex_order())(
        x,
        z,
    ) by {
        lemma_lex_trans(x, y, z);
    }
    assert forall|x: Seq<char>, y: Seq<char>| #[trigger] (lex_order())(x, y) || #[trigger] (
    lex_order())(y, x) by {
        lemma_lex_total(x, y);
    }
}

/// Order strings lexicographically, smallest first. The result is a
/// permutation of the input.
pub fn sort_strings_lex(input: Vec<String>) -> (r: Vec<String>)
    ensures
        r@.map_values(|x: String| x@).to_multiset() == input@.map_values(
            |x: String| x@,
        ).to_multiset(),
        sorted_by(r@.map_values(|x: String| x@), lex_order()),
{
    let ghost orig = input@.map_values(|x: String| x@);
    let mut v = input;
    let mut out: Vec<String> = Vec::new();
    proof {
        broadcast use group_to_multiset_ensures;

        assert(out@.map_values(|x: String| x@) =~= Seq::<Seq<char>>::empty());
        assert(out@.map_values(|x: String| x@).to_multiset().add(
            v@.map_values(|x: String| x@).to_multiset(),
        ) =~= orig.to_multiset());
    }
    while v.len() > 0
        invariant
            out@.map_values(|x: String| x@).to_multiset().add(
                v@.map_values(|x: String| x@).to_multiset(),
            ) == orig.to_multiset(),
            sorted_by(out@.map_values(|x: String| x@), lex_order()),
            forall|p: int, q: int|
                0 <= p < out@.len() && 0 <= q < v@.len() ==> lex_leq(
                    (#[trigger] out@[p])@,
                    (#[trigger] v@[q])@,
                ),
        decreases v.len(),
    {
        let ghost vm = v@.map_values(|x: String| x@);
        let ghost om = out@.map_values(|x: String| x@);
        let ghost v_seq0 = v@;
        let ghost out_seq0 = out@;
        let mut best: usize = 0;
        let mut j: usize = 1;
        proof {
            lemma_lex_refl(vm[0]);
        }
        while j < v.len()
            invariant
                vm == v@.map_values(|x: String| x@),
                v.len() > 0,
                best < j <= v.len(),
                forall|k: int| 0 <= k < j ==> lex_leq(vm[best as int], #[trigger] vm[k]),
            decreases v.len() - j,
        {
            if !lex_leq_str(v[best].as_str(), v[j].as_str()) {
                let ghost old_best = best;
                best = j;
                proof {
                    lemma_lex_total(vm[old_best as int], vm[j as int]);
                    assert forall|k: int| 0 <= k < j + 1 implies lex_leq(
                        vm[best as int],
                        #[trigger] vm[k],
                    ) by {
                        if k < j {
                            lemma_lex_trans(vm[j as int], vm[old_best as int], vm[k]);
                        } else {
                            lemma_lex_refl(vm[j as int]);
                        }
                    }
                }
            } else {
                proof {
                    assert(lex_leq(vm[best as int], vm[j as int]));
                }
            }
            j = j + 1;
        }
        let x = v.remove(best);
        out.push(x);
        proof {
            broadcast use group_to_multiset_ensures;
            broadcast use vstd::multiset::group_multiset_axioms;

            assert(v@.map_values(|x: String| x@) =~= vm.remove(best as int));
            assert(out@.map_values(|x: String| x@) =~= om.push(x@));
            assert(x@ == vm[best as int]);
            assert(vm.remove(best as int).to_multiset() == vm.to_multiset().remove(
                vm[best as int],
            ));
            assert(om.push(x@).to_multiset() == om.to_multiset().insert(x@));
            assert(vm.to_multiset().contains(x@)) by {
                assert(vm.contains(x@)) by {
                    assert(vm[best as int] == x@);
                }
            }
            assert(om.to_multiset().insert(x@).add(vm.to_multiset().remove(x@))
                =~= om.to_multiset().add(vm.to_multiset()));
            assert(sorted_by(om.push(x@), lex_order())) by {
                assert(forall|p: int| 0 <= p < om.len() ==> lex_leq(#[trigger] om[p], x@));
                assert(forall|p: int, q: int|
                    0 <= p < q < om.push(x@).len() ==> (lex_order())(
                        om.push(x@)[p],
                        om.push(x@)[q],
                    ));
            }
            assert(forall|q: int|
                0 <= q < v@.len() ==> lex_leq(x@, (#[trigger] v@[q])@)) by {
                assert(forall|q: int|
                    0 <= q < v@.len() ==> v@[q] == (if q < best {
                        v_seq0[q]
                    } else {
                        v_seq0[q + 1]
                    }));
                assert(forall|k: int| 0 <= k < vm.len() ==> vm[k] == (#[trigger] v_seq0[k])@);
                assert(forall|k: int|
                    0 <= k < v_seq0.len() ==> lex_leq(x@, (#[trigger] v_seq0[k])@));
            }
            assert(forall|p: int| 0 <= p < out@.len() ==> lex_leq((#[trigger] out@[p])@, x@)) by {
                assert(forall|p: int| 0 <= p < out@.len() - 1 ==> out@[p] == out_seq0[p]);
                assert(out@[out@.len() - 1] == x);
                assert(0 <= best < v_seq0.len());
                assert(forall|p: int|
                    0 <= p < out_seq0.len() ==> lex_leq(
                        (#[trigger] out_seq0[p])@,
                        v_seq0[best as int]@,
                    ));
                lemma_lex_refl(x@);
            }
        }
    }
    proof {
        broadcast use group_to_multiset_ensures;

        assert(v@.map_values(|x: String| x@) =~= Seq::<Seq<char>>::empty());
        assert(out@.map_values(|x: String| x@).to_multiset().add(
            Seq::<Seq<char>>::empty().to_multiset(),
        ) =~= out@.map_values(|x: String| x@).to_multiset());
    }
    out
}

/// Compute the extra mounts for the runtime out of one enumeration of the
/// top-level directory: keep the directories that are neither already
/// exposed, nor system directories, nor hidden; name each as an absolute
/// path; order the result lexicographically.
pub fn detect_extra_mounts(entries: &Vec<RootEntry>) -> (r: Vec<String>)
    ensures
        r@.map_values(|x: String| x@).to_multiset() == spec_mount_candidates(
            entries@.map_values(|e: RootEntry| e@),
        ).to_multiset(),
        sorted_by(r@.map_values(|x: String| x@), lex_order()),
{
    let ghost views = entries@.map_values(|e: RootEntry| e@);
    let mut cand: Vec<String> = Vec::new();
    let mut i: usize = 0;
    proof {
        assert(views.take(0) =~= Seq::<RootEntryView>::empty());
        assert(cand@.map_values(|x: String| x@) =~= Seq::<Seq<char>>::empty());
    }
    while i < entries.len()
        invariant
            views == entries@.map_values(|e: RootEntry| e@),
            i <= entries.len(),
            cand@.map_values(|x: String| x@) == spec_mount_candidates(views.take(i as int)),
        decreases entries.len() - i,
    {
        let ghost prev = cand@.map_values(|x: String| x@);
        proof {
            assert(views.take(i + 1).drop_last() =~= views.take(i as int));
            assert(views.take(i + 1).last() == views[i as int]);
        }
        if mount_kept(&entries[i]) {
            let mut p = String::from_str("/");
            p.append(entries[i].name.as_str());
            cand.push(p);
            proof {
                assert(cand@.map_values(|x: String| x@) =~= prev.push("/"@ + views[i as int].name));
                assert(prev.push("/"@ + views[i as int].name) =~= prev + spec_mount_contrib(
                    views[i as int],
                ));
            }
        } else {
            proof {
                assert(prev + Seq::<Seq<char>>::empty() =~= prev);
            }
        }
        i = i + 1;
    }
    proof {
        assert(views.take(entries@.len() as int) =~= views);
    }
    sort_strings_lex(cand)
}

/// Removing one entry anywhere removes exactly its contribution from the
/// candidate multiset.
proof fn lemma_candidates_remove(s: Seq<RootEntryView>, i: int)
    requires
        0 <= i < s.len(),
    ensures
        spec_mount_candidates(s).to_multiset() == spec_mount_candidates(s.remove(i)).to_multiset()
            .add(spec_mount_contrib(s[i]).to_multiset()),
    decreases s.len(),
{
    broadcast use vstd::multiset::group_multiset_axioms;

    lemma_multiset_commutative(spec_mount_candidates(s.drop_last()), spec_mount_contrib(s.last()));
    if i == s.len() - 1 {
        assert(s.remove(i) =~= s.drop_last());
    } else {
        assert(s.remove(i).drop_last() =~= s.drop_last().remove(i));
        assert(s.remove(i).last() == s.last());
        lemma_candidates_remove(s.drop_last(), i);
        lemma_multiset_commutative(
            spec_mount_candidates(s.remove(i).drop_last()),
            spec_mount_contrib(s.last()),
        );
        assert(spec_mount_candidates(s).to_multiset() == spec_mount_candidates(
            s.remove(i),
        ).to_multiset().add(spec_mount_contrib(s[i]).to_multiset())) by {
            assert(spec_mount_candidates(s).to_multiset() == spec_mount_candidates(
                s.drop_last(),
            ).to_multiset().add(spec_mount_contrib(s.last()).to_multiset()));
            assert(spec_mount_candidates(s.remove(i)).to_multiset() == spec_mount_candidates(
                s.drop_last().remove(i),
            ).to_multiset().add(spec_mount_contrib(s.last()).to_multiset()));
        }
    }
}

/// The candidate multiset depends only on the multiset of enumerated
/// entries, not on their order.
proof fn lemma_candidates_multiset(a: Seq<RootEntryView>, b: Seq<RootEntryView>)
    requires
        a.to_multiset() == b.to_multiset(),
    ensures
        spec_mount_candidates(a).to_multiset() == spec_mount_candidates(b).to_multiset(),
    decreases a.len(),
{
    broadcast use group_to_multiset_ensures;
    broadcast use vstd::multiset::group_multiset_axioms;

    if a.len() == 0 {
        assert(a.to_multiset().len() == a.len());
        assert(b.to_multiset().len() == b.len());
        assert(b =~= Seq::<RootEntryView>::empty());
        assert(a =~= Seq::<RootEntryView>::empty());
    } else {
        let x = a.last();
        assert(a.to_multiset().contains(x)) by {
            assert(a.contains(x)) by {
                assert(a[a.len() - 1] == x);
            }
        }
        assert(b.to_multiset().contains(x));
        assert(b.contains(x));
        let j = choose|j: int| 0 <= j < b.len() && b[j] == x;
        lemma_candidates_remove(a, a.len() - 1);
        lemma_candidates_remove(b, j);
        assert(a.remove(a.len() - 1) =~= a.drop_last());
        assert(a.drop_last().to_multiset() == a.to_multiset().remove(x));
        assert(b.remove(j).to_multiset() == b.to_multiset().remove(x));
        lemma_candidates_multiset(a.drop_last(), b.remove(j));
    }
}

/// The mount computation is deterministic and independent of enumeration
/// order: any two results of [`detect_extra_mounts`] on enumerations holding
/// the same entries — in any order — are identical, character for character.
pub proof fn lemma_mounts_order_independent(
    a: Seq<RootEntryView>,
    b: Seq<RootEntryView>,
    ra: Seq<Seq<char>>,
    rb: Seq<Seq<char>>,
)
    requires
        a.to_multiset() == b.to_multiset(),
        ra.to_multiset() == spec_mount_candidates(a).to_multiset(),
        sorted_by(ra, lex_order()),
        rb.to_multiset() == spec_mount_candidates(b).to_multiset(),
        sorted_by(rb, lex_order()),
    ensures
        ra == rb,
{
    lemma_candidates_multiset(a, b);
    lemma_lex_total_ordering();
    lemma_sorted_unique(ra, rb, lex_order());
}

/// Every mount in the candidate list comes from a kept entry: it is that
/// entry's name behind a slash, so no already-exposed name, no system
/// directory and no hidden name ever appears.
pub proof fn lemma_candidate_shape(s: Seq<RootEntryView>, x: Seq<char>)
    requires
        spec_mount_candidates(s).contains(x),
    ensures
        exists|i: int|
            0 <= i < s.len() && spec_mount_kept(#[trigger] s[i]) && x == "/"@ + s[i].name,
    decreases s.len(),
{
    if s.len() > 0 {
        let c = spec_mount_candidates(s);
        let pre = spec_mount_candidates(s.drop_last());
        if pre.contains(x) {
            lemma_candidate_shape(s.drop_last(), x);
            let i = choose|i: int|
                0 <= i < s.drop_last().len() && spec_mount_kept(#[trigger] s.drop_last()[i]) && x
                    == "/"@ + s.drop_last()[i].name;
            assert(s[i] == s.drop_last()[i]);
        } else {
            let k = choose|k: int| 0 <= k < c.len() && c[k] == x;
            assert(spec_mount_kept(s.last()) && x == "/"@ + s.last().name) by {
                if spec_mount_kept(s.last()) {
                    assert(c =~= pre.push("/"@ + s.last().name));
                    assert(k == c.len() - 1) by {
                        if k < c.len() - 1 {
                            assert(pre[k] == x);
                            assert(pre.contains(x));
                        }
                    }
                } else {
                    assert(c =~= pre);
                }
            }
            assert(s[s.len() - 1] == s.last());
        }
    } else {
        assert(spec_mount_candidates(s).len() == 0);
    }
}

} // verus!

verus! {

/// The mount list joined with colons: `a:b:c`.
pub open spec fn spec_join_colon(s: Seq<Seq<char>>) -> Seq<char>
    decreases s.len(),
{
    if s.len() == 0 {
        Seq::empty()
    } else if s.len() == 1 {
        s[0]
    } else {
        spec_join_colon(s.drop_last()) + ":"@ + s.last()
    }
}

/// Join strings with a colon between each pair.
pub fn join_colon(v: &Vec<String>) -> (r: String)
    ensures
        r@ == spec_join_colon(v@.map_values(|x: String| x@)),
{
    let ghost views = v@.map_values(|x: String| x@);
    let mut out = String::new();
    let mut i: usize = 0;
    proof {
        assert(views.take(0) =~= Seq::<Seq<char>>::empty());
    }
    while i < v.len()
        invariant
            views == v@.map_values(|x: String| x@),
            i <= v.len(),
            out@ == spec_join_colon(views.take(i as int)),
        decreases v.len() - i,
    {
        proof {
            assert(views.take(i + 1).drop_last() =~= views.take(i as int));
            assert(views.take(i + 1).last() == views[i as int]);
        }
        if i == 0 {
            out.append(v[0].as_str());
            proof {
                assert(views.take(1).len() == 1);
                assert(views.take(1)[0] == views[0]);
                assert(out@ =~= spec_join_colon(views.take(1)));
            }
        } else {
            out.append(":");
            out.append(v[i].as_str());
            proof {
                assert(out@ =~= spec_join_colon(views.take(i + 1)));
            }
        }
        i = i + 1;
    }
    proof {
        assert(views.take(v@.len() as int) =~= views);
    }
    out
}

/// The launch-options string for a given config-file path, mount list and
/// application kind: the optional config assignment, then the optional
/// mount assignment, then the command placeholder, then the optional
/// browser-engine flags, separated by single spaces.
pub open spec fn spec_launch_options(
    conf: Option<Seq<char>>,
    mounts: Seq<Seq<char>>,
    electron: bool,
) -> Seq<char> {
    let tail = if electron {
        " --disable-gpu --no-sandbox"@
    } else {
        Seq::<char>::empty()
    };
    match conf {
        Option::None => {
            if mounts.len() == 0 {
                "%command%"@ + tail
            } else {
                "STEAM_COMPAT_MOUNTS="@ + spec_join_colon(mounts) + " %command%"@ + tail
            }
        },
        Option::Some(p) => {
            let assign = "DXVK_CONFIG_FILE=\""@ + spec_normalize_path(p) + "\""@;
            if mounts.len() == 0 {
                assign + " %command%"@ + tail
            } else {
                assign + " STEAM_COMPAT_MOUNTS="@ + spec_join_colon(mounts) + " %command%"@ + tail
            }
        },
    }
}

/// Compose the launch-options string: an optional config-file assignment
/// (its path normalized for the sandbox), an optional colon-joined mount
/// list, the literal `%command%` placeholder, and fixed extra flags when the
/// target is a browser-engine application. All four combinations of the two
/// optional parts keep exactly this order and spacing.
pub fn generate_launch_options(
    dxvk_conf_path: &Option<String>,
    mounts: &Vec<String>,
    is_electron_app: bool,
) -> (r: String)
    ensures
        r@ == spec_launch_options(
            match dxvk_conf_path {
                Option::Some(p) => Option::Some(p@),
                Option::None => Option::None,
            },
            mounts@.map_values(|x: String| x@),
            is_electron_app,
        ),
{
    let mut out = String::new();
    match dxvk_conf_path {
        Option::Some(p) => {
            out.append("DXVK_CONFIG_FILE=\"");
            let norm = crate::config::normalize_path_for_steam(p.as_str());
            out.append(norm.as_str());
            out.append("\"");
            if mounts.len() > 0 {
                out.append(" STEAM_COMPAT_MOUNTS=");
                let joined = join_colon(mounts);
                out.append(joined.as_str());
                out.append(" %command%");
            } else {
                out.append(" %command%");
            }
        },
        Option::None => {
            if mounts.len() > 0 {
                out.append("STEAM_COMPAT_MOUNTS=");
                let joined = join_colon(mounts);
                out.append(joined.as_str());
                out.append(" %command%");
            } else {
                out.append("%command%");
            }
        },
    }
    if is_electron_app {
        out.append(" --disable-gpu --no-sandbox");
    }
    proof {
        assert(out@ =~= spec_launch_options(
            match dxvk_conf_path {
                Option::Some(p) => Option::Some(p@),
                Option::None => Option::None,
            },
            mounts@.map_values(|x: String| x@),
            is_electron_app,
        ));
    }
    out
}

} // verus!

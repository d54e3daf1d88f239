use vstd::prelude::*;

use crate::text::{char_len, join_spec, join_strings, lex_le, match_at, rfind_str, str_eq, str_le, substring};
use vstd::string::StrSliceExecFns;
use vstd::string::StringExecFns;

verus! {

// ---------------------------------------------------------------------------
// Lockfile analysis: which packages are installed in several versions.
//
// A lockfile names each installed package by its install path; the same
// package may appear under many paths with different versions. The
// analysis groups the entries by package name, collects the distinct
// versions of each, counts the diverged packages and renders the report
// rows. Reading the lockfile's JSON happens outside the library.
// ---------------------------------------------------------------------------

/// The lockfile, reduced to what the analysis reads.
#[derive(Debug, Clone)]
pub struct PackageLockJson {
    pub name: String,
    pub version: Option<String>,
    pub lockfile_version: u32,
    pub packages: Option<Vec<(String, Dependency)>>,
}

/// One installed package as the lockfile lists it.
#[derive(Debug, Clone)]
pub struct Dependency {
    pub version: String,
    pub name: Option<String>,
    pub resolved: Option<String>,
    pub integrity: Option<String>,
    pub bundled: bool,
    pub is_dev: bool,
    pub is_optional: bool,
    pub is_dev_optional: bool,
    pub is_in_bundle: bool,
    pub has_install_script: bool,
    pub has_shrink_wrap: bool,
    pub dependencies: Option<Vec<(String, String)>>,
    pub dev_dependencies: Option<Vec<(String, String)>>,
    pub optional_dependencies: Option<Vec<(String, String)>>,
    pub peer_dependencies: Option<Vec<(String, String)>>,
    pub license: Option<String>,
    pub bin: Option<Vec<(String, String)>>,
}

// ---------------------------------------------------------------------------
// Package names.
// ---------------------------------------------------------------------------

/// The start of the last occurrence of `p` in `h`, or `-1` when `p` does
/// not occur.
pub open spec fn rmatch_index(h: Seq<char>, p: Seq<char>) -> int
    decreases h.len(),
{
    if p.len() == 0 {
        h.len() as int
    } else if h.len() < p.len() {
        -1
    } else if match_at(h, p, h.len() - p.len()) {
        h.len() - p.len()
    } else {
        rmatch_index(h.drop_last(), p)
    }
}

proof fn lemma_rmatch_bounds(h: Seq<char>, p: Seq<char>)
    requires
        p.len() > 0,
    ensures
        -1 <= rmatch_index(h, p),
        rmatch_index(h, p) >= 0 ==> rmatch_index(h, p) + p.len() <= h.len(),
        rmatch_index(h, p) >= 0 ==> match_at(h, p, rmatch_index(h, p)),
        forall|j: int| rmatch_index(h, p) < j ==> !match_at(h, p, j),
    decreases h.len(),
{
    if h.len() < p.len() {
        assert forall|j: int| !match_at(h, p, j) by {}
    } else if match_at(h, p, h.len() - p.len()) {
        assert forall|j: int| h.len() - p.len() < j implies !match_at(h, p, j) by {}
    } else {
        lemma_rmatch_bounds(h.drop_last(), p);
        let f = rmatch_index(h, p);
        assert(f == rmatch_index(h.drop_last(), p));
        if f >= 0 {
            assert(match_at(h.drop_last(), p, f));
            assert(h.drop_last().subrange(f, f + p.len() as int) =~= h.subrange(
                f,
                f + p.len() as int,
            ));
            assert(match_at(h, p, f));
        }
        assert forall|j: int| f < j implies !match_at(h, p, j) by {
            if 0 <= j && j + p.len() <= h.len() - 1 {
                assert(!match_at(h.drop_last(), p, j));
                assert(h.drop_last().subrange(j, j + p.len() as int) =~= h.subrange(
                    j,
                    j + p.len() as int,
                ));
            }
        }
    }
}

/// The package name an install path names: what follows the last
/// `node_modules/` in it, or the whole path without one.
pub open spec fn package_name_spec(path: Seq<char>) -> Seq<char> {
    let i = rmatch_index(path, "node_modules/"@);
    if i >= 0 {
        path.subrange(i + "node_modules/"@.len() as int, path.len() as int)
    } else {
        path
    }
}

/// Reads the package name out of an install path.
pub fn package_name_of(install_path: &str) -> (r: String)
    ensures
        r@ == package_name_spec(install_path@),
{
    let n = char_len(install_path);
    let plen = char_len("node_modules/");
    proof {
        broadcast use vstd::string::group_string_axioms;

        reveal_strlit("node_modules/");
        assert("node_modules/"@.len() == 13);
        lemma_rmatch_bounds(install_path@, "node_modules/"@);
    }
    match rfind_str(install_path, "node_modules/") {
        Some(i) => {
            proof {
                let f = rmatch_index(install_path@, "node_modules/"@);
                if f < i {
                    assert(!match_at(install_path@, "node_modules/"@, i as int));
                }
                if f > i {
                    assert(!match_at(install_path@, "node_modules/"@, f));
                }
            }
            substring(install_path, i + plen, n)
        },
        None => {
            proof {
                let f = rmatch_index(install_path@, "node_modules/"@);
                if f >= 0 {
                    assert(!match_at(install_path@, "node_modules/"@, f));
                }
            }
            install_path.to_owned()
        },
    }
}

// ---------------------------------------------------------------------------
// Grouping versions by package name.
// ---------------------------------------------------------------------------

/// Whether some lockfile entry names this package at this version.
pub open spec fn has_package_version(
    packages: Seq<(String, Dependency)>,
    name: Seq<char>,
    version: Seq<char>,
) -> bool {
    exists|k: int|
        0 <= k < packages.len() && package_name_spec(#[trigger] packages[k].0@) == name
            && packages[k].1.version@ == version
}

/// Well-formed groups: package names pairwise distinct, and each group's
/// version list free of repeats.
pub open spec fn groups_wf(groups: Seq<(String, Vec<String>)>) -> bool {
    &&& forall|i: int, j: int|
        0 <= i < j < groups.len() ==> (#[trigger] groups[i].0@) != (#[trigger] groups[j].0@)
    &&& forall|i: int, a: int, b: int|
        0 <= i < groups.len() && 0 <= a < b < groups[i].1@.len() ==> (
        #[trigger] groups[i].1@[a]@) != (#[trigger] groups[i].1@[b]@)
}

/// Whether the groups record this entry: its package name stands in some
/// group together with its version.
pub open spec fn entry_recorded(
    groups: Seq<(String, Vec<String>)>,
    entry: (String, Dependency),
) -> bool {
    exists|i: int, a: int|
        0 <= i < groups.len() && 0 <= a < groups[i].1@.len() && (#[trigger] groups[i].0@)
            == package_name_spec(entry.0@) && (#[trigger] groups[i].1@[a])@ == entry.1.version@
}

/// The groups carry exactly the lockfile's packages and versions.
pub open spec fn groups_represent(
    groups: Seq<(String, Vec<String>)>,
    packages: Seq<(String, Dependency)>,
) -> bool {
    &&& forall|i: int, a: int|
        0 <= i < groups.len() && 0 <= a < groups[i].1@.len() ==> has_package_version(
            packages,
            groups[i].0@,
            (#[trigger] groups[i].1@[a])@,
        )
    &&& forall|k: int| 0 <= k < packages.len() ==> entry_recorded(groups, #[trigger] packages[k])
}

/// Groups the lockfile's entries by package name, each with its distinct
/// versions in order of first appearance.
pub fn collect_package_versions(packages: &Vec<(String, Dependency)>) -> (groups: Vec<
    (String, Vec<String>),
>)
    ensures
        groups_wf(groups@),
        groups_represent(groups@, packages@),
{
    let mut groups: Vec<(String, Vec<String>)> = Vec::new();
    let mut k: usize = 0;
    while k < packages.len()
        invariant
            0 <= k <= packages@.len(),
            groups_wf(groups@),
            groups_represent(groups@, packages@.subrange(0, k as int)),
        decreases packages@.len() - k,
    {
        let ghost prefix = packages@.subrange(0, k as int);
        let ghost next = packages@.subrange(0, k + 1);
        proof {
            assert(next.drop_last() =~= prefix);
            assert(next.last() == packages@[k as int]);
            assert(next =~= prefix.push(packages@[k as int]));
        }
        let name = package_name_of(packages[k].0.as_str());
        let version = &packages[k].1.version;
        // find the group this package belongs to
        let mut gi: usize = 0;
        let mut found = false;
        while gi < groups.len() && !found
            invariant
                0 <= gi <= groups@.len(),
                !found ==> forall|j: int| 0 <= j < gi ==> (#[trigger] groups@[j].0@) != name@,
                found ==> gi < groups@.len() && groups@[gi as int].0@ == name@,
            decreases groups@.len() - gi + (if found {
                0int
            } else {
                1int
            }),
        {
            if str_eq(groups[gi].0.as_str(), name.as_str()) {
                found = true;
            } else {
                gi = gi + 1;
            }
        }
        let ghost old_groups = groups@;
        if found {
            // known package: record the version if it is new
            let mut pair = groups.remove(gi);
            let mut seen = false;
            let mut a: usize = 0;
            while a < pair.1.len() && !seen
                invariant
                    0 <= a <= pair.1@.len(),
                    !seen ==> forall|b: int| 0 <= b < a ==> (#[trigger] pair.1@[b]@) != version@,
                    seen ==> exists|b: int|
                        0 <= b < pair.1@.len() && (#[trigger] pair.1@[b]@) == version@,
                    pair == old_groups[gi as int],
                decreases pair.1@.len() - a + (if seen {
                    0int
                } else {
                    1int
                }),
            {
                if str_eq(pair.1[a].as_str(), version.as_str()) {
                    seen = true;
                } else {
                    a = a + 1;
                }
            }
            if !seen {
                pair.1.push(version.clone());
            }
            let ghost newpair = pair;
            groups.insert(gi, pair);
            proof {
                assert(groups@ =~= old_groups.update(gi as int, newpair));
                lemma_group_update(old_groups, gi as int, newpair, prefix, packages@[k as int], seen);
            }
        } else {
            let mut versions: Vec<String> = Vec::new();
            versions.push(version.clone());
            groups.push((name, versions));
            proof {
                let np = groups@.last();
                assert(groups@ =~= old_groups.push(np));
                lemma_group_new(old_groups, np, prefix, packages@[k as int]);
            }
        }
        k = k + 1;
    }
    proof {
        assert(packages@.subrange(0, packages@.len() as int) =~= packages@);
    }
    groups
}

/// Adding a known package's possibly-new version to its group keeps the
/// groups well-formed and representing one more entry.
proof fn lemma_group_update(
    old_groups: Seq<(String, Vec<String>)>,
    gi: int,
    newpair: (String, Vec<String>),
    prefix: Seq<(String, Dependency)>,
    entry: (String, Dependency),
    seen: bool,
)
    requires
        groups_wf(old_groups),
        groups_represent(old_groups, prefix),
        0 <= gi < old_groups.len(),
        old_groups[gi].0@ == package_name_spec(entry.0@),
        newpair.0 == old_groups[gi].0,
        seen ==> newpair.1@ == old_groups[gi].1@ && exists|b: int|
            0 <= b < old_groups[gi].1@.len() && (#[trigger] old_groups[gi].1@[b]@)
                == entry.1.version@,
        !seen ==> newpair.1@ == old_groups[gi].1@.push(entry.1.version) && forall|b: int|
            0 <= b < old_groups[gi].1@.len() ==> (#[trigger] old_groups[gi].1@[b]@)
                != entry.1.version@,
    ensures
        groups_wf(old_groups.update(gi, newpair)),
        groups_represent(old_groups.update(gi, newpair), prefix.push(entry)),
{
    let new_groups = old_groups.update(gi, newpair);
    let packages = prefix.push(entry);
    assert(packages.drop_last() =~= prefix);
    // names unchanged
    assert forall|i: int, j: int|
        0 <= i < j < new_groups.len() implies (#[trigger] new_groups[i].0@) != (
    #[trigger] new_groups[j].0@) by {
        assert(new_groups[i].0 == old_groups[i].0);
        assert(new_groups[j].0 == old_groups[j].0);
    }
    // version lists stay free of repeats
    assert forall|i: int, a: int, b: int|
        0 <= i < new_groups.len() && 0 <= a < b < new_groups[i].1@.len() implies (
    #[trigger] new_groups[i].1@[a]@) != (#[trigger] new_groups[i].1@[b]@) by {
        if i != gi {
            assert(new_groups[i] == old_groups[i]);
            assert((old_groups[i].1@[a]@) != (old_groups[i].1@[b]@));
        } else if seen {
            assert((old_groups[gi].1@[a]@) != (old_groups[gi].1@[b]@));
        } else {
            if b < old_groups[gi].1@.len() {
                assert((old_groups[gi].1@[a]@) != (old_groups[gi].1@[b]@));
            } else {
                assert(new_groups[gi].1@[b] == entry.1.version);
                assert(new_groups[gi].1@[a] == old_groups[gi].1@[a]);
                assert((old_groups[gi].1@[a]@) != entry.1.version@);
            }
        }
    }
    // every recorded version is in the packages
    assert forall|i: int, a: int|
        0 <= i < new_groups.len() && 0 <= a < new_groups[i].1@.len() implies has_package_version(
        packages,
        new_groups[i].0@,
        (#[trigger] new_groups[i].1@[a])@,
    ) by {
        let in_old = if i != gi {
            true
        } else if seen || a < old_groups[gi].1@.len() {
            true
        } else {
            false
        };
        if in_old {
            assert(new_groups[i].1@[a] == old_groups[i].1@[a]);
            assert(has_package_version(prefix, old_groups[i].0@, old_groups[i].1@[a]@));
            let w = choose|w: int|
                0 <= w < prefix.len() && package_name_spec(#[trigger] prefix[w].0@)
                    == old_groups[i].0@ && prefix[w].1.version@ == old_groups[i].1@[a]@;
            assert(packages[w] == prefix[w]);
            assert(package_name_spec(packages[w].0@) == new_groups[i].0@);
        } else {
            assert(new_groups[gi].1@[a] == entry.1.version);
            let w = packages.len() - 1;
            assert(packages[w] == entry);
            assert(package_name_spec(packages[w].0@) == new_groups[gi].0@);
        }
    }
    // every package entry is recorded
    assert forall|k: int| 0 <= k < packages.len() implies entry_recorded(
        new_groups,
        #[trigger] packages[k],
    ) by {
        if k < prefix.len() {
            assert(packages[k] == prefix[k]);
            assert(entry_recorded(old_groups, prefix[k]));
            let (i, a) = choose|i: int, a: int|
                0 <= i < old_groups.len() && 0 <= a < old_groups[i].1@.len() && (
                #[trigger] old_groups[i].0@) == package_name_spec(prefix[k].0@) && (
                #[trigger] old_groups[i].1@[a])@ == prefix[k].1.version@;
            assert(new_groups[i].0@ == old_groups[i].0@);
            assert(new_groups[i].1@[a]@ == old_groups[i].1@[a]@);
        } else {
            assert(packages[k] == entry);
            if seen {
                let b = choose|b: int|
                    0 <= b < old_groups[gi].1@.len() && (#[trigger] old_groups[gi].1@[b]@)
                        == entry.1.version@;
                assert(new_groups[gi].1@[b]@ == entry.1.version@);
                assert(new_groups[gi].0@ == package_name_spec(entry.0@));
            } else {
                let b = old_groups[gi].1@.len() as int;
                assert(new_groups[gi].1@[b] == entry.1.version);
                assert(new_groups[gi].0@ == package_name_spec(entry.0@));
            }
        }
    }
}

/// Opening a group for an unseen package keeps the groups well-formed and
/// representing one more entry.
proof fn lemma_group_new(
    old_groups: Seq<(String, Vec<String>)>,
    newpair: (String, Vec<String>),
    prefix: Seq<(String, Dependency)>,
    entry: (String, Dependency),
)
    requires
        groups_wf(old_groups),
        groups_represent(old_groups, prefix),
        forall|j: int|
            0 <= j < old_groups.len() ==> (#[trigger] old_groups[j].0@) != package_name_spec(
                entry.0@,
            ),
        newpair.0@ == package_name_spec(entry.0@),
        newpair.1@.len() == 1,
        newpair.1@[0]@ == entry.1.version@,
    ensures
        groups_wf(old_groups.push(newpair)),
        groups_represent(old_groups.push(newpair), prefix.push(entry)),
{
    let new_groups = old_groups.push(newpair);
    let packages = prefix.push(entry);
    assert(packages.drop_last() =~= prefix);
    let gi = old_groups.len() as int;
    assert forall|i: int, a: int|
        0 <= i < new_groups.len() && 0 <= a < new_groups[i].1@.len() implies has_package_version(
        packages,
        new_groups[i].0@,
        (#[trigger] new_groups[i].1@[a])@,
    ) by {
        if i < gi {
            assert(new_groups[i] == old_groups[i]);
            assert(has_package_version(prefix, old_groups[i].0@, old_groups[i].1@[a]@));
            let w = choose|w: int|
                0 <= w < prefix.len() && package_name_spec(#[trigger] prefix[w].0@)
                    == old_groups[i].0@ && prefix[w].1.version@ == old_groups[i].1@[a]@;
            assert(packages[w] == prefix[w]);
            assert(package_name_spec(packages[w].0@) == new_groups[i].0@);
        } else {
            let w = packages.len() - 1;
            assert(packages[w] == entry);
            assert(package_name_spec(packages[w].0@) == new_groups[i].0@);
        }
    }
    assert forall|k: int| 0 <= k < packages.len() implies entry_recorded(
        new_groups,
        #[trigger] packages[k],
    ) by {
        if k < prefix.len() {
            assert(packages[k] == prefix[k]);
            assert(entry_recorded(old_groups, prefix[k]));
            let (i, a) = choose|i: int, a: int|
                0 <= i < old_groups.len() && 0 <= a < old_groups[i].1@.len() && (
                #[trigger] old_groups[i].0@) == package_name_spec(prefix[k].0@) && (
                #[trigger] old_groups[i].1@[a])@ == prefix[k].1.version@;
            assert(new_groups[i] == old_groups[i]);
            assert(new_groups[i].0@ == package_name_spec(packages[k].0@));
            assert(new_groups[i].1@[a]@ == packages[k].1.version@);
        } else {
            assert(packages[k] == entry);
            assert(new_groups[gi].1@[0]@ == entry.1.version@);
            assert(new_groups[gi].0@ == package_name_spec(entry.0@));
        }
    }
}

// ---------------------------------------------------------------------------
// Counting and reporting.
// ---------------------------------------------------------------------------

/// How many groups carry more than one version.
pub open spec fn diverged_count_spec(groups: Seq<(String, Vec<String>)>) -> int
    decreases groups.len(),
{
    if groups.len() == 0 {
        0
    } else {
        diverged_count_spec(groups.drop_last()) + (if groups.last().1@.len() > 1 {
            1int
        } else {
            0int
        })
    }
}

/// Counts the packages installed in more than one version.
pub fn diverged_count(groups: &Vec<(String, Vec<String>)>) -> (r: usize)
    ensures
        r == diverged_count_spec(groups@),
{
    let mut count: usize = 0;
    let mut i: usize = 0;
    proof {
        assert(groups@.subrange(0, 0) =~= Seq::<(String, Vec<String>)>::empty());
    }
    while i < groups.len()
        invariant
            0 <= i <= groups@.len(),
            count <= i,
            count == diverged_count_spec(groups@.subrange(0, i as int)),
        decreases groups@.len() - i,
    {
        proof {
            assert(groups@.subrange(0, i + 1).drop_last() =~= groups@.subrange(0, i as int));
            assert(groups@.subrange(0, i + 1).last() == groups@[i as int]);
        }
        if groups[i].1.len() > 1 {
            count = count + 1;
        }
        i = i + 1;
    }
    proof {
        assert(groups@.subrange(0, groups@.len() as int) =~= groups@);
    }
    count
}

/// Strings in non-descending code-point order.
pub open spec fn sorted_lex(s: Seq<Seq<char>>) -> bool {
    forall|i: int| 0 <= i < s.len() - 1 ==> lex_le(s[i], #[trigger] s[i + 1])
}

proof fn lemma_insert_to_multiset<A>(s: Seq<A>, j: int, x: A)
    requires
        0 <= j <= s.len(),
    ensures
        s.insert(j, x).to_multiset() =~= s.to_multiset().insert(x),
{
    broadcast use vstd::seq_lib::group_to_multiset_ensures;

    let t = s.insert(j, x);
    assert(t.remove(j) =~= s);
    assert(t[j] == x);
    assert(t.contains(x));
    assert(t.to_multiset().count(x) > 0);
    assert(t.remove(j).to_multiset() =~= t.to_multiset().remove(t[j]));
}

/// Sorts version strings in code-point order, keeping the collection.
pub fn sort_strings(v: &Vec<String>) -> (r: Vec<String>)
    ensures
        r@.map_values(|s: String| s@).to_multiset() == v@.map_values(|s: String| s@).to_multiset(),
        sorted_lex(r@.map_values(|s: String| s@)),
{
    let mut out: Vec<String> = Vec::new();
    let mut i: usize = 0;
    proof {
        broadcast use vstd::seq_lib::group_to_multiset_ensures;

        assert(v@.subrange(0, 0).map_values(|s: String| s@) =~= Seq::<Seq<char>>::empty());
        assert(out@.map_values(|s: String| s@).to_multiset() =~= v@.subrange(0, 0).map_values(
            |s: String| s@,
        ).to_multiset());
    }
    while i < v.len()
        invariant
            0 <= i <= v@.len(),
            out@.map_values(|s: String| s@).to_multiset() == v@.subrange(0, i as int).map_values(
                |s: String| s@,
            ).to_multiset(),
            sorted_lex(out@.map_values(|s: String| s@)),
        decreases v@.len() - i,
    {
        let x = v[i].clone();
        let mut j: usize = 0;
        let mut placed = false;
        while !placed && j < out.len()
            invariant
                0 <= j <= out@.len(),
                forall|k: int| 0 <= k < j ==> !lex_le(x@, (#[trigger] out@[k])@),
                placed ==> j < out@.len() && lex_le(x@, out@[j as int]@),
            decreases out@.len() - j + (if placed {
                0int
            } else {
                1int
            }),
        {
            if str_le(x.as_str(), out[j].as_str()) {
                placed = true;
            } else {
                j = j + 1;
            }
        }
        let ghost old_map = out@.map_values(|s: String| s@);
        out.insert(j, x);
        proof {
            broadcast use vstd::seq_lib::group_to_multiset_ensures;

            let new_map = out@.map_values(|s: String| s@);
            assert(new_map =~= old_map.insert(j as int, v@[i as int]@));
            lemma_insert_to_multiset(old_map, j as int, v@[i as int]@);
            assert(v@.subrange(0, i + 1).map_values(|s: String| s@) =~= v@.subrange(
                0,
                i as int,
            ).map_values(|s: String| s@).push(v@[i as int]@));
            assert forall|k: int| 0 <= k < new_map.len() - 1 implies lex_le(
                new_map[k],
                #[trigger] new_map[k + 1],
            ) by {
                if k + 1 < j {
                    assert(new_map[k] == old_map[k]);
                    assert(new_map[k + 1] == old_map[k + 1]);
                    assert(lex_le(old_map[k], old_map[k + 1]));
                } else if k + 1 == j {
                    assert(new_map[k] == old_map[k]);
                    assert(new_map[k + 1] == x@);
                    assert(!lex_le(x@, old_map[k]));
                    crate::text::lemma_lex_le_total(x@, old_map[k]);
                } else if k == j {
                    assert(new_map[k] == x@);
                    assert(new_map[k + 1] == old_map[k]);
                    assert(lex_le(x@, old_map[k as int]));
                } else {
                    assert(new_map[k] == old_map[k - 1]);
                    assert(new_map[k + 1] == old_map[k]);
                    assert(lex_le(old_map[k - 1], old_map[k - 1 + 1]));
                }
            }
        }
        i = i + 1;
    }
    proof {
        assert(v@.subrange(0, v@.len() as int) =~= v@);
    }
    out
}

/// The pairwise view of report rows.
pub open spec fn row_views(rows: Seq<(String, String)>) -> Seq<(Seq<char>, Seq<char>)> {
    rows.map_values(|p: (String, String)| (p.0@, p.1@))
}

/// Report rows in non-descending order of package name.
pub open spec fn rows_sorted(rows: Seq<(Seq<char>, Seq<char>)>) -> bool {
    forall|i: int| 0 <= i < rows.len() - 1 ==> lex_le(rows[i].0, (#[trigger] rows[i + 1]).0)
}

/// Sorts report rows by package name, keeping the collection.
pub fn sort_rows(rows: Vec<(String, String)>) -> (r: Vec<(String, String)>)
    ensures
        row_views(r@).to_multiset() == row_views(rows@).to_multiset(),
        rows_sorted(row_views(r@)),
{
    let mut out: Vec<(String, String)> = Vec::new();
    let mut i: usize = 0;
    proof {
        broadcast use vstd::seq_lib::group_to_multiset_ensures;

        assert(row_views(rows@.subrange(0, 0)) =~= Seq::<(Seq<char>, Seq<char>)>::empty());
        assert(row_views(out@).to_multiset() =~= row_views(rows@.subrange(0, 0)).to_multiset());
    }
    while i < rows.len()
        invariant
            0 <= i <= rows@.len(),
            row_views(out@).to_multiset() == row_views(rows@.subrange(0, i as int)).to_multiset(),
            rows_sorted(row_views(out@)),
        decreases rows@.len() - i,
    {
        let x = (rows[i].0.clone(), rows[i].1.clone());
        let ghost xv = (rows@[i as int].0@, rows@[i as int].1@);
        let mut j: usize = 0;
        let mut placed = false;
        while !placed && j < out.len()
            invariant
                0 <= j <= out@.len(),
                forall|k: int| 0 <= k < j ==> !lex_le(x.0@, (#[trigger] out@[k]).0@),
                placed ==> j < out@.len() && lex_le(x.0@, out@[j as int].0@),
            decreases out@.len() - j + (if placed {
                0int
            } else {
                1int
            }),
        {
            if str_le(x.0.as_str(), out[j].0.as_str()) {
                placed = true;
            } else {
                j = j + 1;
            }
        }
        let ghost old_map = row_views(out@);
        out.insert(j, x);
        proof {
            broadcast use vstd::seq_lib::group_to_multiset_ensures;

            let new_map = row_views(out@);
            assert(new_map =~= old_map.insert(j as int, xv));
            lemma_insert_to_multiset(old_map, j as int, xv);
            assert(row_views(rows@.subrange(0, i + 1)) =~= row_views(
                rows@.subrange(0, i as int),
            ).push(xv));
            assert forall|k: int| 0 <= k < new_map.len() - 1 implies lex_le(
                new_map[k].0,
                (#[trigger] new_map[k + 1]).0,
            ) by {
                if k + 1 < j {
                    assert(new_map[k] == old_map[k]);
                    assert(new_map[k + 1] == old_map[k + 1]);
                    assert(lex_le(old_map[k].0, old_map[k + 1].0));
                } else if k + 1 == j {
                    assert(new_map[k] == old_map[k]);
                    assert(new_map[k + 1] == xv);
                    assert(!lex_le(xv.0, old_map[k].0));
                    crate::text::lemma_lex_le_total(xv.0, old_map[k].0);
                } else if k == j {
                    assert(new_map[k] == xv);
                    assert(new_map[k + 1] == old_map[k]);
                    assert(lex_le(xv.0, old_map[k as int].0));
                } else {
                    assert(new_map[k] == old_map[k - 1]);
                    assert(new_map[k + 1] == old_map[k]);
                    assert(lex_le(old_map[k - 1].0, (old_map[k - 1 + 1]).0));
                }
            }
        }
        i = i + 1;
    }
    proof {
        assert(rows@.subrange(0, rows@.len() as int) =~= rows@);
    }
    out
}

/// Whether a text is the versions of `versions`, sorted and joined with a
/// comma.
pub open spec fn is_sorted_join_of(text: Seq<char>, versions: Vec<String>) -> bool {
    exists|vs: Seq<Seq<char>>|
        sorted_lex(vs) && #[trigger] join_spec(vs, ", "@) == text && vs.to_multiset()
            == versions@.map_values(|s: String| s@).to_multiset()
}

/// Whether a report row belongs to one of the groups: its name, and its
/// text the group's sorted versions.
pub open spec fn row_for_some_group(
    groups: Seq<(String, Vec<String>)>,
    row: (String, String),
) -> bool {
    exists|j: int|
        0 <= j < groups.len() && row.0@ == (#[trigger] groups[j].0@) && is_sorted_join_of(
            row.1@,
            groups[j].1,
        )
}

/// One report row per diverged group, in group order: the package name and
/// its versions sorted and joined with a comma.
pub fn duplicate_row_texts(groups: &Vec<(String, Vec<String>)>) -> (rows: Vec<(String, String)>)
    ensures
        rows@.map_values(|p: (String, String)| p.0@) == groups@.filter(
            |g: (String, Vec<String>)| g.1@.len() > 1,
        ).map_values(|g: (String, Vec<String>)| g.0@),
        forall|t: int| 0 <= t < rows@.len() ==> row_for_some_group(groups@, #[trigger] rows@[t]),
{
    let mut rows: Vec<(String, String)> = Vec::new();
    let mut i: usize = 0;
    proof {
        reveal(Seq::filter);
        assert(groups@.subrange(0, 0).filter(|g: (String, Vec<String>)| g.1@.len() > 1).map_values(
            |g: (String, Vec<String>)| g.0@,
        ) =~= Seq::<Seq<char>>::empty());
        assert(rows@.map_values(|p: (String, String)| p.0@) =~= Seq::<Seq<char>>::empty());
    }
    while i < groups.len()
        invariant
            0 <= i <= groups@.len(),
            rows@.map_values(|p: (String, String)| p.0@) == groups@.subrange(0, i as int).filter(
                |g: (String, Vec<String>)| g.1@.len() > 1,
            ).map_values(|g: (String, Vec<String>)| g.0@),
            forall|t: int|
                0 <= t < rows@.len() ==> row_for_some_group(groups@, #[trigger] rows@[t]),
        decreases groups@.len() - i,
    {
        proof {
            let pg = groups@.subrange(0, i as int);
            let ng = groups@.subrange(0, i + 1);
            assert(ng.drop_last() =~= pg);
            assert(ng.last() == groups@[i as int]);
            reveal(Seq::filter);
        }
        if groups[i].1.len() > 1 {
            let sorted = sort_strings(&groups[i].1);
            let text = join_strings(&sorted, ", ");
            let name = groups[i].0.clone();
            let ghost prev = rows@;
            rows.push((name, text));
            proof {
                assert(rows@.map_values(|p: (String, String)| p.0@) =~= prev.map_values(
                    |p: (String, String)| p.0@,
                ).push(groups@[i as int].0@));
                let nvs = sorted@.map_values(|s: String| s@);
                assert forall|t: int| 0 <= t < rows@.len() implies row_for_some_group(
                    groups@,
                    #[trigger] rows@[t],
                ) by {
                    if t < prev.len() {
                        assert(rows@[t] == prev[t]);
                        assert(row_for_some_group(groups@, prev[t]));
                    } else {
                        assert(rows@[t] == (name, text));
                        assert(sorted_lex(nvs) && join_spec(nvs, ", "@) == text@
                            && nvs.to_multiset() == groups@[i as int].1@.map_values(
                            |s: String| s@,
                        ).to_multiset());
                        assert(is_sorted_join_of(text@, groups@[i as int].1));
                        assert(rows@[t].0@ == groups@[i as int].0@);
                        assert(row_for_some_group(groups@, rows@[t]));
                    }
                }
            }
        }
        i = i + 1;
    }
    proof {
        assert(groups@.subrange(0, groups@.len() as int) =~= groups@);
    }
    rows
}

} // verus!

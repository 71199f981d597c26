//! Which Gradle directories are flagged, stated by the order of versions
//! itself: (a, b, c) is older than (a', b', c') when a < a', or a == a'
//! and b < b', or a == a', b == b' and c < c'.

use vstd::prelude::*;
use crate::detectors::gradle::{
    newest_cache, newest_dist, spec_parse_dist_version, spec_parse_simple_version, stale_cache, stale_dist, stale_names,
    ver_lt, Version,
};
use crate::laws::lemma_stale_names;

verus! {

/// The newest version cache is one of the listed names, and no listed
/// cache has a later version.
proof fn lemma_newest_cache(names: Seq<String>)
    ensures
        (exists|j: int| 0 <= j < names.len() && (#[trigger] spec_parse_simple_version(names[j]@)) is Some)
            ==> newest_cache(names) is Some,
        newest_cache(names) matches Some((m, mn)) ==> exists|j: int|
            0 <= j < names.len() && #[trigger] spec_parse_simple_version(names[j]@) == Some(m) && names[j]@ == mn,
        newest_cache(names) matches Some((m, mn)) ==> forall|j: int|
            0 <= j < names.len() && (#[trigger] spec_parse_simple_version(names[j]@)) is Some
                ==> !ver_lt(m, spec_parse_simple_version(names[j]@)->Some_0),
    decreases names.len(),
{
    if names.len() > 0 {
        let init = names.drop_last();
        lemma_newest_cache(init);
        let last = (names.len() - 1) as int;
        assert forall|j: int| 0 <= j < init.len() implies #[trigger] init[j] == names[j] by {}
        if exists|j: int| 0 <= j < names.len() && (#[trigger] spec_parse_simple_version(names[j]@)) is Some {
            let j = choose|j: int| 0 <= j < names.len() && (#[trigger] spec_parse_simple_version(names[j]@)) is Some;
            if j < last {
                assert(init[j] == names[j]);
            }
        }
        if let Some((m, mn)) = newest_cache(names) {
            if let Some((pm, pmn)) = newest_cache(init) {
                let pj = choose|j: int|
                    0 <= j < init.len() && #[trigger] spec_parse_simple_version(init[j]@) == Some(pm) && init[j]@ == pmn;
                assert(names[pj] == init[pj]);
            }
            assert forall|j: int|
                0 <= j < names.len() && (#[trigger] spec_parse_simple_version(names[j]@)) is Some implies
                !ver_lt(m, spec_parse_simple_version(names[j]@)->Some_0) by {
                if j < last {
                    assert(init[j] == names[j]);
                }
            }
        }
    }
}

/// The newest distribution version is that of a listed name, and no
/// listed distribution is later.
proof fn lemma_newest_dist(names: Seq<String>)
    ensures
        (exists|j: int| 0 <= j < names.len() && (#[trigger] spec_parse_dist_version(names[j]@)) is Some)
            ==> newest_dist(names) is Some,
        newest_dist(names) matches Some(m) ==> exists|j: int|
            0 <= j < names.len() && #[trigger] spec_parse_dist_version(names[j]@) == Some(m),
        newest_dist(names) matches Some(m) ==> forall|j: int|
            0 <= j < names.len() && (#[trigger] spec_parse_dist_version(names[j]@)) is Some
                ==> !ver_lt(m, spec_parse_dist_version(names[j]@)->Some_0),
    decreases names.len(),
{
    if names.len() > 0 {
        let init = names.drop_last();
        lemma_newest_dist(init);
        let last = (names.len() - 1) as int;
        assert forall|j: int| 0 <= j < init.len() implies #[trigger] init[j] == names[j] by {}
        if exists|j: int| 0 <= j < names.len() && (#[trigger] spec_parse_dist_version(names[j]@)) is Some {
            let j = choose|j: int| 0 <= j < names.len() && (#[trigger] spec_parse_dist_version(names[j]@)) is Some;
            if j < last {
                assert(init[j] == names[j]);
            }
        }
        if let Some(m) = newest_dist(names) {
            if let Some(pm) = newest_dist(init) {
                let pj = choose|j: int| 0 <= j < init.len() && #[trigger] spec_parse_dist_version(init[j]@) == Some(pm);
                assert(names[pj] == init[pj]);
            }
            assert forall|j: int|
                0 <= j < names.len() && (#[trigger] spec_parse_dist_version(names[j]@)) is Some implies
                !ver_lt(m, spec_parse_dist_version(names[j]@)->Some_0) by {
                if j < last {
                    assert(init[j] == names[j]);
                }
            }
        }
    }
}

/// A listed name that is stale is in the list of stale names.
proof fn lemma_stale_listed(names: Seq<String>, all: Seq<String>, caches: bool, k: int)
    requires
        0 <= k < names.len(),
        if caches { stale_cache(names[k]@, all) } else { stale_dist(names[k]@, all) },
    ensures
        stale_names(names, all, caches).contains(names[k]@),
    decreases names.len(),
{
    let init = names.drop_last();
    let prev = stale_names(init, all, caches);
    if k < names.len() - 1 {
        assert(init[k] == names[k]);
        lemma_stale_listed(init, all, caches, k);
        let i = choose|i: int| 0 <= i < prev.len() && prev[i] == names[k]@;
        assert(stale_names(names, all, caches)[i] == prev[i]);
    } else {
        assert(stale_names(names, all, caches)[prev.len() as int] == names[k]@);
    }
}

/// A version cache is flagged whenever another listed cache has a later
/// version, where a difference in the patch number alone counts.
pub proof fn law_gradle_older_cache_flagged(names: Seq<String>, k: int, j: int)
    requires
        0 <= k < names.len(),
        0 <= j < names.len(),
        spec_parse_simple_version(names[k]@) matches Some(v) && spec_parse_simple_version(names[j]@) matches Some(w)
            && (v.0 < w.0 || (v.0 == w.0 && v.1 < w.1) || (v.0 == w.0 && v.1 == w.1 && v.2 < w.2)),
    ensures
        stale_names(names, names, true).contains(names[k]@),
{
    lemma_newest_cache(names);
    let v: Version = spec_parse_simple_version(names[k]@)->Some_0;
    let w: Version = spec_parse_simple_version(names[j]@)->Some_0;
    let (m, mn) = newest_cache(names)->Some_0;
    assert(!ver_lt(m, w));
    if mn == names[k]@ {
        let i = choose|i: int|
            0 <= i < names.len() && #[trigger] spec_parse_simple_version(names[i]@) == Some(m) && names[i]@ == mn;
        assert(m == v);
    }
    lemma_stale_listed(names, names, true, k);
}

/// A version cache whose version is later than that of every other
/// listed cache is kept.
pub proof fn law_gradle_latest_cache_kept(names: Seq<String>, k: int)
    requires
        0 <= k < names.len(),
        spec_parse_simple_version(names[k]@) matches Some(v) && forall|j: int|
            0 <= j < names.len() && j != k && (#[trigger] spec_parse_simple_version(names[j]@)) is Some ==> {
                let w = spec_parse_simple_version(names[j]@)->Some_0;
                w.0 < v.0 || (w.0 == v.0 && w.1 < v.1) || (w.0 == v.0 && w.1 == v.1 && w.2 < v.2)
            },
    ensures
        !stale_names(names, names, true).contains(names[k]@),
{
    lemma_newest_cache(names);
    lemma_stale_names(names, names, true);
    let v: Version = spec_parse_simple_version(names[k]@)->Some_0;
    let (m, mn) = newest_cache(names)->Some_0;
    let i = choose|i: int| 0 <= i < names.len() && #[trigger] spec_parse_simple_version(names[i]@) == Some(m) && names[i]@ == mn;
    assert(!ver_lt(m, v));
    if i != k {
        assert(spec_parse_simple_version(names[i]@) matches Some(w)
            && (w.0 < v.0 || (w.0 == v.0 && w.1 < v.1) || (w.0 == v.0 && w.1 == v.1 && w.2 < v.2)));
    }
    assert(mn == names[k]@);
    if stale_names(names, names, true).contains(names[k]@) {
        let x = choose|x: int| 0 <= x < stale_names(names, names, true).len() && stale_names(names, names, true)[x] == names[k]@;
        assert(stale_cache(stale_names(names, names, true)[x], names));
    }
}

/// A wrapper distribution is flagged whenever another listed one has a
/// later version, where a difference in the patch number alone counts.
pub proof fn law_gradle_older_dist_flagged(names: Seq<String>, k: int, j: int)
    requires
        0 <= k < names.len(),
        0 <= j < names.len(),
        spec_parse_dist_version(names[k]@) matches Some(v) && spec_parse_dist_version(names[j]@) matches Some(w)
            && (v.0 < w.0 || (v.0 == w.0 && v.1 < w.1) || (v.0 == w.0 && v.1 == w.1 && v.2 < w.2)),
    ensures
        stale_names(names, names, false).contains(names[k]@),
{
    lemma_newest_dist(names);
    let w: Version = spec_parse_dist_version(names[j]@)->Some_0;
    let m = newest_dist(names)->Some_0;
    assert(!ver_lt(m, w));
    lemma_stale_listed(names, names, false, k);
}

/// A wrapper distribution with the latest listed version (no listed one
/// is later) is kept, in both its `bin` and `all` variants.
pub proof fn law_gradle_latest_dist_kept(names: Seq<String>, k: int)
    requires
        0 <= k < names.len(),
        spec_parse_dist_version(names[k]@) matches Some(v) && forall|j: int|
            0 <= j < names.len() && (#[trigger] spec_parse_dist_version(names[j]@)) is Some ==> {
                let w = spec_parse_dist_version(names[j]@)->Some_0;
                !(v.0 < w.0 || (v.0 == w.0 && v.1 < w.1) || (v.0 == w.0 && v.1 == w.1 && v.2 < w.2))
            },
    ensures
        !stale_names(names, names, false).contains(names[k]@),
{
    lemma_newest_dist(names);
    lemma_stale_names(names, names, false);
    let v: Version = spec_parse_dist_version(names[k]@)->Some_0;
    let m = newest_dist(names)->Some_0;
    let i = choose|i: int| 0 <= i < names.len() && #[trigger] spec_parse_dist_version(names[i]@) == Some(m);
    assert(!ver_lt(m, v));
    assert(spec_parse_dist_version(names[i]@) matches Some(w)
        && !(v.0 < w.0 || (v.0 == w.0 && v.1 < w.1) || (v.0 == w.0 && v.1 == w.1 && v.2 < w.2)));
    assert(m == v);
    if stale_names(names, names, false).contains(names[k]@) {
        let x = choose|x: int| 0 <= x < stale_names(names, names, false).len() && stale_names(names, names, false)[x] == names[k]@;
        assert(stale_dist(stale_names(names, names, false)[x], names));
    }
}

} // verus!

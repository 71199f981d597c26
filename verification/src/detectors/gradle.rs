//! Gradle: superseded wrapper distributions, stale version caches and the
//! dependency cache.
//!
//! The newest wrapper distribution (both its `bin` and `all` variants) and
//! the newest version cache are kept; only names that parse as Gradle
//! versions are ever flagged.

use vstd::prelude::*;
use super::{candidate, is_candidate, named_candidates, named_candidates_ok, Candidate, Ctx, Detector};
use super::context::join2;
use crate::model::Safety;
use crate::paths::{join, spec_join};
use crate::text::{has_prefix, has_suffix, parse_u64, pieces, spec_parse_u64, split_pieces, str_eq, text_less, text_lt};

verus! {

/// Gradle wrapper distributions and caches.
pub struct GradleDetector;

impl Detector for GradleDetector {
    fn id(&self) -> (r: &'static str)
        ensures
            r@ == "gradle"@,
    {
        "gradle"
    }

    fn label(&self) -> (r: &'static str)
        ensures
            r@ == "Gradle wrappers + caches"@,
    {
        "Gradle wrappers + caches"
    }
}

/// A version number.
pub type Version = (u64, u64, u64);

/// `9.3` -> (9, 3, 0): one to three dot-separated `u64` parts, missing
/// parts 0.
pub open spec fn spec_parse_simple_version(s: Seq<char>) -> Option<Version> {
    let p = pieces(s, '.');
    let major = spec_parse_u64(p[0]);
    let minor = if p.len() >= 2 { spec_parse_u64(p[1]) } else { Some(0u64) };
    let patch = if p.len() >= 3 { spec_parse_u64(p[2]) } else { Some(0u64) };
    if p.len() > 3 {
        None
    } else {
        match (major, minor, patch) {
            (Some(a), Some(b), Some(c)) => Some((a, b, c)),
            _ => None,
        }
    }
}

/// `gradle-<version>-bin` or `gradle-<version>-all` -> the version; any
/// other name (custom, rc, unsuffixed distributions) -> `None`.
pub open spec fn spec_parse_dist_version(name: Seq<char>) -> Option<Version> {
    if name.len() >= 11 && has_prefix(name, "gradle-"@) && (has_suffix(name, "-bin"@) || has_suffix(name, "-all"@)) {
        spec_parse_simple_version(name.subrange(7, name.len() - 4))
    } else {
        None
    }
}

/// Parses `9.3` as (9, 3, 0).
pub fn parse_simple_version(s: &str) -> (r: Option<Version>)
    ensures
        r == spec_parse_simple_version(s@),
{
    let p = split_pieces(s, '.');
    let major = match parse_u64(p[0].as_str()) {
        Some(v) => v,
        None => return None,
    };
    let minor = if p.len() >= 2 {
        match parse_u64(p[1].as_str()) {
            Some(v) => v,
            None => return None,
        }
    } else {
        0
    };
    let patch = if p.len() >= 3 {
        match parse_u64(p[2].as_str()) {
            Some(v) => v,
            None => return None,
        }
    } else {
        0
    };
    if p.len() > 3 {
        return None;
    }
    Some((major, minor, patch))
}

/// Parses `gradle-8.13-all` as (8, 13, 0).
pub fn parse_dist_version(name: &str) -> (r: Option<Version>)
    ensures
        r == spec_parse_dist_version(name@),
{
    proof {
        reveal_strlit("gradle-");
        reveal_strlit("-bin");
        reveal_strlit("-all");
    }
    let n = name.unicode_len();
    if n < 11 || !crate::text::str_starts_with(name, "gradle-") {
        return None;
    }
    let tail = name.substring_char(n - 4, n);
    assert(tail@ =~= name@.subrange(n - 4, n as int));
    if !str_eq(tail, "-bin") && !str_eq(tail, "-all") {
        return None;
    }
    let version = name.substring_char(7, n - 4);
    parse_simple_version(version)
}

/// `a` is an older version than `b`.
pub open spec fn ver_lt(a: Version, b: Version) -> bool {
    ||| a.0 < b.0
    ||| a.0 == b.0 && a.1 < b.1
    ||| a.0 == b.0 && a.1 == b.1 && a.2 < b.2
}

/// Whether `a` is an older version than `b`.
fn older(a: Version, b: Version) -> (r: bool)
    ensures
        r == ver_lt(a, b),
{
    a.0 < b.0 || (a.0 == b.0 && a.1 < b.1) || (a.0 == b.0 && a.1 == b.1 && a.2 < b.2)
}

/// The newest wrapper distribution version among `names`.
pub open spec fn newest_dist(names: Seq<String>) -> Option<Version>
    decreases names.len(),
{
    if names.len() == 0 {
        None
    } else {
        let prev = newest_dist(names.drop_last());
        match spec_parse_dist_version(names.last()@) {
            None => prev,
            Some(v) => match prev {
                None => Some(v),
                Some(m) => if ver_lt(m, v) { Some(v) } else { Some(m) },
            },
        }
    }
}

/// A distribution older than the newest one.
pub open spec fn stale_dist(name: Seq<char>, names: Seq<String>) -> bool {
    spec_parse_dist_version(name) matches Some(v) && newest_dist(names) matches Some(m) && ver_lt(v, m)
}

/// The newest version cache among `names`: greatest version, ties by
/// name.
pub open spec fn newest_cache(names: Seq<String>) -> Option<(Version, Seq<char>)>
    decreases names.len(),
{
    if names.len() == 0 {
        None
    } else {
        let prev = newest_cache(names.drop_last());
        let n = names.last()@;
        match spec_parse_simple_version(n) {
            None => prev,
            Some(v) => match prev {
                None => Some((v, n)),
                Some((m, mn)) => if ver_lt(m, v) || (m == v && text_lt(mn, n)) {
                    Some((v, n))
                } else {
                    Some((m, mn))
                },
            },
        }
    }
}

/// A version cache other than the newest one.
pub open spec fn stale_cache(name: Seq<char>, names: Seq<String>) -> bool {
    &&& spec_parse_simple_version(name) is Some
    &&& !(newest_cache(names) matches Some((_, n)) && n == name)
}

/// The names among `names` that `keep` selects, in order.
pub open spec fn stale_names(names: Seq<String>, all: Seq<String>, caches: bool) -> Seq<Seq<char>>
    decreases names.len(),
{
    if names.len() == 0 {
        Seq::empty()
    } else {
        let n = names.last()@;
        let stale = if caches { stale_cache(n, all) } else { stale_dist(n, all) };
        stale_names(names.drop_last(), all, caches) + if stale { seq![n] } else { Seq::empty() }
    }
}

/// The newest distribution version among the directory names.
fn find_newest_dist(names: &[String]) -> (r: Option<Version>)
    ensures
        r == newest_dist(names@),
{
    let mut best: Option<Version> = None;
    let mut i: usize = 0;
    while i < names.len()
        invariant
            i <= names@.len(),
            best == newest_dist(names@.take(i as int)),
        decreases names@.len() - i,
    {
        assert(names@.take(i + 1).drop_last() =~= names@.take(i as int));
        assert(names@.take(i + 1).last() == names@[i as int]);
        match parse_dist_version(names[i].as_str()) {
            None => {},
            Some(v) => {
                best = match best {
                    None => Some(v),
                    Some(m) => if older(m, v) { Some(v) } else { Some(m) },
                };
            },
        }
        i = i + 1;
    }
    assert(names@.take(names@.len() as int) =~= names@);
    best
}

/// The newest version cache among the directory names.
fn find_newest_cache(names: &[String]) -> (r: Option<(Version, String)>)
    ensures
        match (r, newest_cache(names@)) {
            (None, None) => true,
            (Some((v, n)), Some((w, m))) => v == w && n@ == m,
            _ => false,
        },
{
    let mut best: Option<(Version, String)> = None;
    let mut i: usize = 0;
    while i < names.len()
        invariant
            i <= names@.len(),
            match (best, newest_cache(names@.take(i as int))) {
                (None, None) => true,
                (Some((v, n)), Some((w, m))) => v == w && n@ == m,
                _ => false,
            },
        decreases names@.len() - i,
    {
        assert(names@.take(i + 1).drop_last() =~= names@.take(i as int));
        assert(names@.take(i + 1).last() == names@[i as int]);
        match parse_simple_version(names[i].as_str()) {
            None => {},
            Some(v) => {
                best = match best {
                    None => Some((v, names[i].clone())),
                    Some((m, mn)) => {
                        if older(m, v) || (m.0 == v.0 && m.1 == v.1 && m.2 == v.2 && text_less(mn.as_str(), names[i].as_str())) {
                            Some((v, names[i].clone()))
                        } else {
                            Some((m, mn))
                        }
                    },
                };
            },
        }
        i = i + 1;
    }
    assert(names@.take(names@.len() as int) =~= names@);
    best
}

/// The superseded distributions among the directory names in
/// `wrapper/dists`, in order.
pub fn stale_dists(names: &[String]) -> (r: Vec<String>)
    ensures
        r@.map_values(|s: String| s@) == stale_names(names@, names@, false),
{
    let newest = find_newest_dist(names);
    let mut out: Vec<String> = Vec::new();
    let mut i: usize = 0;
    while i < names.len()
        invariant
            i <= names@.len(),
            newest == newest_dist(names@),
            out@.map_values(|s: String| s@) == stale_names(names@.take(i as int), names@, false),
        decreases names@.len() - i,
    {
        assert(names@.take(i + 1).drop_last() =~= names@.take(i as int));
        assert(names@.take(i + 1).last() == names@[i as int]);
        let stale = match (parse_dist_version(names[i].as_str()), newest) {
            (Some(v), Some(m)) => older(v, m),
            _ => false,
        };
        if stale {
            out.push(names[i].clone());
        }
        assert(out@.map_values(|s: String| s@) =~= stale_names(names@.take(i + 1), names@, false));
        i = i + 1;
    }
    assert(names@.take(names@.len() as int) =~= names@);
    out
}

/// The version caches other than the newest among the directory names
/// in `caches`, in order.
pub fn stale_caches(names: &[String]) -> (r: Vec<String>)
    ensures
        r@.map_values(|s: String| s@) == stale_names(names@, names@, true),
{
    let newest = find_newest_cache(names);
    let mut out: Vec<String> = Vec::new();
    let mut i: usize = 0;
    while i < names.len()
        invariant
            i <= names@.len(),
            match (newest, newest_cache(names@)) {
                (None, None) => true,
                (Some((v, n)), Some((w, m))) => v == w && n@ == m,
                _ => false,
            },
            out@.map_values(|s: String| s@) == stale_names(names@.take(i as int), names@, true),
        decreases names@.len() - i,
    {
        assert(names@.take(i + 1).drop_last() =~= names@.take(i as int));
        assert(names@.take(i + 1).last() == names@[i as int]);
        let versioned = parse_simple_version(names[i].as_str()).is_some();
        let is_newest = match &newest {
            Some((_, n)) => str_eq(n.as_str(), names[i].as_str()),
            None => false,
        };
        if versioned && !is_newest {
            out.push(names[i].clone());
        }
        assert(out@.map_values(|s: String| s@) =~= stale_names(names@.take(i + 1), names@, true));
        i = i + 1;
    }
    assert(names@.take(names@.len() as int) =~= names@);
    out
}

/// Why a superseded distribution may go.
pub open spec fn dist_detail() -> Seq<char> {
    "Superseded Gradle distribution; re-downloaded if ever needed."@
}

/// Why the dependency cache may go, and what it costs.
pub open spec fn modules_detail() -> Seq<char> {
    "Shared dependency artifacts. Deleting forces a full re-download on next build."@
}

impl GradleDetector {
    /// The candidates, given the directory names found in
    /// `wrapper/dists` and in `caches` under the Gradle home: every
    /// superseded distribution, every version cache but the newest, then
    /// the shared dependency cache (`modules-2`, caution).
    pub fn candidates(&self, ctx: &Ctx, dist_names: &[String], cache_names: &[String]) -> (r: Vec<Candidate>)
        ensures
            ({
                let d = stale_names(dist_names@, dist_names@, false);
                let c = stale_names(cache_names@, cache_names@, true);
                &&& r@.len() == d.len() + c.len() + 1
                &&& named_candidates_ok(
                    r@.take(d.len() as int),
                    d,
                    "gradle wrapper dist ("@,
                    ")"@,
                    join2(ctx.gradle_home@, "wrapper"@, "dists"@),
                    Safety::Safe,
                    dist_detail(),
                )
                &&& named_candidates_ok(
                    r@.subrange(d.len() as int, (d.len() + c.len()) as int),
                    c,
                    "gradle version cache ("@,
                    ")"@,
                    spec_join(ctx.gradle_home@, "caches"@),
                    Safety::Safe,
                    "Stale Gradle version cache."@,
                )
                &&& is_candidate(
                    r@[(d.len() + c.len()) as int],
                    "gradle dependency cache (modules-2)"@,
                    join2(ctx.gradle_home@, "caches"@, "modules-2"@),
                    Safety::Caution,
                    modules_detail(),
                )
            }),
    {
        let dists = join2_exec(ctx.gradle_home.as_str(), "wrapper", "dists");
        let caches = join(ctx.gradle_home.as_str(), "caches");
        let stale_d = stale_dists(dist_names);
        let stale_c = stale_caches(cache_names);
        let mut out = named_candidates(
            &stale_d,
            "gradle wrapper dist (",
            ")",
            dists.as_str(),
            Safety::Safe,
            "Superseded Gradle distribution; re-downloaded if ever needed.",
        );
        let mut more = named_candidates(
            &stale_c,
            "gradle version cache (",
            ")",
            caches.as_str(),
            Safety::Safe,
            "Stale Gradle version cache.",
        );
        let ghost first = out@;
        let ghost second = more@;
        out.append(&mut more);
        out.push(candidate(
            "gradle dependency cache (modules-2)".to_owned(),
            join(caches.as_str(), "modules-2"),
            Safety::Caution,
            "Shared dependency artifacts. Deleting forces a full re-download on next build.",
        ));
        assert(out@.take(first.len() as int) =~= first);
        assert(out@.subrange(first.len() as int, (first.len() + second.len()) as int) =~= second);
        out
    }
}

/// `base` joined with two components.
fn join2_exec(base: &str, a: &str, b: &str) -> (r: String)
    ensures
        r@ == join2(base@, a@, b@),
{
    let x = join(base, a);
    join(x.as_str(), b)
}

} // verus!

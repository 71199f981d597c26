//! The detector registry: where each ecosystem keeps regenerable bytes,
//! how safe each location is to delete, and how findings are ranked.
//!
//! Detectors are decisions over a [`Ctx`] and over what the caller found
//! on disk at the locations they name, so they run unchanged against a
//! sandbox.

use vstd::prelude::*;
use crate::model::{CleanAction, Finding, Safety};
use crate::paths::{join, spec_join, path_within, same_path, key_eq, key_within, path_key};
use crate::text::{concat3, trim, trim_ws, lemma_text_lt_irreflexive, lemma_text_lt_total, lemma_text_lt_transitive, str_eq, str_eq_ascii_ci, text_less, text_lt, eq_ascii_ci, concat};
pub use context::{Ctx, EnvSnapshot};

pub mod agent;
pub mod android;
pub mod angular;
pub mod browser;
pub mod cargo;
pub mod context;
pub mod docker;
pub mod dotnet;
pub mod flutter;
pub mod freshness;
pub mod gocache;
pub mod gradle;
pub mod jscaches;
pub mod nextjs;
pub mod pip_cache;
pub mod pubcache;
pub mod pycache;
pub mod pytest_caches;
pub mod temp;
pub mod uv_cache;
pub mod vite;
pub mod winupdate;

verus! {

/// One detector: one ecosystem's known cache and artifact locations.
pub trait Detector {
    /// Stable id, selectable with `--id`.
    fn id(&self) -> &'static str;
    /// Human-readable name.
    fn label(&self) -> &'static str;
}

/// Any registered detector.
pub enum AnyDetector {
    Cargo(cargo::CargoDetector),
    PubCache(pubcache::PubCacheDetector),
    JsCaches(jscaches::JsCachesDetector),
    PipCache(pip_cache::PipCacheDetector),
    UvCache(uv_cache::UvCacheDetector),
    PyCache(pycache::PyCacheDetector),
    PyTestCaches(pytest_caches::PyTestCachesDetector),
    Vite(vite::ViteDetector),
    Angular(angular::AngularDetector),
    DotNet(dotnet::DotNetDetector),
    Gradle(gradle::GradleDetector),
    Android(android::AndroidDetector),
    Flutter(flutter::FlutterDetector),
    NextJs(nextjs::NextJsDetector),
    GoCache(gocache::GoCacheDetector),
    AgentArtifacts(agent::AgentArtifactsDetector),
    BrowserCache(browser::BrowserCacheDetector),
    Docker(docker::DockerDetector),
    Temp(temp::TempDetector),
    WindowsUpdate(winupdate::WindowsUpdateDetector),
}

impl AnyDetector {
    /// The detector's id.
    pub open spec fn spec_id(self) -> Seq<char> {
        match self {
            AnyDetector::Cargo(_) => "cargo"@,
            AnyDetector::PubCache(_) => "pub-cache"@,
            AnyDetector::JsCaches(_) => "js-caches"@,
            AnyDetector::PipCache(_) => "pip-cache"@,
            AnyDetector::UvCache(_) => "uv-cache"@,
            AnyDetector::PyCache(_) => "pycache"@,
            AnyDetector::PyTestCaches(_) => "pytest-caches"@,
            AnyDetector::Vite(_) => "vite-build"@,
            AnyDetector::Angular(_) => "angular-build"@,
            AnyDetector::DotNet(_) => "dotnet-build"@,
            AnyDetector::Gradle(_) => "gradle"@,
            AnyDetector::Android(_) => "android-sdk"@,
            AnyDetector::Flutter(_) => "flutter-build"@,
            AnyDetector::NextJs(_) => "nextjs-build"@,
            AnyDetector::GoCache(_) => "go-cache"@,
            AnyDetector::AgentArtifacts(_) => "agent-artifacts"@,
            AnyDetector::BrowserCache(_) => "browser-cache"@,
            AnyDetector::Docker(_) => "docker"@,
            AnyDetector::Temp(_) => "temp"@,
            AnyDetector::WindowsUpdate(_) => "windows-update"@,
        }
    }

    /// The detector's label.
    pub open spec fn spec_label(self) -> Seq<char> {
        match self {
            AnyDetector::Cargo(_) => "Cargo registry + build output"@,
            AnyDetector::PubCache(_) => "Dart pub package cache"@,
            AnyDetector::JsCaches(_) => "npm / pnpm / yarn caches"@,
            AnyDetector::PipCache(_) => "pip package cache"@,
            AnyDetector::UvCache(_) => "uv package cache"@,
            AnyDetector::PyCache(_) => "Python bytecode caches"@,
            AnyDetector::PyTestCaches(_) => "Python test/lint caches"@,
            AnyDetector::Vite(_) => "Vite dependency cache"@,
            AnyDetector::Angular(_) => "Angular build cache"@,
            AnyDetector::DotNet(_) => ".NET build output"@,
            AnyDetector::Gradle(_) => "Gradle wrappers + caches"@,
            AnyDetector::Android(_) => "Android SDK components"@,
            AnyDetector::Flutter(_) => "Flutter build output"@,
            AnyDetector::NextJs(_) => "Next.js build output"@,
            AnyDetector::GoCache(_) => "Go build and module caches"@,
            AnyDetector::AgentArtifacts(_) => "AI agent task artifacts"@,
            AnyDetector::BrowserCache(_) => "Browser web caches"@,
            AnyDetector::Docker(_) => "Docker Desktop data disk"@,
            AnyDetector::Temp(_) => "Stale temp files"@,
            AnyDetector::WindowsUpdate(_) => "Windows update leftovers"@,
        }
    }
}

impl Detector for AnyDetector {
    fn id(&self) -> (r: &'static str)
        ensures
            r@ == self.spec_id(),
    {
        match self {
            AnyDetector::Cargo(d) => d.id(),
            AnyDetector::PubCache(d) => d.id(),
            AnyDetector::JsCaches(d) => d.id(),
            AnyDetector::PipCache(d) => d.id(),
            AnyDetector::UvCache(d) => d.id(),
            AnyDetector::PyCache(d) => d.id(),
            AnyDetector::PyTestCaches(d) => d.id(),
            AnyDetector::Vite(d) => d.id(),
            AnyDetector::Angular(d) => d.id(),
            AnyDetector::DotNet(d) => d.id(),
            AnyDetector::Gradle(d) => d.id(),
            AnyDetector::Android(d) => d.id(),
            AnyDetector::Flutter(d) => d.id(),
            AnyDetector::NextJs(d) => d.id(),
            AnyDetector::GoCache(d) => d.id(),
            AnyDetector::AgentArtifacts(d) => d.id(),
            AnyDetector::BrowserCache(d) => d.id(),
            AnyDetector::Docker(d) => d.id(),
            AnyDetector::Temp(d) => d.id(),
            AnyDetector::WindowsUpdate(d) => d.id(),
        }
    }

    fn label(&self) -> (r: &'static str)
        ensures
            r@ == self.spec_label(),
    {
        match self {
            AnyDetector::Cargo(d) => d.label(),
            AnyDetector::PubCache(d) => d.label(),
            AnyDetector::JsCaches(d) => d.label(),
            AnyDetector::PipCache(d) => d.label(),
            AnyDetector::UvCache(d) => d.label(),
            AnyDetector::PyCache(d) => d.label(),
            AnyDetector::PyTestCaches(d) => d.label(),
            AnyDetector::Vite(d) => d.label(),
            AnyDetector::Angular(d) => d.label(),
            AnyDetector::DotNet(d) => d.label(),
            AnyDetector::Gradle(d) => d.label(),
            AnyDetector::Android(d) => d.label(),
            AnyDetector::Flutter(d) => d.label(),
            AnyDetector::NextJs(d) => d.label(),
            AnyDetector::GoCache(d) => d.label(),
            AnyDetector::AgentArtifacts(d) => d.label(),
            AnyDetector::BrowserCache(d) => d.label(),
            AnyDetector::Docker(d) => d.label(),
            AnyDetector::Temp(d) => d.label(),
            AnyDetector::WindowsUpdate(d) => d.label(),
        }
    }
}

/// The ids of the registry, in registry order (the display order before
/// ranking by size).
pub open spec fn registry_ids() -> Seq<Seq<char>> {
    seq![
        "cargo"@,
        "pub-cache"@,
        "js-caches"@,
        "pip-cache"@,
        "uv-cache"@,
        "pycache"@,
        "pytest-caches"@,
        "vite-build"@,
        "angular-build"@,
        "dotnet-build"@,
        "gradle"@,
        "android-sdk"@,
        "flutter-build"@,
        "nextjs-build"@,
        "go-cache"@,
        "agent-artifacts"@,
        "browser-cache"@,
        "docker"@,
        "temp"@,
        "windows-update"@
    ]
}

/// All detectors in registry order.
pub fn all_detectors() -> (r: Vec<AnyDetector>)
    ensures
        r@.len() == registry_ids().len(),
        forall|i: int| 0 <= i < r@.len() ==> #[trigger] r@[i].spec_id() == registry_ids()[i],
{
    let mut v: Vec<AnyDetector> = Vec::new();
    v.push(AnyDetector::Cargo(cargo::CargoDetector));
    v.push(AnyDetector::PubCache(pubcache::PubCacheDetector));
    v.push(AnyDetector::JsCaches(jscaches::JsCachesDetector));
    v.push(AnyDetector::PipCache(pip_cache::PipCacheDetector));
    v.push(AnyDetector::UvCache(uv_cache::UvCacheDetector));
    v.push(AnyDetector::PyCache(pycache::PyCacheDetector));
    v.push(AnyDetector::PyTestCaches(pytest_caches::PyTestCachesDetector));
    v.push(AnyDetector::Vite(vite::ViteDetector));
    v.push(AnyDetector::Angular(angular::AngularDetector));
    v.push(AnyDetector::DotNet(dotnet::DotNetDetector));
    v.push(AnyDetector::Gradle(gradle::GradleDetector));
    v.push(AnyDetector::Android(android::AndroidDetector));
    v.push(AnyDetector::Flutter(flutter::FlutterDetector));
    v.push(AnyDetector::NextJs(nextjs::NextJsDetector));
    v.push(AnyDetector::GoCache(gocache::GoCacheDetector));
    v.push(AnyDetector::AgentArtifacts(agent::AgentArtifactsDetector));
    v.push(AnyDetector::BrowserCache(browser::BrowserCacheDetector));
    v.push(AnyDetector::Docker(docker::DockerDetector));
    v.push(AnyDetector::Temp(temp::TempDetector));
    v.push(AnyDetector::WindowsUpdate(winupdate::WindowsUpdateDetector));
    v
}

/// Name comparison following filesystem rules: ASCII case-insensitive on
/// Windows, exact elsewhere.
pub open spec fn spec_name_matches(known: Seq<char>, actual: Seq<char>, windows: bool) -> bool {
    if windows {
        eq_ascii_ci(known, actual)
    } else {
        known == actual
    }
}

/// Whether a directory or file name is `known`, by the platform's rules.
pub fn name_matches(known: &str, actual: &str, windows: bool) -> (r: bool)
    ensures
        r == spec_name_matches(known@, actual@, windows),
{
    if windows {
        str_eq_ascii_ci(known, actual)
    } else {
        str_eq(known, actual)
    }
}

/// A location a detector reports when it holds bytes.
pub struct Candidate {
    pub label: String,
    pub path: String,
    pub safety: Safety,
    pub detail: String,
}

/// What the filesystem says about a candidate location: a directory, a
/// link (or reparse point), and the logical bytes of its tree.
pub struct DirProbe {
    pub is_dir: bool,
    pub is_link: bool,
    pub bytes: u64,
}

/// A candidate is reported when it is a real directory holding bytes.
pub open spec fn reported(p: DirProbe) -> bool {
    p.is_dir && !p.is_link && p.bytes > 0
}

/// `f` is the removal finding of detector `id` for candidate `c` sized
/// `bytes`.
pub open spec fn finding_for(f: Finding, id: Seq<char>, c: Candidate, bytes: u64) -> bool {
    &&& f.detector_id@ == id
    &&& f.label@ == c.label@
    &&& f.bytes == bytes
    &&& f.safety == c.safety
    &&& f.detail@ == c.detail@
    &&& f.action matches CleanAction::RemovePath { path } && path@ == c.path@
}

/// A removal finding for a candidate directory, sized on the spot; `None`
/// when it is not a directory, is a link, or is empty.
pub fn dir_finding(detector_id: &str, c: Candidate, probe: &DirProbe) -> (r: Option<Finding>)
    ensures
        r is Some <==> reported(*probe),
        r matches Some(f) ==> finding_for(f, detector_id@, c, probe.bytes),
{
    if !probe.is_dir || probe.is_link || probe.bytes == 0 {
        return None;
    }
    Some(Finding {
        detector_id: detector_id.to_owned(),
        label: c.label,
        bytes: probe.bytes,
        safety: c.safety,
        detail: c.detail,
        action: CleanAction::RemovePath { path: c.path },
    })
}

/// `a` ranks strictly before `b`: larger first, then by detector id, then
/// by label.
pub open spec fn ranks_before(a: Finding, b: Finding) -> bool {
    ||| a.bytes > b.bytes
    ||| a.bytes == b.bytes && text_lt(a.detector_id@, b.detector_id@)
    ||| a.bytes == b.bytes && a.detector_id@ == b.detector_id@ && text_lt(a.label@, b.label@)
}

/// No finding of `s` ranks before an earlier one.
pub open spec fn ranked(s: Seq<Finding>) -> bool {
    forall|i: int, j: int| 0 <= i < j < s.len() ==> !ranks_before(#[trigger] s[j], #[trigger] s[i])
}

/// Ranking is transitive.
pub proof fn lemma_ranks_transitive(a: Finding, b: Finding, c: Finding)
    requires
        ranks_before(a, b),
        ranks_before(b, c),
    ensures
        ranks_before(a, c),
{
    if a.bytes == b.bytes && b.bytes == c.bytes {
        if text_lt(a.detector_id@, b.detector_id@) && text_lt(b.detector_id@, c.detector_id@) {
            lemma_text_lt_transitive(a.detector_id@, b.detector_id@, c.detector_id@);
        }
        if text_lt(a.label@, b.label@) && text_lt(b.label@, c.label@) {
            lemma_text_lt_transitive(a.label@, b.label@, c.label@);
        }
    }
}

/// Ranking is asymmetric.
pub proof fn lemma_ranks_asymmetric(a: Finding, b: Finding)
    requires
        ranks_before(a, b),
    ensures
        !ranks_before(b, a),
{
    if ranks_before(b, a) {
        lemma_ranks_transitive(a, b, a);
        lemma_text_lt_irreflexive(a.detector_id@);
        lemma_text_lt_irreflexive(a.label@);
    }
}

/// What ranking compares of a finding: its bytes, detector id and label.
pub open spec fn rank_key(f: Finding) -> (u64, Seq<char>, Seq<char>) {
    (f.bytes, f.detector_id@, f.label@)
}

/// The findings of `s` with ranking key `k`, in their order in `s`.
pub open spec fn with_key(s: Seq<Finding>, k: (u64, Seq<char>, Seq<char>)) -> Seq<Finding>
    decreases s.len(),
{
    if s.len() == 0 {
        Seq::empty()
    } else {
        with_key(s.drop_last(), k) + if rank_key(s.last()) == k { seq![s.last()] } else { Seq::empty() }
    }
}

/// Picking by key distributes over concatenation.
pub proof fn lemma_with_key_add(a: Seq<Finding>, b: Seq<Finding>, k: (u64, Seq<char>, Seq<char>))
    ensures
        with_key(a + b, k) == with_key(a, k) + with_key(b, k),
    decreases b.len(),
{
    if b.len() == 0 {
        assert(a + b =~= a);
        assert(with_key(a, k) + with_key(b, k) =~= with_key(a, k));
    } else {
        assert((a + b).drop_last() =~= a + b.drop_last());
        assert((a + b).last() == b.last());
        lemma_with_key_add(a, b.drop_last(), k);
        assert(with_key(a + b, k) =~= with_key(a, k) + with_key(b, k));
    }
}

/// No finding of `s` has key `k`, so none is picked.
pub proof fn lemma_with_key_none(s: Seq<Finding>, k: (u64, Seq<char>, Seq<char>))
    requires
        forall|i: int| 0 <= i < s.len() ==> rank_key(#[trigger] s[i]) != k,
    ensures
        with_key(s, k) == Seq::<Finding>::empty(),
    decreases s.len(),
{
    if s.len() > 0 {
        assert forall|i: int| 0 <= i < s.drop_last().len() implies rank_key(#[trigger] s.drop_last()[i]) != k by {
            assert(s.drop_last()[i] == s[i]);
        }
        lemma_with_key_none(s.drop_last(), k);
        assert(rank_key(s[s.len() - 1]) != k);
        assert(with_key(s, k) =~= Seq::<Finding>::empty());
    }
}

/// A single finding is picked exactly when it has the key.
pub proof fn lemma_with_key_one(x: Finding, k: (u64, Seq<char>, Seq<char>))
    ensures
        with_key(seq![x], k) == if rank_key(x) == k { seq![x] } else { Seq::<Finding>::empty() },
{
    assert(seq![x].drop_last() =~= Seq::<Finding>::empty());
    assert(with_key(seq![x].drop_last(), k) =~= Seq::<Finding>::empty());
    assert(seq![x].last() == x);
    assert(with_key(seq![x], k) =~= if rank_key(x) == k { seq![x] } else { Seq::<Finding>::empty() });
}

/// Two findings with different keys are ranked one way or the other.
pub proof fn lemma_ranks_total(a: Finding, b: Finding)
    requires
        rank_key(a) != rank_key(b),
    ensures
        ranks_before(a, b) || ranks_before(b, a),
{
    if a.bytes == b.bytes {
        if a.detector_id@ != b.detector_id@ {
            lemma_text_lt_total(a.detector_id@, b.detector_id@);
        } else {
            assert(a.label@ != b.label@);
            lemma_text_lt_total(a.label@, b.label@);
        }
    }
}

/// What is picked by key comes from the sequence and has the key.
pub proof fn lemma_with_key_members(s: Seq<Finding>, k: (u64, Seq<char>, Seq<char>))
    ensures
        forall|i: int| 0 <= i < with_key(s, k).len() ==> {
            &&& rank_key(#[trigger] with_key(s, k)[i]) == k
            &&& s.contains(with_key(s, k)[i])
        },
    decreases s.len(),
{
    if s.len() > 0 {
        let p = s.drop_last();
        lemma_with_key_members(p, k);
        assert forall|i: int| 0 <= i < with_key(s, k).len() implies {
            &&& rank_key(#[trigger] with_key(s, k)[i]) == k
            &&& s.contains(with_key(s, k)[i])
        } by {
            if i < with_key(p, k).len() {
                assert(with_key(s, k)[i] == with_key(p, k)[i]);
                let j = choose|j: int| 0 <= j < p.len() && p[j] == with_key(p, k)[i];
                assert(s[j] == p[j]);
            } else {
                assert(with_key(s, k)[i] == s.last());
                assert(s[s.len() - 1] == s.last());
            }
        }
    }
}

/// Whether `a` ranks strictly before `b`.
fn ranks_ahead(a: &Finding, b: &Finding) -> (r: bool)
    ensures
        r == ranks_before(*a, *b),
{
    if a.bytes != b.bytes {
        return a.bytes > b.bytes;
    }
    if text_less(a.detector_id.as_str(), b.detector_id.as_str()) {
        return true;
    }
    str_eq(a.detector_id.as_str(), b.detector_id.as_str()) && text_less(a.label.as_str(), b.label.as_str())
}

/// Orders findings largest first, ties by detector id and then label; a
/// finding is placed after every earlier one it does not outrank, so
/// findings equal in all three keep their order.
pub fn rank(findings: Vec<Finding>) -> (r: Vec<Finding>)
    ensures
        r@.to_multiset() == findings@.to_multiset(),
        ranked(r@),
        forall|k: (u64, Seq<char>, Seq<char>)| #[trigger] with_key(r@, k) == with_key(findings@, k),
{
    broadcast use vstd::seq_lib::group_to_multiset_ensures, vstd::multiset::group_multiset_axioms;
    let ghost all = findings@;
    let ghost mut n: int = 0;
    let mut rest = findings;
    let mut out: Vec<Finding> = Vec::new();
    assert(out@ =~= Seq::<Finding>::empty());
    assert(out@.to_multiset() =~= vstd::multiset::Multiset::empty());
    assert(all.skip(0) =~= all);
    assert forall|k: (u64, Seq<char>, Seq<char>)| #[trigger] with_key(out@, k) == with_key(all.take(0), k) by {
        assert(all.take(0) =~= Seq::<Finding>::empty());
    }
    while rest.len() > 0
        invariant
            0 <= n <= all.len(),
            rest@ == all.skip(n),
            out@.to_multiset().add(rest@.to_multiset()) == all.to_multiset(),
            ranked(out@),
            forall|k: (u64, Seq<char>, Seq<char>)| #[trigger] with_key(out@, k) == with_key(all.take(n), k),
        decreases rest@.len(),
    {
        let ghost before = rest@;
        let x = rest.remove(0);
        let mut p: usize = 0;
        while p < out.len() && !ranks_ahead(&x, &out[p])
            invariant
                p <= out@.len(),
                forall|k: int| 0 <= k < p ==> !ranks_before(x, #[trigger] out@[k]),
            decreases out@.len() - p,
        {
            p = p + 1;
        }
        let ghost old_out = out@;
        proof {
            assert forall|k: int| p <= k < old_out.len() implies !ranks_before(#[trigger] old_out[k], x) by {
                if ranks_before(old_out[k], x) {
                    if k == p {
                        lemma_ranks_asymmetric(x, old_out[p as int]);
                    } else {
                        lemma_ranks_transitive(old_out[k], x, old_out[p as int]);
                    }
                }
            }
        }
        out.insert(p, x);
        proof {
            assert(out@ == old_out.insert(p as int, x));
            assert forall|i: int, j: int| 0 <= i < j < out@.len() implies !ranks_before(#[trigger] out@[j], #[trigger] out@[i]) by {
                if j < p {
                    assert(out@[i] == old_out[i] && out@[j] == old_out[j]);
                } else if j == p {
                    assert(out@[i] == old_out[i]);
                } else if i == p {
                    assert(out@[j] == old_out[j - 1]);
                } else if i < p {
                    assert(out@[i] == old_out[i] && out@[j] == old_out[j - 1]);
                } else {
                    assert(out@[i] == old_out[i - 1] && out@[j] == old_out[j - 1]);
                }
            }
            assert(before =~= rest@.insert(0, x));
            vstd::seq_lib::to_multiset_insert(rest@, 0, x);
            vstd::seq_lib::to_multiset_insert(old_out, p as int, x);
            assert(before.to_multiset() == rest@.to_multiset().insert(x));
            assert(out@.to_multiset() == old_out.to_multiset().insert(x));
            assert(out@.to_multiset().add(rest@.to_multiset()) =~= old_out.to_multiset().add(before.to_multiset()));
            lemma_rank_keeps_ties(all, n, old_out, p as int, x);
            n = n + 1;
            assert(rest@ =~= all.skip(n));
        }
    }
    assert(rest@ =~= Seq::<Finding>::empty());
    assert(rest@.to_multiset() =~= vstd::multiset::Multiset::empty());
    assert(out@.to_multiset().add(rest@.to_multiset()) =~= out@.to_multiset());
    assert(all.take(n) =~= all);
    out
}

/// Inserting the next finding `x = all[n]` at `p`, after every finding it
/// does not outrank, keeps findings of equal key in their order in `all`.
proof fn lemma_rank_keeps_ties(all: Seq<Finding>, n: int, old_out: Seq<Finding>, p: int, x: Finding)
    requires
        0 <= n < all.len(),
        x == all[n],
        0 <= p <= old_out.len(),
        ranked(old_out),
        p < old_out.len() ==> ranks_before(x, old_out[p]),
        forall|k: (u64, Seq<char>, Seq<char>)| #[trigger] with_key(old_out, k) == with_key(all.take(n), k),
    ensures
        forall|k: (u64, Seq<char>, Seq<char>)| #[trigger] with_key(old_out.insert(p, x), k) == with_key(all.take(n + 1), k),
{
    let a = old_out.take(p);
    let b = old_out.skip(p);
    assert(old_out =~= a + b);
    assert(old_out.insert(p, x) =~= (a + seq![x]) + b);
    assert(all.take(n + 1) =~= all.take(n) + seq![x]);
    assert forall|k: (u64, Seq<char>, Seq<char>)| #[trigger] with_key(old_out.insert(p, x), k) == with_key(all.take(n + 1), k) by {
        lemma_with_key_add(a + seq![x], b, k);
        lemma_with_key_add(a, seq![x], k);
        lemma_with_key_add(a, b, k);
        lemma_with_key_add(all.take(n), seq![x], k);
        lemma_with_key_one(x, k);
        if rank_key(x) == k {
            assert forall|i: int| 0 <= i < b.len() implies rank_key(#[trigger] b[i]) != k by {
                assert(b[i] == old_out[p + i]);
                if rank_key(b[i]) == k {
                    let y = b[i];
                    assert(y.bytes == x.bytes && y.detector_id@ == x.detector_id@ && y.label@ == x.label@);
                    if i == 0 {
                        lemma_text_lt_irreflexive(x.detector_id@);
                        lemma_text_lt_irreflexive(x.label@);
                    } else {
                        assert(ranks_before(old_out[p + i], old_out[p]));
                    }
                }
            }
            lemma_with_key_none(b, k);
            assert(with_key(b, k) + Seq::<Finding>::empty() =~= with_key(b, k));
            assert(with_key(old_out.insert(p, x), k) =~= with_key(old_out, k) + seq![x]);
        } else {
            assert(with_key(a, k) + Seq::<Finding>::empty() =~= with_key(a, k));
            assert(with_key(all.take(n), k) + Seq::<Finding>::empty() =~= with_key(all.take(n), k));
        }
    }
}

/// `id` is one of `ids`.
pub open spec fn listed(ids: Seq<String>, id: Seq<char>) -> bool {
    exists|k: int| 0 <= k < ids.len() && #[trigger] ids[k]@ == id
}

/// A detector runs when no ids are requested or its id is requested, and
/// Docker only while Docker detection is enabled.
pub open spec fn spec_selected(id: Seq<char>, ids: Seq<String>, docker_enabled: bool) -> bool {
    &&& ids.len() == 0 || listed(ids, id)
    &&& id != "docker"@ || docker_enabled
}

/// Whether `id` is one of `ids`.
fn is_listed(ids: &[String], id: &str) -> (r: bool)
    ensures
        r == listed(ids@, id@),
{
    let mut k: usize = 0;
    while k < ids.len()
        invariant
            k <= ids@.len(),
            forall|j: int| 0 <= j < k ==> #[trigger] ids@[j]@ != id@,
        decreases ids@.len() - k,
    {
        if str_eq(ids[k].as_str(), id) {
            return true;
        }
        k = k + 1;
    }
    false
}

/// Whether the detector `id` runs for the requested `ids`.
pub fn is_selected(id: &str, ids: &[String], docker_enabled: bool) -> (r: bool)
    ensures
        r == spec_selected(id@, ids@, docker_enabled),
{
    proof {
        reveal_strlit("docker");
    }
    (ids.len() == 0 || is_listed(ids, id)) && (!str_eq(id, "docker") || docker_enabled)
}

/// The findings one detector reported.
pub struct DetectorReport {
    pub id: String,
    pub findings: Vec<Finding>,
}

/// The findings of the selected reports, in report order.
pub open spec fn gathered(reports: Seq<DetectorReport>, ids: Seq<String>, docker_enabled: bool) -> Seq<Finding>
    decreases reports.len(),
{
    if reports.len() == 0 {
        Seq::empty()
    } else {
        let last = reports.last();
        gathered(reports.drop_last(), ids, docker_enabled) + if spec_selected(last.id@, ids, docker_enabled) {
            last.findings@
        } else {
            Seq::empty()
        }
    }
}

/// The findings of the requested detectors (all when `ids` is empty),
/// ranked largest first with ties by detector id and label; findings
/// equal in all three stay in report order.
pub fn scan_selected(ctx: &Ctx, ids: &[String], reports: Vec<DetectorReport>) -> (r: Vec<Finding>)
    ensures
        r@.to_multiset() == gathered(reports@, ids@, ctx.docker_enabled).to_multiset(),
        ranked(r@),
        forall|k: (u64, Seq<char>, Seq<char>)| #[trigger] with_key(r@, k) == with_key(gathered(reports@, ids@, ctx.docker_enabled), k),
{
    let ghost all = reports@;
    let mut rest = reports;
    let mut out: Vec<Finding> = Vec::new();
    let ghost mut taken: nat = 0;
    while rest.len() > 0
        invariant
            taken <= all.len(),
            rest@ == all.skip(taken as int),
            out@ == gathered(all.take(taken as int), ids@, ctx.docker_enabled),
        decreases rest@.len(),
    {
        let mut rep = rest.remove(0);
        proof {
            assert(rep == all[taken as int]);
            assert(all.take(taken + 1int).drop_last() =~= all.take(taken as int));
            assert(all.take(taken + 1int).last() == all[taken as int]);
        }
        if is_selected(rep.id.as_str(), ids, ctx.docker_enabled) {
            out.append(&mut rep.findings);
        }
        proof {
            taken = taken + 1;
            assert(rest@ =~= all.skip(taken as int));
            assert(out@ =~= gathered(all.take(taken as int), ids@, ctx.docker_enabled));
        }
    }
    assert(all.take(taken as int) =~= all);
    rank(out)
}

/// The findings of every detector, ranked largest first.
pub fn scan_all(ctx: &Ctx, reports: Vec<DetectorReport>) -> (r: Vec<Finding>)
    ensures
        r@.to_multiset() == gathered(reports@, Seq::empty(), ctx.docker_enabled).to_multiset(),
        ranked(r@),
        forall|k: (u64, Seq<char>, Seq<char>)| #[trigger] with_key(r@, k) == with_key(gathered(reports@, Seq::empty(), ctx.docker_enabled), k),
{
    let none: Vec<String> = Vec::new();
    scan_selected(ctx, none.as_slice(), reports)
}

/// `id` names a registered detector.
pub open spec fn known_id(id: Seq<char>) -> bool {
    registry_ids().contains(id)
}

/// The first requested id that names no detector.
pub open spec fn first_unknown(ids: Seq<String>) -> Option<Seq<char>>
    decreases ids.len(),
{
    if ids.len() == 0 {
        None
    } else if !known_id(ids[0]@) {
        Some(ids[0]@)
    } else {
        first_unknown(ids.drop_first())
    }
}

/// Whether `id` names a registered detector.
pub fn is_known_id(id: &str) -> (r: bool)
    ensures
        r == known_id(id@),
{
    let ds = all_detectors();
    let mut i: usize = 0;
    while i < ds.len()
        invariant
            ds@.len() == registry_ids().len(),
            forall|k: int| 0 <= k < ds@.len() ==> #[trigger] ds@[k].spec_id() == registry_ids()[k],
            i <= ds@.len(),
            forall|k: int| 0 <= k < i ==> registry_ids()[k] != id@,
        decreases ds@.len() - i,
    {
        let d = ds[i].id();
        assert(ds@[i as int].spec_id() == registry_ids()[i as int]);
        if str_eq(d, id) {
            return true;
        }
        i = i + 1;
    }
    false
}

/// Refuses the first requested id that names no detector, with the text
/// `unknown detector --id: <id>`.
pub fn validate_ids(ids: &[String]) -> (r: Result<(), String>)
    ensures
        match first_unknown(ids@) {
            None => r is Ok,
            Some(id) => r matches Err(e) && e@ == "unknown detector --id: "@ + id,
        },
{
    let mut k: usize = 0;
    assert(ids@.skip(0) =~= ids@);
    while k < ids.len()
        invariant
            k <= ids@.len(),
            first_unknown(ids@) == first_unknown(ids@.skip(k as int)),
        decreases ids@.len() - k,
    {
        assert(ids@.skip(k as int)[0] == ids@[k as int]);
        assert(ids@.skip(k as int).drop_first() =~= ids@.skip(k + 1));
        if !is_known_id(ids[k].as_str()) {
            return Err(concat("unknown detector --id: ", ids[k].as_str()));
        }
        k = k + 1;
    }
    assert(ids@.skip(k as int).len() == 0);
    Ok(())
}

/// The findings of requested detectors, in order.
pub open spec fn kept_ids(fs: Seq<Finding>, ids: Seq<String>) -> Seq<Finding>
    decreases fs.len(),
{
    if fs.len() == 0 {
        Seq::empty()
    } else {
        kept_ids(fs.drop_last(), ids) + if ids.len() == 0 || listed(ids, fs.last().detector_id@) {
            seq![fs.last()]
        } else {
            Seq::empty()
        }
    }
}

/// Keeps only the findings of the requested detectors (all of them when
/// none is requested).
pub fn retain_ids(findings: &mut Vec<Finding>, ids: &[String])
    ensures
        final(findings)@ == kept_ids(old(findings)@, ids@),
{
    let ghost all = findings@;
    let mut out: Vec<Finding> = Vec::new();
    let ghost mut taken: nat = 0;
    while findings.len() > 0
        invariant
            taken <= all.len(),
            findings@ == all.skip(taken as int),
            out@ == kept_ids(all.take(taken as int), ids@),
        decreases findings@.len(),
    {
        let f = findings.remove(0);
        proof {
            assert(f == all[taken as int]);
            assert(all.take(taken + 1int).drop_last() =~= all.take(taken as int));
            assert(all.take(taken + 1int).last() == all[taken as int]);
        }
        let keep = ids.len() == 0 || is_listed(ids, f.detector_id.as_str());
        if keep {
            out.push(f);
        }
        proof {
            taken = taken + 1;
            assert(findings@ =~= all.skip(taken as int));
            assert(out@ =~= kept_ids(all.take(taken as int), ids@));
        }
    }
    assert(all.take(taken as int) =~= all);
    *findings = out;
}

/// What `serde_json` reads from a `package.json` text at
/// `<section>.<dep>`: `None` when the text is not JSON, else whether the
/// entry is present and its text when it is a JSON string.
pub uninterp spec fn manifest_entry(text: Seq<char>, section: Seq<char>, dep: Seq<char>) -> Option<(bool, Option<Seq<char>>)>;

/// The view of a manifest entry.
pub open spec fn entry_view(e: Option<(bool, Option<String>)>) -> Option<(bool, Option<Seq<char>>)> {
    match e {
        Some((present, Some(s))) => Some((present, Some(s@))),
        Some((present, None)) => Some((present, None)),
        None => None,
    }
}

/// `serde_json::from_str` into a `serde_json::Value`, then `Value::get`
/// for the section and for the dependency, then `Value::as_str`. Claimed:
/// the answer is a function of the three texts, and a string entry is a
/// present one.
#[verifier::external_body]
pub(crate) fn read_manifest_entry(text: &str, section: &str, dep: &str) -> (r: Option<(bool, Option<String>)>)
    ensures
        entry_view(r) == manifest_entry(text@, section@, dep@),
        r matches Some((present, Some(_))) ==> present,
{
    let json: serde_json::Value = serde_json::from_str(text).ok()?;
    let entry = json.get(section).and_then(|d| d.get(dep));
    Some((entry.is_some(), entry.and_then(|v| v.as_str()).map(|s| s.to_owned())))
}

/// The manifest sections that declare dependencies.
pub open spec fn dependency_sections() -> Seq<Seq<char>> {
    seq!["dependencies"@, "devDependencies"@, "peerDependencies"@]
}

/// `dep` is listed in `section` with a non-blank version text.
pub open spec fn declares_dep(text: Seq<char>, section: Seq<char>, dep: Seq<char>) -> bool {
    manifest_entry(text, section, dep) matches Some((_, Some(v))) && trim_ws(v).len() > 0
}

/// A `package.json` text lists `dep` with a non-blank version string in
/// `dependencies`, `devDependencies` or `peerDependencies`.
pub open spec fn spec_package_has_dep(text: Seq<char>, dep: Seq<char>) -> bool {
    exists|k: int| 0 <= k < 3 && declares_dep(text, #[trigger] dependency_sections()[k], dep)
}

/// Whether one section declares `dep` with a non-blank version string.
fn section_declares(text: &str, section: &str, dep: &str) -> (r: bool)
    ensures
        r == declares_dep(text@, section@, dep@),
{
    match read_manifest_entry(text, section, dep) {
        Some((_, Some(v))) => trim(v.as_str()).unicode_len() > 0,
        _ => false,
    }
}

/// Whether a `package.json` text lists `dep` with a version string in
/// one of its dependency sections. Broken JSON lists nothing.
pub fn package_has_dep(text: &str, dep: &str) -> (r: bool)
    ensures
        r == spec_package_has_dep(text@, dep@),
{
    proof {
        reveal_strlit("dependencies");
        reveal_strlit("devDependencies");
        reveal_strlit("peerDependencies");
    }
    let a = section_declares(text, "dependencies", dep);
    let b = section_declares(text, "devDependencies", dep);
    let c = section_declares(text, "peerDependencies", dep);
    proof {
        if a {
            assert(declares_dep(text@, dependency_sections()[0], dep@));
        }
        if b {
            assert(declares_dep(text@, dependency_sections()[1], dep@));
        }
        if c {
            assert(declares_dep(text@, dependency_sections()[2], dep@));
        }
        if !a && !b && !c {
            assert forall|k: int| 0 <= k < 3 implies !declares_dep(text@, #[trigger] dependency_sections()[k], dep@) by {
                if k == 0 {
                } else if k == 1 {
                } else {
                }
            }
        }
    }
    a || b || c
}

/// `c` is the candidate `label` at `path`, with `safety` and `detail`.
pub open spec fn is_candidate(c: Candidate, label: Seq<char>, path: Seq<char>, safety: Safety, detail: Seq<char>) -> bool {
    &&& c.label@ == label
    &&& c.path@ == path
    &&& c.safety == safety
    &&& c.detail@ == detail
}

/// A candidate location.
pub fn candidate(label: String, path: String, safety: Safety, detail: &str) -> (r: Candidate)
    ensures
        is_candidate(r, label@, path@, safety, detail@),
{
    Candidate { label, path, safety, detail: detail.to_owned() }
}

/// `name` is one of `list` by the platform's rules.
pub open spec fn matches_listed(list: Seq<Seq<char>>, name: Seq<char>, windows: bool) -> bool {
    exists|k: int| 0 <= k < list.len() && spec_name_matches(#[trigger] list[k], name, windows)
}

/// Whether `name` is one of `list` by the platform's rules.
pub fn matches_any(list: &Vec<&'static str>, name: &str, windows: bool) -> (r: bool)
    ensures
        r == matches_listed(list@.map_values(|s: &'static str| s@), name@, windows),
{
    let ghost l = list@.map_values(|s: &'static str| s@);
    let mut k: usize = 0;
    while k < list.len()
        invariant
            l == list@.map_values(|s: &'static str| s@),
            k <= list@.len(),
            forall|j: int| 0 <= j < k ==> !spec_name_matches(#[trigger] l[j], name@, windows),
        decreases list@.len() - k,
    {
        if name_matches(list[k], name, windows) {
            assert(spec_name_matches(l[k as int], name@, windows));
            return true;
        }
        k = k + 1;
    }
    false
}

/// Directory names a project walk never enters.
pub open spec fn project_walk_skips() -> Seq<Seq<char>> {
    seq![
        "build"@, ".dart_tool"@, "node_modules"@, ".git"@, "target"@, ".next"@, "out"@, "dist"@,
        ".gradle"@, "Pods"@, ".venv"@, "venv"@, "__pycache__"@
    ]
}

/// The directory names a project walk never enters.
pub fn project_walk_skip_list() -> (r: Vec<&'static str>)
    ensures
        r@.map_values(|s: &'static str| s@) == project_walk_skips(),
{
    let v: Vec<&'static str> = vec![
        "build", ".dart_tool", "node_modules", ".git", "target", ".next", "out", "dist", ".gradle",
        "Pods", ".venv", "venv", "__pycache__",
    ];
    assert(v@.map_values(|s: &'static str| s@) =~= project_walk_skips());
    v
}

/// `path` lies inside one of the managed trees.
pub open spec fn in_managed(path: Seq<char>, managed: Seq<String>) -> bool {
    exists|k: int| 0 <= k < managed.len() && path_within(path, #[trigger] managed[k]@)
}

/// Whether `path` lies inside one of the managed trees.
pub fn is_in_managed(path: &str, managed: &[String]) -> (r: bool)
    ensures
        r == in_managed(path@, managed@),
{
    let key = path_key(path);
    let mut k: usize = 0;
    while k < managed.len()
        invariant
            key.describes(path@),
            k <= managed@.len(),
            forall|j: int| 0 <= j < k ==> !path_within(path@, #[trigger] managed@[j]@),
        decreases managed@.len() - k,
    {
        let base = path_key(managed[k].as_str());
        if key_within(&key, &base) {
            return true;
        }
        k = k + 1;
    }
    false
}

/// A walk below `root` enters the directory `name` at `path` unless it
/// is a link, is named in `skips`, or (for a root outside every managed
/// tree) lies inside a managed tree.
pub open spec fn walk_enters(
    name: Seq<char>,
    path: Seq<char>,
    is_link: bool,
    skips: Seq<Seq<char>>,
    managed: Seq<String>,
    root_outside: bool,
    windows: bool,
) -> bool {
    &&& !(root_outside && in_managed(path, managed))
    &&& !matches_listed(skips, name, windows)
    &&& !is_link
}

/// Whether a walk enters a directory (see [`walk_enters`]).
pub fn enters_dir(
    name: &str,
    path: &str,
    is_link: bool,
    skips: &Vec<&'static str>,
    managed: &[String],
    root_outside: bool,
    windows: bool,
) -> (r: bool)
    ensures
        r == walk_enters(name@, path@, is_link, skips@.map_values(|s: &'static str| s@), managed@, root_outside, windows),
{
    if root_outside && is_in_managed(path, managed) {
        return false;
    }
    !matches_any(skips, name, windows) && !is_link
}

/// Most projects one marker walk reports.
pub const MAX_PROJECTS: usize = 500;

/// Directories found so far: no two the same path, at most `cap`.
pub struct ProjectSet {
    pub dirs: Vec<String>,
    pub cap: usize,
}

impl ProjectSet {
    /// No two directories are the same path and the cap holds.
    pub open spec fn wf(&self) -> bool {
        &&& self.dirs@.len() <= self.cap
        &&& forall|i: int, j: int| 0 <= i < j < self.dirs@.len() ==> !same_path(#[trigger] self.dirs@[i]@, #[trigger] self.dirs@[j]@)
    }

    /// An empty set holding at most `cap` directories.
    pub fn new(cap: usize) -> (r: ProjectSet)
        ensures
            r.wf(),
            r.dirs@.len() == 0,
            r.cap == cap,
    {
        ProjectSet { dirs: Vec::new(), cap }
    }

    /// The cap is reached.
    pub fn is_full(&self) -> (r: bool)
        ensures
            r == (self.dirs@.len() >= self.cap),
    {
        self.dirs.len() >= self.cap
    }

    /// Adds `dir` unless the same path is already there; says whether it
    /// was added.
    pub fn add(&mut self, dir: String) -> (r: bool)
        requires
            old(self).wf(),
            old(self).dirs@.len() < old(self).cap,
        ensures
            final(self).wf(),
            final(self).cap == old(self).cap,
            r == !(exists|i: int| 0 <= i < old(self).dirs@.len() && same_path(#[trigger] old(self).dirs@[i]@, dir@)),
            r ==> final(self).dirs@ == old(self).dirs@.push(dir),
            !r ==> final(self).dirs@ == old(self).dirs@,
    {
        let key = path_key(dir.as_str());
        let mut i: usize = 0;
        while i < self.dirs.len()
            invariant
                key.describes(dir@),
                self.wf(),
                self.dirs@ == old(self).dirs@,
                self.cap == old(self).cap,
                old(self).dirs@.len() < old(self).cap,
                i <= self.dirs@.len(),
                forall|j: int| 0 <= j < i ==> !same_path(#[trigger] self.dirs@[j]@, dir@),
            decreases self.dirs@.len() - i,
        {
            let other = path_key(self.dirs[i].as_str());
            if key_eq(&other, &key) {
                return false;
            }
            i = i + 1;
        }
        self.dirs.push(dir);
        true
    }
}

/// One candidate per name: `<prefix><name><suffix>` at `<base>/<name>`.
pub open spec fn named_candidates_ok(
    r: Seq<Candidate>,
    names: Seq<Seq<char>>,
    prefix: Seq<char>,
    suffix: Seq<char>,
    base: Seq<char>,
    safety: Safety,
    detail: Seq<char>,
) -> bool {
    &&& r.len() == names.len()
    &&& forall|k: int| 0 <= k < r.len() ==> is_candidate(
        #[trigger] r[k],
        prefix + names[k] + suffix,
        spec_join(base, names[k]),
        safety,
        detail,
    )
}

/// One candidate per directory name under `base`.
pub fn named_candidates(
    names: &Vec<String>,
    prefix: &str,
    suffix: &str,
    base: &str,
    safety: Safety,
    detail: &str,
) -> (r: Vec<Candidate>)
    ensures
        named_candidates_ok(r@, names@.map_values(|s: String| s@), prefix@, suffix@, base@, safety, detail@),
{
    let ghost ns = names@.map_values(|s: String| s@);
    let mut out: Vec<Candidate> = Vec::new();
    let mut i: usize = 0;
    while i < names.len()
        invariant
            ns == names@.map_values(|s: String| s@),
            i <= names@.len(),
            out@.len() == i,
            forall|k: int| 0 <= k < i ==> is_candidate(
                #[trigger] out@[k],
                prefix@ + ns[k] + suffix@,
                spec_join(base@, ns[k]),
                safety,
                detail@,
            ),
        decreases names@.len() - i,
    {
        let n = names[i].as_str();
        out.push(candidate(concat3(prefix, n, suffix), join(base, n), safety, detail));
        i = i + 1;
    }
    out
}

} // verus!

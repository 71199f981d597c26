//! uv cache: reported with uv's own commands, never deleted directly.
//!
//! uv documents direct cache modification as unsafe, so the cache is a
//! manual finding. Whether a uv process holds the cache lock (`.lock`) is
//! surfaced upfront. A default-location cache left behind by a
//! `UV_CACHE_DIR` redirect is reported as stale only when its lock is
//! provably free.

use vstd::prelude::*;
use super::{reported, Ctx, DirProbe, Detector};
use super::context::join2;
use crate::model::{CleanAction, Finding, Safety};
use crate::paths::join;
use crate::text::concat3;

verus! {

/// The uv package cache.
pub struct UvCacheDetector;

impl Detector for UvCacheDetector {
    fn id(&self) -> (r: &'static str)
        ensures
            r@ == "uv-cache"@,
    {
        "uv-cache"
    }

    fn label(&self) -> (r: &'static str)
        ensures
            r@ == "uv package cache"@,
    {
        "uv package cache"
    }
}

/// Default-location leftovers below this size are not reported.
pub const ORPHAN_MIN_BYTES: u64 = 52428800;

/// The cache while a uv process holds its lock.
pub open spec fn busy_detail() -> Seq<char> {
    "uv's cache — a uv process is using it right now (cache lock held). Direct modification is unsafe per uv docs."@
}

/// The cache while nothing holds its lock.
pub open spec fn idle_detail() -> Seq<char> {
    "uv's cache. Direct modification is unsafe per uv docs; use uv itself."@
}

/// What to do while the lock is held.
pub open spec fn busy_steps() -> Seq<char> {
    "Close the uv/uvx process using this cache (uvx-launched tools and MCP servers hold the lock for their lifetime), then run `uv cache prune` or `uv cache clean`. Tip: set UV_LOCK_TIMEOUT=10 to fail fast instead of uv's 300s wait."@
}

/// What to do otherwise.
pub open spec fn idle_steps() -> Seq<char> {
    "Run `uv cache prune` (safe refresh) or `uv cache clean` (full wipe)."@
}

/// Why a stale default cache may go.
pub open spec fn orphan_detail() -> Seq<char> {
    "UV_CACHE_DIR points elsewhere and nothing holds this cache's lock; uv never prunes it."@
}

/// A stale default-location cache: the cache is redirected, the default
/// location is another directory than the live cache, exists, and its
/// lock is provably free (`Some(false)`).
pub open spec fn spec_stale_orphan(redirected: bool, same_as_live: bool, default_is_dir: bool, default_lock: Option<bool>) -> bool {
    redirected && !same_as_live && default_is_dir && default_lock == Some(false)
}

/// How to clear a stale default cache at `path` with uv itself.
pub open spec fn orphan_steps(path: Seq<char>) -> Seq<char> {
    "Run `uv cache clean --cache-dir \""@ + path + "\"` to clear this leftover with uv itself."@
}

impl UvCacheDetector {
    /// The report for the live cache holding `bytes` (`None` when it is
    /// not a directory): a non-empty cache is reported as a manual
    /// finding, naming the held lock when `in_use`.
    pub fn live_finding(&self, ctx: &Ctx, bytes: Option<u64>, in_use: bool) -> (r: Option<Finding>)
        ensures
            r is Some <==> (bytes matches Some(b) && b > 0),
            r matches Some(f) ==> {
                &&& f.detector_id@ == "uv-cache"@
                &&& f.label@ == "uv cache"@
                &&& f.bytes == bytes->Some_0
                &&& f.safety == Safety::Caution
                &&& f.detail@ == if in_use { busy_detail() } else { idle_detail() }
                &&& f.action matches CleanAction::Manual { instructions }
                    && instructions@ == if in_use { busy_steps() } else { idle_steps() }
            },
    {
        let b = match bytes {
            Some(b) => b,
            None => return None,
        };
        if b == 0 {
            return None;
        }
        let (detail, steps) = if in_use {
            (
                "uv's cache — a uv process is using it right now (cache lock held). Direct modification is unsafe per uv docs.",
                "Close the uv/uvx process using this cache (uvx-launched tools and MCP servers hold the lock for their lifetime), then run `uv cache prune` or `uv cache clean`. Tip: set UV_LOCK_TIMEOUT=10 to fail fast instead of uv's 300s wait.",
            )
        } else {
            (
                "uv's cache. Direct modification is unsafe per uv docs; use uv itself.",
                "Run `uv cache prune` (safe refresh) or `uv cache clean` (full wipe).",
            )
        };
        Some(Finding {
            detector_id: "uv-cache".to_owned(),
            label: "uv cache".to_owned(),
            bytes: b,
            safety: Safety::Caution,
            detail: detail.to_owned(),
            action: CleanAction::Manual { instructions: steps.to_owned() },
        })
    }

    /// The default cache location under the local data directory.
    pub fn default_location(&self, ctx: &Ctx) -> (r: String)
        ensures
            r@ == join2(ctx.local_app_data@, "uv"@, "cache"@),
    {
        let uv = join(ctx.local_app_data.as_str(), "uv");
        join(uv.as_str(), "cache")
    }

    /// The stale default cache, when it is one (see
    /// [`spec_stale_orphan`]).
    pub fn stale_orphan(&self, ctx: &Ctx, redirected: bool, same_as_live: bool, default_is_dir: bool, default_lock: Option<bool>) -> (r: Option<String>)
        ensures
            r is Some <==> spec_stale_orphan(redirected, same_as_live, default_is_dir, default_lock),
            r matches Some(p) ==> p@ == join2(ctx.local_app_data@, "uv"@, "cache"@),
    {
        let free = match default_lock {
            Some(held) => !held,
            None => false,
        };
        if !redirected || same_as_live || !default_is_dir || !free {
            return None;
        }
        Some(self.default_location(ctx))
    }

    /// The report for a stale default cache at `path` found as `probe`
    /// says: a real directory of at least 50 MiB is reported (caution) with
    /// uv's own command to clear it; it is never deleted directly.
    pub fn orphan_finding(&self, path: &str, probe: &DirProbe) -> (r: Option<Finding>)
        ensures
            r is Some <==> (reported(*probe) && probe.bytes >= ORPHAN_MIN_BYTES),
            r matches Some(f) ==> {
                &&& f.detector_id@ == "uv-cache"@
                &&& f.label@ == "stale default uv cache"@
                &&& f.bytes == probe.bytes
                &&& f.safety == Safety::Caution
                &&& f.detail@ == orphan_detail()
                &&& f.action matches CleanAction::Manual { instructions } && instructions@ == orphan_steps(path@)
            },
    {
        if !probe.is_dir || probe.is_link || probe.bytes < ORPHAN_MIN_BYTES {
            return None;
        }
        Some(Finding {
            detector_id: "uv-cache".to_owned(),
            label: "stale default uv cache".to_owned(),
            bytes: probe.bytes,
            safety: Safety::Caution,
            detail: "UV_CACHE_DIR points elsewhere and nothing holds this cache's lock; uv never prunes it.".to_owned(),
            action: CleanAction::Manual {
                instructions: concat3("Run `uv cache clean --cache-dir \"", path, "\"` to clear this leftover with uv itself."),
            },
        })
    }
}

} // verus!

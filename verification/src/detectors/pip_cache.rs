//! pip cache: HTTP responses and locally built wheels.
//!
//! The cache root is resolved explicitly (platform default or
//! `PIP_CACHE_DIR`); only pip's own cache subdirectories are flagged, so
//! other files kept in the configured root survive. Deleting them equals
//! `pip cache purge`.

use vstd::prelude::*;
use super::{candidate, is_candidate, Candidate, Ctx, Detector};
use crate::model::Safety;
use crate::paths::{join, spec_join};

verus! {

/// The pip package cache.
pub struct PipCacheDetector;

impl Detector for PipCacheDetector {
    fn id(&self) -> (r: &'static str)
        ensures
            r@ == "pip-cache"@,
    {
        "pip-cache"
    }

    fn label(&self) -> (r: &'static str)
        ensures
            r@ == "pip package cache"@,
    {
        "pip package cache"
    }
}

/// Why pip's caches may go.
pub open spec fn pip_detail() -> Seq<char> {
    "HTTP/wheel cache; `pip cache purge` does the same. Re-downloaded on next install."@
}

impl PipCacheDetector {
    /// pip's HTTP caches (old and current layout) and its wheel cache.
    pub fn candidates(&self, ctx: &Ctx) -> (r: Vec<Candidate>)
        ensures
            r@.len() == 3,
            is_candidate(r@[0], "pip cache (http)"@, spec_join(ctx.pip_cache@, "http"@), Safety::Safe, pip_detail()),
            is_candidate(r@[1], "pip cache (http-v2)"@, spec_join(ctx.pip_cache@, "http-v2"@), Safety::Safe, pip_detail()),
            is_candidate(r@[2], "pip cache (wheels)"@, spec_join(ctx.pip_cache@, "wheels"@), Safety::Safe, pip_detail()),
    {
        let p = ctx.pip_cache.as_str();
        let d = "HTTP/wheel cache; `pip cache purge` does the same. Re-downloaded on next install.";
        let mut v: Vec<Candidate> = Vec::new();
        v.push(candidate("pip cache (http)".to_owned(), join(p, "http"), Safety::Safe, d));
        v.push(candidate("pip cache (http-v2)".to_owned(), join(p, "http-v2"), Safety::Safe, d));
        v.push(candidate("pip cache (wheels)".to_owned(), join(p, "wheels"), Safety::Safe, d));
        v
    }
}

} // verus!

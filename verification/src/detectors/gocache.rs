//! Go build and module caches.

use vstd::prelude::*;
use super::{candidate, is_candidate, Candidate, Ctx, Detector};
use crate::model::Safety;

verus! {

/// Go's build and module caches.
pub struct GoCacheDetector;

impl Detector for GoCacheDetector {
    fn id(&self) -> (r: &'static str)
        ensures
            r@ == "go-cache"@,
    {
        "go-cache"
    }

    fn label(&self) -> (r: &'static str)
        ensures
            r@ == "Go build and module caches"@,
    {
        "Go build and module caches"
    }
}

impl GoCacheDetector {
    /// The build cache (safe) and the module cache (caution).
    pub fn candidates(&self, ctx: &Ctx) -> (r: Vec<Candidate>)
        ensures
            r@.len() == 2,
            is_candidate(r@[0], "go build cache"@, ctx.go_build_cache@, Safety::Safe,
                "Rebuilt on next `go build`; `go clean -cache` equivalent."@),
            is_candidate(r@[1], "go module cache"@, ctx.go_mod_cache@, Safety::Caution,
                "Downloaded modules; `go clean -modcache` re-downloads them."@),
    {
        let mut v: Vec<Candidate> = Vec::new();
        v.push(candidate("go build cache".to_owned(), ctx.go_build_cache.clone(), Safety::Safe,
            "Rebuilt on next `go build`; `go clean -cache` equivalent."));
        v.push(candidate("go module cache".to_owned(), ctx.go_mod_cache.clone(), Safety::Caution,
            "Downloaded modules; `go clean -modcache` re-downloads them."));
        v
    }
}

} // verus!

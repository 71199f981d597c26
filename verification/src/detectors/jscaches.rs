//! JS package caches: npm cache, pnpm store, yarn cache.

use vstd::prelude::*;
use super::{candidate, is_candidate, Candidate, Ctx, Detector};
use crate::model::Safety;

verus! {

/// npm, pnpm and yarn caches.
pub struct JsCachesDetector;

impl Detector for JsCachesDetector {
    fn id(&self) -> (r: &'static str)
        ensures
            r@ == "js-caches"@,
    {
        "js-caches"
    }

    fn label(&self) -> (r: &'static str)
        ensures
            r@ == "npm / pnpm / yarn caches"@,
    {
        "npm / pnpm / yarn caches"
    }
}

impl JsCachesDetector {
    /// The three package caches.
    pub fn candidates(&self, ctx: &Ctx) -> (r: Vec<Candidate>)
        ensures
            r@.len() == 3,
            is_candidate(r@[0], "npm cache"@, ctx.npm_cache@, Safety::Safe,
                "Restored automatically; `npm cache verify` compacts it."@),
            is_candidate(r@[1], "pnpm store"@, ctx.pnpm_store@, Safety::Safe,
                "Content-addressable store; `pnpm store prune` removes the rest."@),
            is_candidate(r@[2], "yarn cache"@, ctx.yarn_cache@, Safety::Safe,
                "Restored on next install; `yarn cache clean` equivalent."@),
    {
        let mut v: Vec<Candidate> = Vec::new();
        v.push(candidate("npm cache".to_owned(), ctx.npm_cache.clone(), Safety::Safe,
            "Restored automatically; `npm cache verify` compacts it."));
        v.push(candidate("pnpm store".to_owned(), ctx.pnpm_store.clone(), Safety::Safe,
            "Content-addressable store; `pnpm store prune` removes the rest."));
        v.push(candidate("yarn cache".to_owned(), ctx.yarn_cache.clone(), Safety::Safe,
            "Restored on next install; `yarn cache clean` equivalent."));
        v
    }
}

} // verus!

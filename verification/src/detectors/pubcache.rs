//! Dart/Flutter pub cache (`PUB_CACHE`).

use vstd::prelude::*;
use super::{candidate, is_candidate, Candidate, Ctx, Detector};
use crate::model::Safety;
use crate::paths::{join, spec_join};

verus! {

/// The Dart pub package cache.
pub struct PubCacheDetector;

impl Detector for PubCacheDetector {
    fn id(&self) -> (r: &'static str)
        ensures
            r@ == "pub-cache"@,
    {
        "pub-cache"
    }

    fn label(&self) -> (r: &'static str)
        ensures
            r@ == "Dart pub package cache"@,
    {
        "Dart pub package cache"
    }
}

impl PubCacheDetector {
    /// Hosted and git packages, and leftovers of interrupted operations.
    pub fn candidates(&self, ctx: &Ctx) -> (r: Vec<Candidate>)
        ensures
            r@.len() == 3,
            is_candidate(r@[0], "pub cache/hosted"@, spec_join(ctx.pub_cache@, "hosted"@), Safety::Safe,
                "Downloaded pub.dev packages; restored by `flutter pub get`."@),
            is_candidate(r@[1], "pub cache/git"@, spec_join(ctx.pub_cache@, "git"@), Safety::Safe,
                "Git-sourced packages; restored by `flutter pub get`."@),
            is_candidate(r@[2], "pub cache/_temp"@, spec_join(ctx.pub_cache@, "_temp"@), Safety::Safe,
                "Leftover temp files from interrupted pub operations."@),
    {
        let p = ctx.pub_cache.as_str();
        let mut v: Vec<Candidate> = Vec::new();
        v.push(candidate("pub cache/hosted".to_owned(), join(p, "hosted"), Safety::Safe,
            "Downloaded pub.dev packages; restored by `flutter pub get`."));
        v.push(candidate("pub cache/git".to_owned(), join(p, "git"), Safety::Safe,
            "Git-sourced packages; restored by `flutter pub get`."));
        v.push(candidate("pub cache/_temp".to_owned(), join(p, "_temp"), Safety::Safe,
            "Leftover temp files from interrupted pub operations."));
        v
    }
}

} // verus!

//! Chromium browser caches: per-profile regenerable storage plus the
//! on-device AI model.
//!
//! Storage caches are safe (the browser rebuilds them); origin storage and
//! the model weights are caution (offline app data, a multi-gigabyte
//! download).

use vstd::prelude::*;
use super::{candidate, is_candidate, Candidate, Ctx, Detector};
use super::context::join2;
use crate::model::Safety;
use crate::paths::{join, spec_join};
use crate::text::{concat, concat3, contains_text, has_prefix, spec_contains, str_eq, str_starts_with};

verus! {

/// Chrome and Edge caches.
pub struct BrowserCacheDetector;

impl Detector for BrowserCacheDetector {
    fn id(&self) -> (r: &'static str)
        ensures
            r@ == "browser-cache"@,
    {
        "browser-cache"
    }

    fn label(&self) -> (r: &'static str)
        ensures
            r@ == "Browser web caches"@,
    {
        "Browser web caches"
    }
}

/// A profile directory Chrome creates: `Default`, `Guest Profile` or
/// `Profile <n>`; anything else under `User Data` is browser internals.
pub open spec fn spec_is_profile(name: Seq<char>) -> bool {
    name == "Default"@ || name == "Guest Profile"@ || has_prefix(name, "Profile "@)
}

/// Whether a directory under `User Data` is a user profile.
pub fn is_profile(name: &str) -> (r: bool)
    ensures
        r == spec_is_profile(name@),
{
    str_eq(name, "Default") || str_eq(name, "Guest Profile") || str_starts_with(name, "Profile ")
}

/// The browser a `User Data` directory belongs to.
pub open spec fn browser_of(base: Seq<char>) -> Seq<char> {
    if spec_contains(base, "Edge"@) {
        "edge"@
    } else {
        "chrome"@
    }
}

/// Why the model weights are caution.
pub open spec fn model_detail() -> Seq<char> {
    "Browser AI model weights; re-downloaded on demand (gigabytes)."@
}

/// Why shader caches are safe.
pub open spec fn shader_detail() -> Seq<char> {
    "GPU shader cache; the browser rebuilds it on next launch."@
}

/// Why origin storage is caution.
pub open spec fn storage_detail() -> Seq<char> {
    "Site origin storage (Cache API); may hold offline app data. Close the browser first; files may be locked."@
}

/// Why web caches are safe.
pub open spec fn web_cache_detail() -> Seq<char> {
    "Browser web cache; rebuilt automatically on next visit. Close the browser first; files may be locked while running."@
}

/// The browser's name for labels.
fn browser_name(base: &str) -> (r: &'static str)
    ensures
        r@ == browser_of(base@),
{
    if contains_text(base, "Edge") {
        "edge"
    } else {
        "chrome"
    }
}

impl BrowserCacheDetector {
    /// The `User Data` directories of Chrome and Edge.
    pub fn bases(&self, ctx: &Ctx) -> (r: Vec<String>)
        ensures
            r@.len() == 2,
            r@[0]@ == spec_join(join2(ctx.local_app_data@, "Google"@, "Chrome"@), "User Data"@),
            r@[1]@ == spec_join(join2(ctx.local_app_data@, "Microsoft"@, "Edge"@), "User Data"@),
    {
        let l = ctx.local_app_data.as_str();
        let chrome = join(join(join(l, "Google").as_str(), "Chrome").as_str(), "User Data");
        let edge = join(join(join(l, "Microsoft").as_str(), "Edge").as_str(), "User Data");
        let mut v: Vec<String> = Vec::new();
        v.push(chrome);
        v.push(edge);
        v
    }

    /// The browser-level candidates of a `User Data` directory: the
    /// on-device model (caution) and three GPU shader caches (safe).
    pub fn base_candidates(&self, base: &str) -> (r: Vec<Candidate>)
        ensures
            r@.len() == 4,
            is_candidate(r@[0], browser_of(base@) + " on-device model"@, spec_join(base@, "OptGuideOnDeviceModel"@), Safety::Caution, model_detail()),
            is_candidate(r@[1], browser_of(base@) + " shadercache"@, spec_join(base@, "ShaderCache"@), Safety::Safe, shader_detail()),
            is_candidate(r@[2], browser_of(base@) + " grshadercache"@, spec_join(base@, "GrShaderCache"@), Safety::Safe, shader_detail()),
            is_candidate(r@[3], browser_of(base@) + " gpucache"@, spec_join(base@, "GPUCache"@), Safety::Safe, shader_detail()),
    {
        let b = browser_name(base);
        let shader = "GPU shader cache; the browser rebuilds it on next launch.";
        let mut v: Vec<Candidate> = Vec::new();
        v.push(candidate(
            concat(b, " on-device model"),
            join(base, "OptGuideOnDeviceModel"),
            Safety::Caution,
            "Browser AI model weights; re-downloaded on demand (gigabytes).",
        ));
        v.push(candidate(concat(b, " shadercache"), join(base, "ShaderCache"), Safety::Safe, shader));
        v.push(candidate(concat(b, " grshadercache"), join(base, "GrShaderCache"), Safety::Safe, shader));
        v.push(candidate(concat(b, " gpucache"), join(base, "GPUCache"), Safety::Safe, shader));
        v
    }

    /// The candidates inside the directory `name` of a `User Data`
    /// directory: none unless it is a profile, else its two origin
    /// storage locations (caution) and four web caches (safe).
    pub fn profile_candidates(&self, base: &str, name: &str) -> (r: Vec<Candidate>)
        ensures
            !spec_is_profile(name@) ==> r@.len() == 0,
            spec_is_profile(name@) ==> {
                let b = browser_of(base@);
                let p = spec_join(base@, name@);
                &&& r@.len() == 6
                &&& is_candidate(r@[0], b + " "@ + name@ + "/origin storage"@, spec_join(p, "CacheStorage"@), Safety::Caution, storage_detail())
                &&& is_candidate(r@[1], b + " "@ + name@ + "/origin storage"@, spec_join(p, "Service Worker/CacheStorage"@), Safety::Caution, storage_detail())
                &&& is_candidate(r@[2], b + " "@ + name@ + "/cache"@, spec_join(p, "Cache"@), Safety::Safe, web_cache_detail())
                &&& is_candidate(r@[3], b + " "@ + name@ + "/code cache"@, spec_join(p, "Code Cache"@), Safety::Safe, web_cache_detail())
                &&& is_candidate(r@[4], b + " "@ + name@ + "/shadercache"@, spec_join(p, "ShaderCache"@), Safety::Safe, web_cache_detail())
                &&& is_candidate(r@[5], b + " "@ + name@ + "/gpucache"@, spec_join(p, "GPUCache"@), Safety::Safe, web_cache_detail())
            },
    {
        let mut v: Vec<Candidate> = Vec::new();
        if !is_profile(name) {
            return v;
        }
        let b = browser_name(base);
        let profile = join(base, name);
        let p = profile.as_str();
        let head = concat3(b, " ", name);
        let h = head.as_str();
        let storage = "Site origin storage (Cache API); may hold offline app data. Close the browser first; files may be locked.";
        let web = "Browser web cache; rebuilt automatically on next visit. Close the browser first; files may be locked while running.";
        v.push(candidate(concat(h, "/origin storage"), join(p, "CacheStorage"), Safety::Caution, storage));
        v.push(candidate(concat(h, "/origin storage"), join(p, "Service Worker/CacheStorage"), Safety::Caution, storage));
        v.push(candidate(concat(h, "/cache"), join(p, "Cache"), Safety::Safe, web));
        v.push(candidate(concat(h, "/code cache"), join(p, "Code Cache"), Safety::Safe, web));
        v.push(candidate(concat(h, "/shadercache"), join(p, "ShaderCache"), Safety::Safe, web));
        v.push(candidate(concat(h, "/gpucache"), join(p, "GPUCache"), Safety::Safe, web));
        v
    }
}

} // verus!

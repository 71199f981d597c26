//! Cargo: registry sources and downloads, and per-project `target/`.

use vstd::prelude::*;
use super::{candidate, is_candidate, Candidate, Ctx, Detector};
use super::context::join2;
use crate::model::Safety;
use crate::paths::{join, short_name, spec_join, spec_short_name};
use crate::text::concat3;

verus! {

/// Cargo registry caches and build output.
pub struct CargoDetector;

impl Detector for CargoDetector {
    fn id(&self) -> (r: &'static str)
        ensures
            r@ == "cargo"@,
    {
        "cargo"
    }

    fn label(&self) -> (r: &'static str)
        ensures
            r@ == "Cargo registry + build output"@,
    {
        "Cargo registry + build output"
    }
}

impl CargoDetector {
    /// The file that marks a Cargo project.
    pub fn marker(&self) -> (r: &'static str)
        ensures
            r@ == "Cargo.toml"@,
    {
        "Cargo.toml"
    }

    /// Extracted sources and downloaded crates under `CARGO_HOME`.
    pub fn candidates(&self, ctx: &Ctx) -> (r: Vec<Candidate>)
        ensures
            r@.len() == 2,
            is_candidate(r@[0], "cargo registry/src"@, join2(ctx.cargo_home@, "registry"@, "src"@), Safety::Safe,
                "Extracted crate sources; re-downloaded on next build."@),
            is_candidate(r@[1], "cargo registry/cache"@, join2(ctx.cargo_home@, "registry"@, "cache"@), Safety::Safe,
                "Downloaded .crate files; re-downloaded on next build."@),
    {
        let registry = join(ctx.cargo_home.as_str(), "registry");
        let r = registry.as_str();
        let mut v: Vec<Candidate> = Vec::new();
        v.push(candidate("cargo registry/src".to_owned(), join(r, "src"), Safety::Safe,
            "Extracted crate sources; re-downloaded on next build."));
        v.push(candidate("cargo registry/cache".to_owned(), join(r, "cache"), Safety::Safe,
            "Downloaded .crate files; re-downloaded on next build."));
        v
    }

    /// The build output of the project in `project`.
    pub fn project_candidates(&self, project: &str) -> (r: Vec<Candidate>)
        ensures
            r@.len() == 1,
            is_candidate(r@[0], "cargo target/ ("@ + spec_short_name(project@) + ")"@, spec_join(project@, "target"@),
                Safety::Safe, "cargo build output; `cargo clean` equivalent. Rebuilt on demand."@),
    {
        let name = short_name(project);
        let mut v: Vec<Candidate> = Vec::new();
        v.push(candidate(concat3("cargo target/ (", name.as_str(), ")"), join(project, "target"), Safety::Safe,
            "cargo build output; `cargo clean` equivalent. Rebuilt on demand."));
        v
    }
}

} // verus!

//! Vite: `node_modules/.vite/` in projects depending on `vite`.

use vstd::prelude::*;
use super::{candidate, is_candidate, package_has_dep, spec_package_has_dep, Candidate, Detector};
use crate::model::Safety;
use crate::paths::{join, short_name, spec_join, spec_short_name};
use crate::text::concat3;

verus! {

/// The Vite dependency cache.
pub struct ViteDetector;

impl Detector for ViteDetector {
    fn id(&self) -> (r: &'static str)
        ensures
            r@ == "vite-build"@,
    {
        "vite-build"
    }

    fn label(&self) -> (r: &'static str)
        ensures
            r@ == "Vite dependency cache"@,
    {
        "Vite dependency cache"
    }
}

/// A readable manifest lists `vite`.
pub open spec fn uses_vite(manifest: Option<&str>) -> bool {
    manifest matches Some(t) && spec_package_has_dep(t@, "vite"@)
}

impl ViteDetector {
    /// The file that marks a JS project.
    pub fn marker(&self) -> (r: &'static str)
        ensures
            r@ == "package.json"@,
    {
        "package.json"
    }

    /// The pre-bundled dependencies of the project in `project`, whose
    /// `package.json` text is `manifest` (`None` when unreadable): none
    /// unless the project depends on `vite`.
    pub fn project_candidates(&self, project: &str, manifest: Option<&str>) -> (r: Vec<Candidate>)
        ensures
            !uses_vite(manifest) ==> r@.len() == 0,
            uses_vite(manifest) ==> r@.len() == 1 && is_candidate(r@[0],
                "node_modules/.vite/ ("@ + spec_short_name(project@) + ")"@,
                spec_join(spec_join(project@, "node_modules"@), ".vite"@),
                Safety::Safe,
                "Vite pre-bundled deps; rebuilt on next dev/build run."@),
    {
        let mut v: Vec<Candidate> = Vec::new();
        let uses = match manifest {
            Some(t) => package_has_dep(t, "vite"),
            None => false,
        };
        if !uses {
            return v;
        }
        let name = short_name(project);
        let modules = join(project, "node_modules");
        v.push(candidate(concat3("node_modules/.vite/ (", name.as_str(), ")"), join(modules.as_str(), ".vite"), Safety::Safe,
            "Vite pre-bundled deps; rebuilt on next dev/build run."));
        v
    }
}

} // verus!

//! Angular: `.angular/cache/` in projects depending on Angular.

use vstd::prelude::*;
use super::{candidate, is_candidate, package_has_dep, spec_package_has_dep, Candidate, Detector};
use crate::model::Safety;
use crate::paths::{join, short_name, spec_join, spec_short_name};
use crate::text::concat3;

verus! {

/// The Angular build cache.
pub struct AngularDetector;

impl Detector for AngularDetector {
    fn id(&self) -> (r: &'static str)
        ensures
            r@ == "angular-build"@,
    {
        "angular-build"
    }

    fn label(&self) -> (r: &'static str)
        ensures
            r@ == "Angular build cache"@,
    {
        "Angular build cache"
    }
}

/// A readable manifest lists `@angular/cli` or `@angular/core`.
pub open spec fn uses_angular(manifest: Option<&str>) -> bool {
    manifest matches Some(t) && (spec_package_has_dep(t@, "@angular/cli"@) || spec_package_has_dep(t@, "@angular/core"@))
}

impl AngularDetector {
    /// The file that marks a JS project.
    pub fn marker(&self) -> (r: &'static str)
        ensures
            r@ == "package.json"@,
    {
        "package.json"
    }

    /// The build cache of the project in `project` (only the `cache`
    /// subdirectory of `.angular`), whose `package.json` text is
    /// `manifest`: none unless the project depends on Angular.
    pub fn project_candidates(&self, project: &str, manifest: Option<&str>) -> (r: Vec<Candidate>)
        ensures
            !uses_angular(manifest) ==> r@.len() == 0,
            uses_angular(manifest) ==> r@.len() == 1 && is_candidate(r@[0],
                ".angular/cache/ ("@ + spec_short_name(project@) + ")"@,
                spec_join(spec_join(project@, ".angular"@), "cache"@),
                Safety::Safe,
                "Angular build cache; rebuilt by `ng build`/`ng serve`."@),
    {
        let mut v: Vec<Candidate> = Vec::new();
        let uses = match manifest {
            Some(t) => package_has_dep(t, "@angular/cli") || package_has_dep(t, "@angular/core"),
            None => false,
        };
        if !uses {
            return v;
        }
        let name = short_name(project);
        let dir = join(project, ".angular");
        v.push(candidate(concat3(".angular/cache/ (", name.as_str(), ")"), join(dir.as_str(), "cache"), Safety::Safe,
            "Angular build cache; rebuilt by `ng build`/`ng serve`."));
        v
    }
}

} // verus!

//! Next.js: `.next/` (safe) and `node_modules/` (caution) in projects
//! depending on `next`.

use vstd::prelude::*;
use super::{candidate, dependency_sections, is_candidate, manifest_entry, Candidate, Detector};
use crate::model::Safety;
use crate::paths::{join, short_name, spec_join, spec_short_name};
use crate::text::concat3;

verus! {

/// Next.js build output.
pub struct NextJsDetector;

impl Detector for NextJsDetector {
    fn id(&self) -> (r: &'static str)
        ensures
            r@ == "nextjs-build"@,
    {
        "nextjs-build"
    }

    fn label(&self) -> (r: &'static str)
        ensures
            r@ == "Next.js build output"@,
    {
        "Next.js build output"
    }
}

/// A `package.json` text lists `next` in a dependency section, with any
/// value.
pub open spec fn spec_depends_on_next(text: Seq<char>) -> bool {
    exists|k: int| 0 <= k < 3 && manifest_entry(text, #[trigger] dependency_sections()[k], "next"@) matches Some((true, _))
}

/// Whether one section lists `next`.
fn section_lists_next(text: &str, section: &str) -> (r: bool)
    ensures
        r == (manifest_entry(text@, section@, "next"@) matches Some((true, _))),
{
    match super::read_manifest_entry(text, section, "next") {
        Some((present, _)) => present,
        None => false,
    }
}

/// Whether a `package.json` text lists `next`. Broken JSON lists nothing.
pub fn depends_on_next(text: &str) -> (r: bool)
    ensures
        r == spec_depends_on_next(text@),
{
    let a = section_lists_next(text, "dependencies");
    let b = section_lists_next(text, "devDependencies");
    let c = section_lists_next(text, "peerDependencies");
    proof {
        reveal_strlit("dependencies");
        reveal_strlit("devDependencies");
        reveal_strlit("peerDependencies");
        if a {
            assert(manifest_entry(text@, dependency_sections()[0], "next"@) matches Some((true, _)));
        }
        if b {
            assert(manifest_entry(text@, dependency_sections()[1], "next"@) matches Some((true, _)));
        }
        if c {
            assert(manifest_entry(text@, dependency_sections()[2], "next"@) matches Some((true, _)));
        }
        if !a && !b && !c {
            assert forall|k: int| 0 <= k < 3 implies !(manifest_entry(text@, #[trigger] dependency_sections()[k], "next"@) matches Some((true, _))) by {
                if k == 0 {
                } else if k == 1 {
                } else {
                }
            }
        }
    }
    a || b || c
}

/// A readable manifest lists `next`.
pub open spec fn uses_next(manifest: Option<&str>) -> bool {
    manifest matches Some(t) && spec_depends_on_next(t@)
}

impl NextJsDetector {
    /// The file that marks a JS project.
    pub fn marker(&self) -> (r: &'static str)
        ensures
            r@ == "package.json"@,
    {
        "package.json"
    }

    /// The build cache and dependencies of the project in `project`,
    /// whose `package.json` text is `manifest`: none unless it depends on
    /// `next`.
    pub fn project_candidates(&self, project: &str, manifest: Option<&str>) -> (r: Vec<Candidate>)
        ensures
            !uses_next(manifest) ==> r@.len() == 0,
            uses_next(manifest) ==> {
                &&& r@.len() == 2
                &&& is_candidate(r@[0], ".next/ ("@ + spec_short_name(project@) + ")"@, spec_join(project@, ".next"@),
                    Safety::Safe, "Next.js build cache; rebuilt by `next build`."@)
                &&& is_candidate(r@[1], "node_modules/ ("@ + spec_short_name(project@) + ")"@,
                    spec_join(project@, "node_modules"@), Safety::Caution,
                    "Dependencies; `npm install` re-download can take minutes."@)
            },
    {
        let mut v: Vec<Candidate> = Vec::new();
        let uses = match manifest {
            Some(t) => depends_on_next(t),
            None => false,
        };
        if !uses {
            return v;
        }
        let name = short_name(project);
        let n = name.as_str();
        v.push(candidate(concat3(".next/ (", n, ")"), join(project, ".next"), Safety::Safe,
            "Next.js build cache; rebuilt by `next build`."));
        v.push(candidate(concat3("node_modules/ (", n, ")"), join(project, "node_modules"), Safety::Caution,
            "Dependencies; `npm install` re-download can take minutes."));
        v
    }
}

} // verus!

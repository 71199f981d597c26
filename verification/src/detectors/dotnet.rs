//! .NET: `bin/` and `obj/` next to a project manifest (`*.csproj`,
//! `*.fsproj`, `*.vbproj`).
//!
//! These directories can also hold application data, so they are
//! reported with `dotnet clean` guidance instead of being deleted.

use vstd::prelude::*;
use super::{matches_any, matches_listed, reported, DirProbe, Detector};
use crate::model::{CleanAction, Finding, Safety};
use crate::paths::{find_last_dot, last_dot, short_name, spec_short_name};
use crate::text::{concat, concat3};

verus! {

/// .NET build output.
pub struct DotNetDetector;

impl Detector for DotNetDetector {
    fn id(&self) -> (r: &'static str)
        ensures
            r@ == "dotnet-build"@,
    {
        "dotnet-build"
    }

    fn label(&self) -> (r: &'static str)
        ensures
            r@ == ".NET build output"@,
    {
        ".NET build output"
    }
}

/// Most findings one scan reports, and most manifest directories one
/// walk collects.
pub const MAX_FINDINGS: usize = 200;

/// Project manifest extensions.
pub open spec fn manifest_exts() -> Seq<Seq<char>> {
    seq!["csproj"@, "fsproj"@, "vbproj"@]
}

/// A project manifest file name: the text after its last `.` is a
/// manifest extension (by the platform's name rules).
pub open spec fn spec_is_manifest(name: Seq<char>, windows: bool) -> bool {
    match last_dot(name) {
        Some(i) => matches_listed(manifest_exts(), name.skip(i + 1), windows),
        None => false,
    }
}

/// Whether a file name is a project manifest.
pub fn is_manifest(name: &str, windows: bool) -> (r: bool)
    ensures
        r == spec_is_manifest(name@, windows),
{
    let exts: Vec<&'static str> = vec!["csproj", "fsproj", "vbproj"];
    assert(exts@.map_values(|s: &'static str| s@) =~= manifest_exts());
    let n = name.unicode_len();
    match find_last_dot(name) {
        Some(i) => {
            let ext = name.substring_char(i + 1, n);
            assert(ext@ =~= name@.skip(i + 1));
            matches_any(&exts, ext, windows)
        },
        None => false,
    }
}

/// Directory names the manifest walk never enters.
pub open spec fn dotnet_walk_skips() -> Seq<Seq<char>> {
    seq![".git"@, "node_modules"@, "target"@, "build"@, ".venv"@, "venv"@, "bin"@, "obj"@, "TestResults"@]
}

/// The directory names the manifest walk never enters.
pub fn walk_skip_list() -> (r: Vec<&'static str>)
    ensures
        r@.map_values(|s: &'static str| s@) == dotnet_walk_skips(),
{
    let v: Vec<&'static str> = vec![".git", "node_modules", "target", "build", ".venv", "venv", "bin", "obj", "TestResults"];
    assert(v@.map_values(|s: &'static str| s@) =~= dotnet_walk_skips());
    v
}

/// Why build output is only reported.
pub open spec fn dotnet_detail() -> Seq<char> {
    "Potential build output; may also contain application data. Not automatically deleted."@
}

/// What to do with the build output of the project in `project`.
pub open spec fn dotnet_steps(project: Seq<char>) -> Seq<char> {
    "Review the project in "@ + project
        + " and use `dotnet clean` to remove tracked build outputs. Preserve application data in bin/obj."@
}

impl DotNetDetector {
    /// The report for `artifact` (`bin` or `obj`) of the project in
    /// `project`, found as `probe` says: a real directory holding bytes is
    /// reported with `dotnet clean` steps, never for removal.
    pub fn finding(&self, project: &str, artifact: &str, probe: &DirProbe) -> (r: Option<Finding>)
        ensures
            r is Some <==> reported(*probe),
            r matches Some(f) ==> {
                &&& f.detector_id@ == "dotnet-build"@
                &&& f.label@ == artifact@ + "/ ("@ + spec_short_name(project@) + ")"@
                &&& f.bytes == probe.bytes
                &&& f.safety == Safety::Caution
                &&& f.detail@ == dotnet_detail()
                &&& f.action matches CleanAction::Manual { instructions } && instructions@ == dotnet_steps(project@)
            },
    {
        if !probe.is_dir || probe.is_link || probe.bytes == 0 {
            return None;
        }
        let name = short_name(project);
        Some(Finding {
            detector_id: "dotnet-build".to_owned(),
            label: concat3(concat(artifact, "/ (").as_str(), name.as_str(), ")"),
            bytes: probe.bytes,
            safety: Safety::Caution,
            detail: "Potential build output; may also contain application data. Not automatically deleted.".to_owned(),
            action: CleanAction::Manual {
                instructions: concat3(
                    "Review the project in ",
                    project,
                    " and use `dotnet clean` to remove tracked build outputs. Preserve application data in bin/obj.",
                ),
            },
        })
    }
}

} // verus!

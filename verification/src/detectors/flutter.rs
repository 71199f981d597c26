//! Flutter: `build/` and `.dart_tool/` next to `pubspec.yaml`.

use vstd::prelude::*;
use super::{candidate, is_candidate, Candidate, Detector};
use crate::model::Safety;
use crate::paths::{join, short_name, spec_join, spec_short_name};
use crate::text::concat3;

verus! {

/// Flutter build output.
pub struct FlutterDetector;

impl Detector for FlutterDetector {
    fn id(&self) -> (r: &'static str)
        ensures
            r@ == "flutter-build"@,
    {
        "flutter-build"
    }

    fn label(&self) -> (r: &'static str)
        ensures
            r@ == "Flutter build output"@,
    {
        "Flutter build output"
    }
}

impl FlutterDetector {
    /// The file that marks a Flutter/Dart project.
    pub fn marker(&self) -> (r: &'static str)
        ensures
            r@ == "pubspec.yaml"@,
    {
        "pubspec.yaml"
    }

    /// The build output and tool state of the project in `project`.
    pub fn project_candidates(&self, project: &str) -> (r: Vec<Candidate>)
        ensures
            r@.len() == 2,
            is_candidate(r@[0], "flutter build/ ("@ + spec_short_name(project@) + ")"@, spec_join(project@, "build"@),
                Safety::Safe, "Compiled app output; `flutter clean` equivalent."@),
            is_candidate(r@[1], "flutter .dart_tool/ ("@ + spec_short_name(project@) + ")"@, spec_join(project@, ".dart_tool"@),
                Safety::Safe, "Package config; restored by `flutter pub get`."@),
    {
        let name = short_name(project);
        let n = name.as_str();
        let mut v: Vec<Candidate> = Vec::new();
        v.push(candidate(concat3("flutter build/ (", n, ")"), join(project, "build"), Safety::Safe,
            "Compiled app output; `flutter clean` equivalent."));
        v.push(candidate(concat3("flutter .dart_tool/ (", n, ")"), join(project, ".dart_tool"), Safety::Safe,
            "Package config; restored by `flutter pub get`."));
        v
    }
}

} // verus!

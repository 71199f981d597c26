//! Android SDK: per-version component folders (NDKs, build tools,
//! platforms, CMake, sources). Folders that are not versions are left
//! alone, and no version is guessed to be the current one.

use vstd::prelude::*;
use super::{candidate, is_candidate, Candidate, Detector};
use crate::model::Safety;
use crate::paths::{join, spec_join};
use crate::text::{all_digits, concat3, has_prefix, pieces, split_pieces, str_eq, str_starts_with};

verus! {

/// Android SDK components.
pub struct AndroidDetector;

impl Detector for AndroidDetector {
    fn id(&self) -> (r: &'static str)
        ensures
            r@ == "android-sdk"@,
    {
        "android-sdk"
    }

    fn label(&self) -> (r: &'static str)
        ensures
            r@ == "Android SDK components"@,
    {
        "Android SDK components"
    }
}

/// The component groups, in scan order.
pub open spec fn android_groups() -> Seq<Seq<char>> {
    seq!["ndk"@, "build-tools"@, "platforms"@, "cmake"@, "sources"@]
}

/// What a group holds.
pub open spec fn group_detail(group: Seq<char>) -> Seq<char> {
    if group == "ndk"@ {
        "Native toolchain; ~2 GiB per version."@
    } else if group == "build-tools"@ {
        "Per-version build tools."@
    } else if group == "platforms"@ {
        "android-XX platform frameworks."@
    } else if group == "cmake"@ {
        "Bundled CMake versions."@
    } else {
        "Sources for debugging (rarely needed)."@
    }
}

/// A dotted numeric version such as `28.2.13676358`.
pub open spec fn dotted_numeric(name: Seq<char>) -> bool {
    forall|k: int| 0 <= k < pieces(name, '.').len() ==> (#[trigger] pieces(name, '.')[k]).len() > 0 && all_digits(pieces(name, '.')[k])
}

/// An API level folder such as `android-34`.
pub open spec fn api_level_name(name: Seq<char>) -> bool {
    has_prefix(name, "android-"@) && name.len() > 8 && all_digits(name.skip(8))
}

/// A folder of `group` that holds one version of a component.
pub open spec fn is_component(group: Seq<char>, name: Seq<char>) -> bool {
    if group == "ndk"@ || group == "build-tools"@ || group == "cmake"@ {
        dotted_numeric(name)
    } else if group == "platforms"@ || group == "sources"@ {
        api_level_name(name)
    } else {
        false
    }
}

/// Whether every character is an ASCII digit.
fn digits_only(s: &str) -> (r: bool)
    ensures
        r == all_digits(s@),
{
    let n = s.unicode_len();
    let mut i: usize = 0;
    while i < n
        invariant
            n == s@.len(),
            i <= n,
            forall|j: int| 0 <= j < i ==> crate::text::is_digit(#[trigger] s@[j]),
        decreases n - i,
    {
        let c = s.get_char(i);
        if !('0' <= c && c <= '9') {
            assert(!crate::text::is_digit(s@[i as int]));
            return false;
        }
        i = i + 1;
    }
    true
}

/// Whether a name is a dotted numeric version.
fn is_dotted_numeric(name: &str) -> (r: bool)
    ensures
        r == dotted_numeric(name@),
{
    let p = split_pieces(name, '.');
    let mut k: usize = 0;
    while k < p.len()
        invariant
            p@.len() == pieces(name@, '.').len(),
            forall|j: int| 0 <= j < p@.len() ==> #[trigger] p@[j]@ == pieces(name@, '.')[j],
            k <= p@.len(),
            forall|j: int| 0 <= j < k ==> (#[trigger] pieces(name@, '.')[j]).len() > 0 && all_digits(pieces(name@, '.')[j]),
        decreases p@.len() - k,
    {
        if p[k].unicode_len() == 0 || !digits_only(p[k].as_str()) {
            assert(p@[k as int]@ == pieces(name@, '.')[k as int]);
            return false;
        }
        k = k + 1;
    }
    true
}

impl AndroidDetector {
    /// The component groups, in scan order.
    pub fn groups(&self) -> (r: Vec<&'static str>)
        ensures
            r@.map_values(|s: &'static str| s@) == android_groups(),
    {
        let v: Vec<&'static str> = vec!["ndk", "build-tools", "platforms", "cmake", "sources"];
        assert(v@.map_values(|s: &'static str| s@) =~= android_groups());
        v
    }

    /// The candidate for the folder `name` of `group` in the SDK at
    /// `sdk`: none unless it holds one version of a component.
    pub fn component_candidate(&self, sdk: &str, group: &str, name: &str) -> (r: Option<Candidate>)
        ensures
            r is Some <==> is_component(group@, name@),
            r matches Some(c) ==> is_candidate(c, "android "@ + group@ + "/"@ + name@,
                spec_join(spec_join(sdk@, group@), name@), Safety::Caution, group_detail(group@)),
    {
        proof {
            reveal_strlit("android-");
        }
        let versioned = str_eq(group, "ndk") || str_eq(group, "build-tools") || str_eq(group, "cmake");
        let api = str_eq(group, "platforms") || str_eq(group, "sources");
        let ok = if versioned {
            is_dotted_numeric(name)
        } else if api {
            let n = name.unicode_len();
            if n > 8 && str_starts_with(name, "android-") {
                let level = name.substring_char(8, n);
                assert(level@ =~= name@.skip(8));
                digits_only(level)
            } else {
                false
            }
        } else {
            false
        };
        if !ok {
            return None;
        }
        let detail = if str_eq(group, "ndk") {
            "Native toolchain; ~2 GiB per version."
        } else if str_eq(group, "build-tools") {
            "Per-version build tools."
        } else if str_eq(group, "platforms") {
            "android-XX platform frameworks."
        } else if str_eq(group, "cmake") {
            "Bundled CMake versions."
        } else {
            "Sources for debugging (rarely needed)."
        };
        let dir = join(sdk, group);
        let head = concat3("android ", group, "/");
        Some(candidate(crate::text::concat(head.as_str(), name), join(dir.as_str(), name), Safety::Caution, detail))
    }
}

} // verus!

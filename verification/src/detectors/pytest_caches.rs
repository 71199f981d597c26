//! Python test and lint caches next to a Python project marker:
//! `.pytest_cache`, `.mypy_cache`, `.ruff_cache` are removed;
//! `.hypothesis` example databases and `.coverage` data files are only
//! reported, since they can hold results worth keeping.
//!
//! A location is never flagged by its name alone: its directory must hold
//! `pyproject.toml`, `setup.py`, `setup.cfg`, `requirements.txt`,
//! `tox.ini` or another `requirements*.txt` file.

use vstd::prelude::*;
use super::{matches_any, matches_listed, name_matches, spec_name_matches, Detector};
use crate::model::{CleanAction, Finding, Safety};
use crate::paths::{short_parent, spec_short_parent};
use crate::text::{
    all_digits, concat, concat3, eq_ascii_ci, has_prefix, has_suffix, lower, lower_text, pieces, split_pieces,
    str_eq_ascii_ci, str_starts_with,
};

verus! {

/// Python test and lint caches.
pub struct PyTestCachesDetector;

impl Detector for PyTestCachesDetector {
    fn id(&self) -> (r: &'static str)
        ensures
            r@ == "pytest-caches"@,
    {
        "pytest-caches"
    }

    fn label(&self) -> (r: &'static str)
        ensures
            r@ == "Python test/lint caches"@,
    {
        "Python test/lint caches"
    }
}

/// Most findings one scan reports.
pub const MAX_FINDINGS: usize = 200;

/// What a walked entry is to this detector.
#[derive(PartialEq, Eq, Structural, Clone, Copy, Debug)]
pub enum PyTestItem {
    /// A regenerable cache directory.
    Cache,
    /// A Hypothesis example database.
    Hypothesis,
    /// A coverage data file.
    Coverage,
}

/// Regenerable cache directory names.
pub open spec fn cache_dirs() -> Seq<Seq<char>> {
    seq![".pytest_cache"@, ".mypy_cache"@, ".ruff_cache"@]
}

/// `name` starts with `prefix`, ASCII case-insensitively on Windows.
pub open spec fn spec_name_matches_prefix(prefix: Seq<char>, name: Seq<char>, windows: bool) -> bool {
    if windows {
        name.len() >= prefix.len() && eq_ascii_ci(name.take(prefix.len() as int), prefix)
    } else {
        has_prefix(name, prefix)
    }
}

/// Whether `name` starts with `prefix` by the platform's rules.
pub fn name_matches_prefix(prefix: &str, name: &str, windows: bool) -> (r: bool)
    ensures
        r == spec_name_matches_prefix(prefix@, name@, windows),
{
    if windows {
        let n = name.unicode_len();
        let m = prefix.unicode_len();
        if n < m {
            return false;
        }
        let head = name.substring_char(0, m);
        assert(head@ =~= name@.take(m as int));
        str_eq_ascii_ci(head, prefix)
    } else {
        str_starts_with(name, prefix)
    }
}

/// The suffix of a parallel coverage data file, `<host>.<pid>.<random>`:
/// at least three non-empty dot-separated parts, the next to last all
/// digits.
pub open spec fn parallel_suffix(s: Seq<char>) -> bool {
    let p = pieces(s, '.');
    &&& p.len() >= 3
    &&& forall|k: int| 0 <= k < p.len() ==> (#[trigger] p[k]).len() > 0
    &&& all_digits(p[p.len() - 2])
}

/// A coverage data file name: `.coverage`, or `.coverage.` followed by a
/// parallel-run suffix.
pub open spec fn spec_is_coverage(name: Seq<char>, windows: bool) -> bool {
    ||| spec_name_matches(".coverage"@, name, windows)
    ||| spec_name_matches_prefix(".coverage."@, name, windows) && parallel_suffix(name.skip(10))
}

/// What a walked entry is: a cache or Hypothesis directory, a coverage
/// file, or nothing of interest.
pub open spec fn spec_classify(name: Seq<char>, is_dir: bool, is_file: bool, windows: bool) -> Option<PyTestItem> {
    if is_dir && matches_listed(cache_dirs(), name, windows) {
        Some(PyTestItem::Cache)
    } else if is_dir && spec_name_matches(".hypothesis"@, name, windows) {
        Some(PyTestItem::Hypothesis)
    } else if is_file && spec_is_coverage(name, windows) {
        Some(PyTestItem::Coverage)
    } else {
        None
    }
}

/// Whether a suffix is that of a parallel coverage data file.
fn is_parallel_suffix(s: &str) -> (r: bool)
    ensures
        r == parallel_suffix(s@),
{
    let p = split_pieces(s, '.');
    if p.len() < 3 {
        return false;
    }
    let mut k: usize = 0;
    while k < p.len()
        invariant
            p@.len() == pieces(s@, '.').len(),
            forall|j: int| 0 <= j < p@.len() ==> #[trigger] p@[j]@ == pieces(s@, '.')[j],
            k <= p@.len(),
            forall|j: int| 0 <= j < k ==> (#[trigger] pieces(s@, '.')[j]).len() > 0,
        decreases p@.len() - k,
    {
        if p[k].unicode_len() == 0 {
            assert(pieces(s@, '.')[k as int].len() == 0);
            return false;
        }
        k = k + 1;
    }
    let pid = p[p.len() - 2].as_str();
    let m = pid.unicode_len();
    let mut i: usize = 0;
    let ghost pp = pieces(s@, '.');
    assert(pid@ == pp[pp.len() - 2]);
    while i < m
        invariant
            pp == pieces(s@, '.'),
            pp.len() >= 3,
            pid@ == pp[pp.len() - 2],
            m == pid@.len(),
            i <= m,
            forall|j: int| 0 <= j < i ==> crate::text::is_digit(#[trigger] pid@[j]),
        decreases m - i,
    {
        let c = pid.get_char(i);
        if !('0' <= c && c <= '9') {
            assert(!crate::text::is_digit(pid@[i as int]));
            return false;
        }
        i = i + 1;
    }
    true
}

/// Classifies an entry met by the walk.
pub fn classify(name: &str, is_dir: bool, is_file: bool, windows: bool) -> (r: Option<PyTestItem>)
    ensures
        r == spec_classify(name@, is_dir, is_file, windows),
{
    let caches: Vec<&'static str> = vec![".pytest_cache", ".mypy_cache", ".ruff_cache"];
    assert(caches@.map_values(|s: &'static str| s@) =~= cache_dirs());
    if is_dir && matches_any(&caches, name, windows) {
        return Some(PyTestItem::Cache);
    }
    if is_dir && name_matches(".hypothesis", name, windows) {
        return Some(PyTestItem::Hypothesis);
    }
    if !is_file {
        return None;
    }
    if name_matches(".coverage", name, windows) {
        return Some(PyTestItem::Coverage);
    }
    if name_matches_prefix(".coverage.", name, windows) {
        proof {
            reveal_strlit(".coverage.");
        }
        let n = name.unicode_len();
        let rest = name.substring_char(10, n);
        assert(rest@ =~= name@.skip(10));
        if is_parallel_suffix(rest) {
            return Some(PyTestItem::Coverage);
        }
    }
    None
}

/// Project marker file names.
pub open spec fn project_markers() -> Seq<Seq<char>> {
    seq!["pyproject.toml"@, "setup.py"@, "setup.cfg"@, "requirements.txt"@, "tox.ini"@]
}

/// A `requirements*.txt` name, any ASCII case.
pub open spec fn requirements_like(name: Seq<char>) -> bool {
    has_prefix(lower_text(name), "requirements"@) && has_suffix(lower_text(name), ".txt"@)
}

/// One entry of a directory: its name and whether it is a file.
pub struct DirItem {
    pub name: String,
    pub is_file: bool,
}

/// A directory is a Python project when one of its files is a marker.
pub open spec fn spec_has_python_marker(items: Seq<DirItem>, windows: bool) -> bool {
    exists|k: int|
        0 <= k < items.len() && (#[trigger] items[k]).is_file && (matches_listed(project_markers(), items[k].name@, windows)
            || requirements_like(items[k].name@))
}

/// Whether a directory's entries include a Python project marker file.
pub fn has_python_marker(items: &[DirItem], windows: bool) -> (r: bool)
    ensures
        r == spec_has_python_marker(items@, windows),
{
    let markers: Vec<&'static str> = vec!["pyproject.toml", "setup.py", "setup.cfg", "requirements.txt", "tox.ini"];
    assert(markers@.map_values(|s: &'static str| s@) =~= project_markers());
    let mut k: usize = 0;
    while k < items.len()
        invariant
            markers@.map_values(|s: &'static str| s@) == project_markers(),
            k <= items@.len(),
            forall|j: int| 0 <= j < k ==> !((#[trigger] items@[j]).is_file && (matches_listed(project_markers(), items@[j].name@, windows)
                || requirements_like(items@[j].name@))),
        decreases items@.len() - k,
    {
        let it = &items[k];
        if it.is_file {
            let low = lower(it.name.as_str());
            let req = str_starts_with(low.as_str(), "requirements") && ends_with(low.as_str(), ".txt");
            if matches_any(&markers, it.name.as_str(), windows) || req {
                return true;
            }
        }
        k = k + 1;
    }
    false
}

/// Whether `s` ends with `suffix`.
fn ends_with(s: &str, suffix: &str) -> (r: bool)
    ensures
        r == has_suffix(s@, suffix@),
{
    let n = s.unicode_len();
    let m = suffix.unicode_len();
    if m > n {
        return false;
    }
    let tail = s.substring_char(n - m, n);
    assert(tail@ =~= s@.subrange(n - m, n as int));
    crate::text::str_eq(tail, suffix)
}

/// Directory names the walk never enters.
pub open spec fn pytest_walk_skips() -> Seq<Seq<char>> {
    seq![".git"@, "node_modules"@, "target"@, "build"@, ".venv"@, "venv"@, ".tox"@]
}

/// The walk enters a directory unless it is skipped by name, is a link,
/// or is a virtual environment (holds `pyvenv.cfg`).
pub open spec fn spec_walk_enters(name: Seq<char>, is_link: bool, is_venv: bool, windows: bool) -> bool {
    !matches_listed(pytest_walk_skips(), name, windows) && !is_link && !is_venv
}

/// Whether the walk enters a directory.
pub fn walk_enters(name: &str, is_link: bool, is_venv: bool, windows: bool) -> (r: bool)
    ensures
        r == spec_walk_enters(name@, is_link, is_venv, windows),
{
    let skips: Vec<&'static str> = vec![".git", "node_modules", "target", "build", ".venv", "venv", ".tox"];
    assert(skips@.map_values(|s: &'static str| s@) =~= pytest_walk_skips());
    !matches_any(&skips, name, windows) && !is_link && !is_venv
}

/// Why these locations are regenerable.
pub open spec fn pytest_detail() -> Seq<char> {
    "Test/lint cache; regenerated on next run."@
}

/// What to do by hand with a Hypothesis example database.
pub open spec fn hypothesis_steps() -> Seq<char> {
    "Hypothesis keeps failing examples here for replay. Review it, then delete it by hand if none are worth keeping."@
}

/// What to do by hand with a coverage data file.
pub open spec fn coverage_steps() -> Seq<char> {
    "Coverage measurement data. Run `coverage erase` (or delete the file) once its report is no longer needed."@
}

/// The finding for an item at `path` named `name`, of `bytes` bytes.
pub open spec fn spec_item_finding(f: Finding, name: Seq<char>, path: Seq<char>, item: PyTestItem, bytes: u64) -> bool {
    &&& f.detector_id@ == "pytest-caches"@
    &&& f.label@ == if item == PyTestItem::Coverage {
        name + " ("@ + spec_short_parent(path) + ")"@
    } else {
        name + "/ ("@ + spec_short_parent(path) + ")"@
    }
    &&& f.bytes == bytes
    &&& f.safety == Safety::Safe
    &&& f.detail@ == pytest_detail()
    &&& match item {
        PyTestItem::Cache => f.action matches CleanAction::RemovePath { path: p } && p@ == path,
        PyTestItem::Hypothesis => f.action matches CleanAction::Manual { instructions } && instructions@ == hypothesis_steps(),
        PyTestItem::Coverage => f.action matches CleanAction::Manual { instructions } && instructions@ == coverage_steps(),
    }
}

impl PyTestCachesDetector {
    /// The finding for a classified item in a Python project: `None` for
    /// a link or an empty item. Caches are removed; example databases and
    /// coverage data are left to the user.
    pub fn finding(&self, name: &str, path: &str, item: PyTestItem, is_link: bool, bytes: u64) -> (r: Option<Finding>)
        ensures
            r is Some <==> (!is_link && bytes > 0),
            r matches Some(f) ==> spec_item_finding(f, name@, path@, item, bytes),
    {
        if is_link || bytes == 0 {
            return None;
        }
        let parent = short_parent(path);
        let label = if item == PyTestItem::Coverage {
            concat3(concat(name, " (").as_str(), parent.as_str(), ")")
        } else {
            concat3(concat(name, "/ (").as_str(), parent.as_str(), ")")
        };
        let action = match item {
            PyTestItem::Cache => CleanAction::RemovePath { path: path.to_owned() },
            PyTestItem::Hypothesis => CleanAction::Manual {
                instructions: "Hypothesis keeps failing examples here for replay. Review it, then delete it by hand if none are worth keeping.".to_owned(),
            },
            PyTestItem::Coverage => CleanAction::Manual {
                instructions: "Coverage measurement data. Run `coverage erase` (or delete the file) once its report is no longer needed.".to_owned(),
            },
        };
        Some(Finding {
            detector_id: "pytest-caches".to_owned(),
            label,
            bytes,
            safety: Safety::Safe,
            detail: "Test/lint cache; regenerated on next run.".to_owned(),
            action,
        })
    }
}

} // verus!

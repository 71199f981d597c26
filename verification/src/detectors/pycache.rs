//! Python bytecode: `__pycache__` dirs holding nothing but bytecode files
//! whose exact source module sits next to the cache.
//!
//! Conservative by construction: a source-less bytecode file, any other
//! file, or a subdirectory disqualifies the whole directory.

use vstd::prelude::*;
use super::{matches_any, matches_listed, name_matches, spec_name_matches, Detector};
use crate::model::{CleanAction, Finding, Safety};
use crate::paths::{file_name, find_last_dot, join, last_dot, parent_path, short_parent, spec_file_name, spec_join, spec_parent, spec_short_parent, stem_and_extension};
use crate::text::{concat, concat3, eq_ascii_ci, has_prefix, str_eq_ascii_ci, str_starts_with};

verus! {

/// Python bytecode caches.
pub struct PyCacheDetector;

impl Detector for PyCacheDetector {
    fn id(&self) -> (r: &'static str)
        ensures
            r@ == "pycache"@,
    {
        "pycache"
    }

    fn label(&self) -> (r: &'static str)
        ensures
            r@ == "Python bytecode caches"@,
    {
        "Python bytecode caches"
    }
}

/// Most findings one scan reports.
pub const MAX_FINDINGS: usize = 200;

/// A bytecode file name: extension `pyc` or `pyo`, any ASCII case.
pub open spec fn spec_is_bytecode(name: Seq<char>) -> bool {
    stem_and_extension(name).1 matches Some(e) && (eq_ascii_ci(e, "pyc"@) || eq_ascii_ci(e, "pyo"@))
}

/// The module a bytecode stem was compiled from: the stem without its
/// interpreter tag (`mod.cpython-312` -> `mod`), and without an
/// optimization level after the tag (`mod.cpython-312.opt-1` -> `mod`).
pub open spec fn module_of(stem: Seq<char>) -> Seq<char> {
    match last_dot(stem) {
        None => stem,
        Some(i) => {
            let head = stem.take(i);
            if has_prefix(stem.skip(i + 1), "opt-"@) {
                match last_dot(head) {
                    Some(j) => head.take(j),
                    None => head,
                }
            } else {
                head
            }
        },
    }
}

/// The source file name a bytecode file name belongs to: `<module>.py`,
/// the module being [`module_of`] the name's stem.
pub open spec fn spec_source_file(name: Seq<char>) -> Seq<char> {
    module_of(stem_and_extension(name).0) + ".py"@
}

/// The source a bytecode file at path `pyc` belongs to: the source file
/// of its name, next to the directory holding its cache directory
/// (`.../pkg/__pycache__/mod.cpython-312.pyc` -> `.../pkg/mod.py`);
/// `None` when the path has no file name or no grandparent.
pub open spec fn spec_bytecode_source(pyc: Seq<char>) -> Option<Seq<char>> {
    match spec_file_name(pyc) {
        None => None,
        Some(n) => match spec_parent(pyc) {
            None => None,
            Some(cache) => match spec_parent(cache) {
                None => None,
                Some(project) => Some(spec_join(project, spec_source_file(n))),
            },
        },
    }
}

/// The stem of a file name: the part before its extension.
fn stem_of(name: &str) -> (r: &str)
    ensures
        r@ == stem_and_extension(name@).0,
{
    let n = name.unicode_len();
    if n == 2 && name.get_char(0) == '.' && name.get_char(1) == '.' {
        assert(name@ =~= seq!['.', '.']);
        return name;
    }
    proof {
        if name@ == seq!['.', '.'] {
            assert(name@[0] == '.' && name@[1] == '.');
        }
    }
    match find_last_dot(name) {
        None => name,
        Some(i) => if i == 0 {
            name
        } else {
            let stem = name.substring_char(0, i);
            assert(stem@ =~= name@.take(i as int));
            stem
        },
    }
}

/// Whether a file name is a bytecode file name.
pub fn is_bytecode(name: &str) -> (r: bool)
    ensures
        r == spec_is_bytecode(name@),
{
    proof {
        reveal_strlit("pyc");
        reveal_strlit("pyo");
    }
    let n = name.unicode_len();
    if n == 2 && name.get_char(0) == '.' && name.get_char(1) == '.' {
        assert(name@ =~= seq!['.', '.']);
        return false;
    }
    proof {
        if name@ == seq!['.', '.'] {
            assert(name@[0] == '.' && name@[1] == '.');
        }
    }
    let i = match find_last_dot(name) {
        Some(i) => i,
        None => return false,
    };
    if i == 0 {
        return false;
    }
    let ext = name.substring_char(i + 1, n);
    assert(ext@ =~= name@.skip(i + 1));
    str_eq_ascii_ci(ext, "pyc") || str_eq_ascii_ci(ext, "pyo")
}

/// The source file name a bytecode file name belongs to.
pub fn source_file(name: &str) -> (r: String)
    ensures
        r@ == spec_source_file(name@),
{
    proof {
        reveal_strlit("opt-");
    }
    let stem = stem_of(name);
    let m = stem.unicode_len();
    let module = match find_last_dot(stem) {
        None => stem,
        Some(j) => {
            let head = stem.substring_char(0, j);
            let tag = stem.substring_char(j + 1, m);
            assert(head@ =~= stem@.take(j as int));
            assert(tag@ =~= stem@.skip(j + 1));
            if str_starts_with(tag, "opt-") {
                match find_last_dot(head) {
                    Some(k) => {
                        let h = head.substring_char(0, k);
                        assert(h@ =~= head@.take(k as int));
                        h
                    },
                    None => head,
                }
            } else {
                head
            }
        },
    };
    concat(module, ".py")
}

/// The source a bytecode file at path `pyc` belongs to, next to the
/// directory holding its cache directory.
pub fn bytecode_source(pyc: &str) -> (r: Option<String>)
    ensures
        match r {
            Some(s) => spec_bytecode_source(pyc@) == Some(s@),
            None => spec_bytecode_source(pyc@) is None,
        },
{
    let name = match file_name(pyc) {
        Some(n) => n,
        None => return None,
    };
    let cache = match parent_path(pyc) {
        Some(c) => c,
        None => return None,
    };
    let project = match parent_path(cache.as_str()) {
        Some(p) => p,
        None => return None,
    };
    let source = source_file(name.as_str());
    Some(join(project.as_str(), source.as_str()))
}

/// One entry of a `__pycache__` directory as the caller found it, with
/// whether [`bytecode_source`] of its path is a file.
pub struct PycEntry {
    pub name: String,
    pub is_file: bool,
    pub len: u64,
    pub source_is_file: bool,
}

/// An entry is a bytecode file whose source exists.
pub open spec fn entry_backed(e: PycEntry) -> bool {
    e.is_file && spec_is_bytecode(e.name@) && e.source_is_file
}

/// Total length of the entries.
pub open spec fn total_len(es: Seq<PycEntry>) -> nat
    decreases es.len(),
{
    if es.len() == 0 {
        0
    } else {
        total_len(es.drop_last()) + es.last().len as nat
    }
}

/// The bytes of a cache directory every entry of which is backed
/// bytecode; `None` when it is empty, holds anything else, or holds no
/// bytes.
pub open spec fn spec_backed_bytes(es: Seq<PycEntry>) -> Option<nat> {
    if es.len() > 0 && (forall|k: int| 0 <= k < es.len() ==> entry_backed(#[trigger] es[k])) && total_len(es) > 0 {
        Some(total_len(es))
    } else {
        None
    }
}

/// The backed bytes of a cache directory's entries.
pub fn backed_bytes(entries: &[PycEntry]) -> (r: Option<u64>)
    requires
        total_len(entries@) <= u64::MAX,
    ensures
        match r {
            Some(b) => spec_backed_bytes(entries@) == Some(b as nat),
            None => spec_backed_bytes(entries@) is None,
        },
{
    let mut total: u64 = 0;
    let mut i: usize = 0;
    while i < entries.len()
        invariant
            i <= entries@.len(),
            total_len(entries@) <= u64::MAX,
            total == total_len(entries@.take(i as int)),
            forall|k: int| 0 <= k < i ==> entry_backed(#[trigger] entries@[k]),
        decreases entries@.len() - i,
    {
        let e = &entries[i];
        let backed = e.is_file && e.source_is_file && is_bytecode(e.name.as_str());
        if !backed {
            return None;
        }
        assert(entries@.take(i + 1).drop_last() =~= entries@.take(i as int));
        proof {
            lemma_total_len_prefix(entries@, i + 1);
        }
        total = total + e.len;
        i = i + 1;
    }
    assert(entries@.take(entries@.len() as int) =~= entries@);
    if entries.len() == 0 || total == 0 {
        return None;
    }
    Some(total)
}

/// A prefix is no longer than the whole.
proof fn lemma_total_len_prefix(es: Seq<PycEntry>, i: int)
    requires
        0 <= i <= es.len(),
    ensures
        total_len(es.take(i)) <= total_len(es),
    decreases es.len() - i,
{
    if i < es.len() {
        lemma_total_len_prefix(es, i + 1);
        assert(es.take(i + 1).drop_last() =~= es.take(i));
    } else {
        assert(es.take(i) =~= es);
    }
}

/// Directory names the bytecode walk never enters.
pub open spec fn pycache_walk_skips() -> Seq<Seq<char>> {
    seq![".git"@, "node_modules"@, "target"@, "build"@, ".venv"@, "venv"@, ".tox"@, ".mypy_cache"@, ".pytest_cache"@]
}

/// The walk enters a directory unless it is skipped by name, is a link,
/// or is a virtual environment (holds `pyvenv.cfg`).
pub open spec fn spec_walk_enters(name: Seq<char>, is_link: bool, is_venv: bool, windows: bool) -> bool {
    !matches_listed(pycache_walk_skips(), name, windows) && !is_link && !is_venv
}

/// Whether the bytecode walk enters a directory.
pub fn walk_enters(name: &str, is_link: bool, is_venv: bool, windows: bool) -> (r: bool)
    ensures
        r == spec_walk_enters(name@, is_link, is_venv, windows),
{
    let skips: Vec<&'static str> = vec![
        ".git", "node_modules", "target", "build", ".venv", "venv", ".tox", ".mypy_cache", ".pytest_cache",
    ];
    assert(skips@.map_values(|s: &'static str| s@) =~= pycache_walk_skips());
    !matches_any(&skips, name, windows) && !is_link && !is_venv
}

/// Whether a directory found by the walk is a bytecode cache.
pub fn is_cache_dir(name: &str, windows: bool) -> (r: bool)
    ensures
        r == spec_name_matches("__pycache__"@, name@, windows),
{
    name_matches("__pycache__", name, windows)
}

/// Why a backed cache is safe.
pub open spec fn backed_detail() -> Seq<char> {
    "Bytecode with matching sources; regenerated on next import."@
}

impl PyCacheDetector {
    /// The finding for a backed cache directory `dir`: its bytes are the
    /// larger of the tree size and the backed bytecode.
    pub fn finding(&self, dir: &str, backed: u64, dir_bytes: u64) -> (r: Finding)
        ensures
            r.detector_id@ == "pycache"@,
            r.label@ == "__pycache__/ ("@ + spec_short_parent(dir@) + ")"@,
            r.bytes == if dir_bytes >= backed { dir_bytes } else { backed },
            r.safety == Safety::Safe,
            r.detail@ == backed_detail(),
            r.action matches CleanAction::RemovePath { path } && path@ == dir@,
    {
        let parent = short_parent(dir);
        Finding {
            detector_id: "pycache".to_owned(),
            label: concat3("__pycache__/ (", parent.as_str(), ")"),
            bytes: if dir_bytes >= backed { dir_bytes } else { backed },
            safety: Safety::Safe,
            detail: "Bytecode with matching sources; regenerated on next import.".to_owned(),
            action: CleanAction::RemovePath { path: dir.to_owned() },
        }
    }
}

} // verus!

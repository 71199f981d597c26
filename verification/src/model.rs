//! Shared data model: the records the scanner, detectors and cleaner
//! exchange, and the safety levels that gate every deletion.
//!
//! Paths are carried as text (`String`), exactly as they are displayed and
//! compared by the path logic in [`crate::paths`].

use vstd::prelude::*;
use crate::text::{eq_ascii_ci, str_eq_ascii_ci};

verus! {

/// Version of the machine-readable contract. Bumped on any breaking change.
pub const SCHEMA_VERSION: u32 = 1;

/// How safe it is to delete something. Ordered `Safe < Caution < Danger`.
#[derive(Debug, Clone, Copy, PartialEq, Eq, Structural, PartialOrd, Ord, Hash)]
pub enum Safety {
    /// Regenerable caches and build output.
    Safe,
    /// Deletable, but rebuilding costs real time or bandwidth.
    Caution,
    /// Data-loss risk; never touched without an explicit force.
    Danger,
}

impl Safety {
    /// Position in the order `Safe < Caution < Danger`.
    pub open spec fn rank(self) -> int {
        match self {
            Safety::Safe => 0,
            Safety::Caution => 1,
            Safety::Danger => 2,
        }
    }

    /// The rank of a level as a number (0, 1, 2).
    pub fn level(self) -> (r: u8)
        ensures
            r == self.rank(),
    {
        match self {
            Safety::Safe => 0,
            Safety::Caution => 1,
            Safety::Danger => 2,
        }
    }

    /// Parses the `safe` / `caution` / `all` ceiling, ignoring ASCII case.
    pub fn parse_level(s: &str) -> (r: Option<IncludeLevel>)
        ensures
            r == spec_parse_level(s@),
    {
        proof {
            reveal_strlit("safe");
            reveal_strlit("caution");
            reveal_strlit("all");
        }
        if str_eq_ascii_ci(s, "safe") {
            Some(IncludeLevel::Safe)
        } else if str_eq_ascii_ci(s, "caution") {
            Some(IncludeLevel::Caution)
        } else if str_eq_ascii_ci(s, "all") {
            Some(IncludeLevel::All)
        } else {
            None
        }
    }
}

/// What `parse_level` accepts: the three level names, in any ASCII case.
pub open spec fn spec_parse_level(s: Seq<char>) -> Option<IncludeLevel> {
    if eq_ascii_ci(s, seq!['s', 'a', 'f', 'e']) {
        Some(IncludeLevel::Safe)
    } else if eq_ascii_ci(s, seq!['c', 'a', 'u', 't', 'i', 'o', 'n']) {
        Some(IncludeLevel::Caution)
    } else if eq_ascii_ci(s, seq!['a', 'l', 'l']) {
        Some(IncludeLevel::All)
    } else {
        None
    }
}

/// Which safety levels a clean run may include.
#[derive(Debug, Clone, Copy, PartialEq, Eq, Structural, Hash)]
pub enum IncludeLevel {
    Safe,
    Caution,
    All,
}

impl IncludeLevel {
    /// The level ceiling as a predicate (Danger additionally needs a force).
    pub open spec fn spec_allows(self, safety: Safety) -> bool {
        match self {
            IncludeLevel::Safe => safety == Safety::Safe,
            IncludeLevel::Caution => safety.rank() <= Safety::Caution.rank(),
            IncludeLevel::All => true,
        }
    }

    /// Whether `safety` is within this ceiling.
    pub fn allows(self, safety: Safety) -> (r: bool)
        ensures
            r == self.spec_allows(safety),
    {
        match self {
            IncludeLevel::Safe => safety == Safety::Safe,
            IncludeLevel::Caution => safety.level() <= 1,
            IncludeLevel::All => true,
        }
    }
}

/// Options of a directory scan.
#[derive(Debug, Clone)]
pub struct ScanOptions {
    /// Max entries in the ranked report.
    pub top: usize,
    /// Hide entries smaller than this (bytes).
    pub min_bytes: u64,
    /// Individually list files at/above this size (bytes).
    pub min_file_bytes: u64,
    /// Stay on the same filesystem as the scan root.
    pub same_filesystem: bool,
}

impl Default for ScanOptions {
    fn default() -> (r: Self)
        ensures
            r.top == 30,
            r.min_bytes == 1024 * 1024,
            r.min_file_bytes == 10 * 1024 * 1024,
            !r.same_filesystem,
    {
        ScanOptions { top: 30, min_bytes: 1024 * 1024, min_file_bytes: 10 * 1024 * 1024, same_filesystem: false }
    }
}

/// One ranked entry of a scan report (directory or large file).
#[derive(Debug, Clone)]
pub struct DirEntry {
    pub path: String,
    pub bytes: u64,
    /// Files contained (1 for a file entry itself).
    pub files: u64,
    /// Depth relative to the scan root (root = 0).
    pub depth: usize,
    pub is_dir: bool,
}

/// Result of scanning one root.
#[derive(Debug, Clone)]
pub struct ScanReport {
    pub schema_version: u32,
    pub root: String,
    pub total_bytes: u64,
    pub total_files: u64,
    pub total_dirs: u64,
    /// Non-fatal problems; capped, see `warnings_suppressed`.
    pub warnings: Vec<String>,
    pub warnings_suppressed: usize,
    /// Ranked largest-first, filtered and truncated to `top`.
    pub entries: Vec<DirEntry>,
}

/// How a finding can be cleaned.
#[derive(Debug, Clone)]
pub enum CleanAction {
    /// Delete this path (trash by default, permanent on request).
    RemovePath { path: String },
    /// Needs an external program; reported, never run.
    RunCommand { program: String, args: Vec<String>, description: String },
    /// Human steps.
    Manual { instructions: String },
}

/// One cleanable thing found by a detector.
#[derive(Debug, Clone)]
pub struct Finding {
    /// Stable detector id, selectable by the user.
    pub detector_id: String,
    pub label: String,
    pub bytes: u64,
    pub safety: Safety,
    pub detail: String,
    pub action: CleanAction,
}

/// Options of clean planning and execution.
#[derive(Debug, Clone)]
pub struct CleanOptions {
    /// false = dry run: plan and report, delete nothing.
    pub execute: bool,
    /// true = move to the Recycle Bin / Trash; false = permanent delete.
    pub to_trash: bool,
    pub include_level: IncludeLevel,
    /// Required to touch `Danger` items even with `IncludeLevel::All`.
    pub force_danger: bool,
}

impl Default for CleanOptions {
    fn default() -> (r: Self)
        ensures
            !r.execute,
            r.to_trash,
            r.include_level == IncludeLevel::Safe,
            !r.force_danger,
    {
        CleanOptions { execute: false, to_trash: true, include_level: IncludeLevel::Safe, force_danger: false }
    }
}

/// One item of a clean plan with its disposition.
#[derive(Debug, Clone)]
pub struct PlannedItem {
    pub finding: Finding,
    pub disposition: Disposition,
}

/// What the plan decided for one finding.
#[derive(Debug, Clone)]
pub enum Disposition {
    Remove { via: String },
    Skipped { reason: String },
}

/// The receipt every clean run (dry or real) produces.
#[derive(Debug, Clone)]
pub struct CleanReceipt {
    pub schema_version: u32,
    pub dry_run: bool,
    /// Bytes that would be / were freed.
    pub freed_bytes: u64,
    pub removed: Vec<RemovedItem>,
    pub skipped: Vec<SkippedItem>,
    pub errors: Vec<String>,
}

/// One removed (or, in a dry run, removable) path.
#[derive(Debug, Clone)]
pub struct RemovedItem {
    pub path: String,
    pub bytes: u64,
    /// "trash" or "permanent".
    pub via: String,
    pub safety: Safety,
}

/// One finding left alone, with the reason.
#[derive(Debug, Clone)]
pub struct SkippedItem {
    pub label: String,
    pub safety: Safety,
    pub reason: String,
}

} // verus!

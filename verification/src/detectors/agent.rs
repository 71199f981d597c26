//! AI coding-agent artifacts: task work outputs and old session logs under
//! `~/.codex`.
//!
//! All findings are caution: re-running a task regenerates its output,
//! but that can take minutes. Task outputs must be quiet for a week and
//! session shards untouched for thirty days, across their whole tree.

use vstd::prelude::*;
use super::{candidate, dir_finding, finding_for, is_candidate, reported, Candidate, Ctx, DirProbe, Detector};
use super::context::join2;
use crate::model::{Finding, Safety};
use crate::paths::{file_name, join, spec_file_name};
use crate::text::concat3;

verus! {

/// Agent task outputs and old sessions.
pub struct AgentArtifactsDetector;

impl Detector for AgentArtifactsDetector {
    fn id(&self) -> (r: &'static str)
        ensures
            r@ == "agent-artifacts"@,
    {
        "agent-artifacts"
    }

    fn label(&self) -> (r: &'static str)
        ensures
            r@ == "AI agent task artifacts"@,
    {
        "AI agent task artifacts"
    }
}

/// Directories below this size are not reported.
pub const MIN_BYTES: u64 = 10485760;
/// Task outputs must be untouched for this many days.
pub const TASK_QUIET_DAYS: u64 = 7;
/// Session shards older than this many days are no longer active.
pub const SESSION_MAX_AGE_DAYS: u64 = 30;

/// The last component of a path, or the empty text.
pub open spec fn name_or_empty(p: Seq<char>) -> Seq<char> {
    match spec_file_name(p) {
        Some(n) => n,
        None => Seq::empty(),
    }
}

/// The last component of a path, or the empty text.
fn last_name(p: &str) -> (r: String)
    ensures
        r@ == name_or_empty(p@),
{
    match file_name(p) {
        Some(n) => n,
        None => String::new(),
    }
}

/// Why task outputs may go.
pub open spec fn task_detail() -> Seq<char> {
    "Task build output; re-running the agent task regenerates it."@
}

/// Why old sessions may go.
pub open spec fn session_detail() -> Seq<char> {
    "Session transcripts older than 30 days; the agent keeps running without them."@
}

impl AgentArtifactsDetector {
    /// The directory of task outputs, one subdirectory per task.
    pub fn work_dir(&self, ctx: &Ctx) -> (r: String)
        ensures
            r@ == join2(ctx.home@, ".codex"@, "work_artifacts"@),
    {
        let codex = join(ctx.home.as_str(), ".codex");
        join(codex.as_str(), "work_artifacts")
    }

    /// The directory of session logs, by year and then month.
    pub fn sessions_dir(&self, ctx: &Ctx) -> (r: String)
        ensures
            r@ == join2(ctx.home@, ".codex"@, "sessions"@),
    {
        let codex = join(ctx.home.as_str(), ".codex");
        join(codex.as_str(), "sessions")
    }

    /// The candidate for one quiet task directory.
    pub fn task_candidate(&self, path: &str) -> (r: Candidate)
        ensures
            is_candidate(r, "agent task output ("@ + name_or_empty(path@) + ")"@, path@, Safety::Caution, task_detail()),
    {
        let name = last_name(path);
        candidate(concat3("agent task output (", name.as_str(), ")"), path.to_owned(), Safety::Caution,
            "Task build output; re-running the agent task regenerates it.")
    }

    /// The candidate for one old month of sessions.
    pub fn session_candidate(&self, path: &str) -> (r: Candidate)
        ensures
            is_candidate(r, "old agent sessions ("@ + name_or_empty(path@) + ")"@, path@, Safety::Caution, session_detail()),
    {
        let name = last_name(path);
        candidate(concat3("old agent sessions (", name.as_str(), ")"), path.to_owned(), Safety::Caution,
            "Session transcripts older than 30 days; the agent keeps running without them.")
    }

    /// The finding for a candidate found as `probe` says: a real
    /// directory of at least 10 MiB.
    pub fn sized(&self, c: Candidate, probe: &DirProbe) -> (r: Option<Finding>)
        ensures
            r is Some <==> (reported(*probe) && probe.bytes >= MIN_BYTES),
            r matches Some(f) ==> finding_for(f, "agent-artifacts"@, c, probe.bytes),
    {
        match dir_finding("agent-artifacts", c, probe) {
            Some(f) => if f.bytes >= MIN_BYTES { Some(f) } else { None },
            None => None,
        }
    }
}

} // verus!

//! Docker Desktop's data disk: reported with pruning steps, never
//! deleted (volumes may hold database data). Only disk metadata is read;
//! the Docker CLI is never run.

use vstd::prelude::*;
use super::Detector;
use crate::model::{CleanAction, Finding, Safety};
use crate::paths::{short_name, spec_short_name};
use crate::text::concat3;

verus! {

/// The Docker Desktop data disk.
pub struct DockerDetector;

impl Detector for DockerDetector {
    fn id(&self) -> (r: &'static str)
        ensures
            r@ == "docker"@,
    {
        "docker"
    }

    fn label(&self) -> (r: &'static str)
        ensures
            r@ == "Docker Desktop data disk"@,
    {
        "Docker Desktop data disk"
    }
}

/// What the metadata of a data disk file says (following links).
pub struct FileMeta {
    pub is_file: bool,
    pub len: u64,
}

/// What the disk is and how to shrink it.
pub open spec fn docker_detail() -> Seq<char> {
    "Docker Desktop's VM disk. Free inside Docker first (`docker system prune -a --volumes`, `docker builder prune -a -f`), then restart Desktop to compact. Volumes may hold database data — confirm before pruning."@
}

/// The pruning steps.
pub open spec fn docker_steps() -> Seq<char> {
    "1) docker system prune -a --volumes -f  2) docker builder prune -a -f  3) restart Docker Desktop to compact the vhdx."@
}

impl DockerDetector {
    /// The report for the data disk at `path` with metadata `meta`
    /// (`None` when unreadable): a non-empty file is reported, with the
    /// pruning steps.
    pub fn finding(&self, path: &str, meta: Option<FileMeta>) -> (r: Option<Finding>)
        ensures
            r is Some <==> (meta matches Some(m) && m.is_file && m.len > 0),
            r matches Some(f) ==> {
                &&& f.detector_id@ == "docker"@
                &&& f.label@ == "docker data disk ("@ + spec_short_name(path@) + ")"@
                &&& f.bytes == meta->Some_0.len
                &&& f.safety == Safety::Caution
                &&& f.detail@ == docker_detail()
                &&& f.action matches CleanAction::Manual { instructions } && instructions@ == docker_steps()
            },
    {
        let m = match meta {
            Some(m) => m,
            None => return None,
        };
        if !m.is_file || m.len == 0 {
            return None;
        }
        let name = short_name(path);
        Some(Finding {
            detector_id: "docker".to_owned(),
            label: concat3("docker data disk (", name.as_str(), ")"),
            bytes: m.len,
            safety: Safety::Caution,
            detail: "Docker Desktop's VM disk. Free inside Docker first (`docker system prune -a --volumes`, `docker builder prune -a -f`), then restart Desktop to compact. Volumes may hold database data — confirm before pruning.".to_owned(),
            action: CleanAction::Manual {
                instructions: "1) docker system prune -a --volumes -f  2) docker builder prune -a -f  3) restart Docker Desktop to compact the vhdx.".to_owned(),
            },
        })
    }
}

} // verus!

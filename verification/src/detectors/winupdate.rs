//! Windows servicing leftovers: update downloads and a previous Windows
//! installation, reported with the remediation and never deleted.

use vstd::prelude::*;
use super::{reported, Detector, DirProbe};
use super::context::join2;
use crate::model::{CleanAction, Finding, Safety};
use crate::paths::{join, parent_path, spec_join, spec_parent};
use crate::text::concat;

verus! {

/// Windows update leftovers.
pub struct WindowsUpdateDetector;

impl Detector for WindowsUpdateDetector {
    fn id(&self) -> (r: &'static str)
        ensures
            r@ == "windows-update"@,
    {
        "windows-update"
    }

    fn label(&self) -> (r: &'static str)
        ensures
            r@ == "Windows update leftovers"@,
    {
        "Windows update leftovers"
    }
}

/// Leftovers below this size are not worth a report.
pub const MIN_BYTES: u64 = 52428800;

/// A servicing location and how to clear it.
pub struct UpdateTarget {
    pub name: String,
    pub path: String,
    pub instructions: String,
}

/// How to clear update downloads.
pub open spec fn downloads_steps() -> Seq<char> {
    "Run Disk Cleanup (cleanmgr) as admin, or: `net stop wuauserv`, delete the contents of SoftwareDistribution\\Download, `net start wuauserv`."@
}

/// How to remove a previous installation.
pub open spec fn old_install_steps() -> Seq<char> {
    "Use Settings > System > Storage > Temporary files > Previous Windows installations. Do not delete by hand while rollback is offered."@
}

/// The bytes of a servicing location as `probe` found it: `None` unless
/// it is a real directory holding bytes.
pub fn sized_bytes(probe: &DirProbe) -> (r: Option<u64>)
    ensures
        r == if reported(*probe) { Some(probe.bytes) } else { None::<u64> },
{
    if probe.is_dir && !probe.is_link && probe.bytes > 0 {
        Some(probe.bytes)
    } else {
        None
    }
}

impl WindowsUpdateDetector {
    /// The servicing locations of the Windows root `windows`: update
    /// downloads, and `Windows.old` beside the root when it has a parent.
    pub fn targets(&self, windows: &str) -> (r: Vec<UpdateTarget>)
        ensures
            r@.len() == if spec_parent(windows@) is Some { 2int } else { 1int },
            r@[0].name@ == "update downloads"@,
            r@[0].path@ == join2(windows@, "SoftwareDistribution"@, "Download"@),
            r@[0].instructions@ == downloads_steps(),
            spec_parent(windows@) matches Some(drive) ==> {
                &&& r@[1].name@ == "previous Windows install"@
                &&& r@[1].path@ == spec_join(drive, "Windows.old"@)
                &&& r@[1].instructions@ == old_install_steps()
            },
    {
        let mut v: Vec<UpdateTarget> = Vec::new();
        let sd = join(windows, "SoftwareDistribution");
        v.push(UpdateTarget {
            name: "update downloads".to_owned(),
            path: join(sd.as_str(), "Download"),
            instructions: "Run Disk Cleanup (cleanmgr) as admin, or: `net stop wuauserv`, delete the contents of SoftwareDistribution\\Download, `net start wuauserv`.".to_owned(),
        });
        match parent_path(windows) {
            Some(drive) => {
                v.push(UpdateTarget {
                    name: "previous Windows install".to_owned(),
                    path: join(drive.as_str(), "Windows.old"),
                    instructions: "Use Settings > System > Storage > Temporary files > Previous Windows installations. Do not delete by hand while rollback is offered.".to_owned(),
                });
            },
            None => {},
        }
        v
    }

    /// The report for a target whose directory holds `bytes` (`None`
    /// when it is absent or not a real directory): leftovers of at least
    /// 50 MiB are reported with the target's steps.
    pub fn finding(&self, target: &UpdateTarget, bytes: Option<u64>) -> (r: Option<Finding>)
        ensures
            r is Some <==> (bytes matches Some(b) && b >= MIN_BYTES),
            r matches Some(f) ==> {
                &&& f.detector_id@ == "windows-update"@
                &&& f.label@ == "windows "@ + target.name@
                &&& f.bytes == bytes->Some_0
                &&& f.safety == Safety::Caution
                &&& f.detail@ == "Servicing leftovers owned by Windows Update."@
                &&& f.action matches CleanAction::Manual { instructions } && instructions@ == target.instructions@
            },
    {
        let b = match bytes {
            Some(b) => b,
            None => return None,
        };
        if b < MIN_BYTES {
            return None;
        }
        Some(Finding {
            detector_id: "windows-update".to_owned(),
            label: concat("windows ", target.name.as_str()),
            bytes: b,
            safety: Safety::Caution,
            detail: "Servicing leftovers owned by Windows Update.".to_owned(),
            action: CleanAction::Manual { instructions: target.instructions.clone() },
        })
    }
}

} // verus!

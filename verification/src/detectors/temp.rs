//! OS temp dir: the largest entries whose whole tree has been untouched
//! for a week.
//!
//! Conservative by design: fresh temp files may belong to running
//! programs. Age of every descendant, a size floor and a cap of five keep
//! this to forgotten junk such as stale installer extractions; freshness
//! is checked again before deletion.

use vstd::prelude::*;
use super::Detector;
use crate::model::{CleanAction, Finding, Safety};
use crate::paths::{short_name, spec_short_name};
use crate::text::concat;

verus! {

/// Stale temp entries.
pub struct TempDetector;

impl Detector for TempDetector {
    fn id(&self) -> (r: &'static str)
        ensures
            r@ == "temp"@,
    {
        "temp"
    }

    fn label(&self) -> (r: &'static str)
        ensures
            r@ == "Stale temp files"@,
    {
        "Stale temp files"
    }
}

/// Entries below this size are never flagged.
pub const MIN_BYTES: u64 = 1048576;
/// Most entries flagged.
pub const MAX_FINDINGS: usize = 5;
/// Every descendant must be older than this many days.
pub const MIN_AGE_DAYS: u64 = 7;

/// One entry of the temp dir as the caller found it: a link, whether its
/// whole readable tree is older than [`MIN_AGE_DAYS`], and its bytes.
pub struct TempEntry {
    pub path: String,
    pub is_link: bool,
    pub stale: bool,
    pub bytes: u64,
}

/// An entry worth flagging.
pub open spec fn qualifies(e: TempEntry) -> bool {
    !e.is_link && e.stale && e.bytes >= MIN_BYTES
}

/// The qualifying entries, in order.
pub open spec fn qualified(es: Seq<TempEntry>) -> Seq<TempEntry>
    decreases es.len(),
{
    if es.len() == 0 {
        Seq::empty()
    } else {
        qualified(es.drop_last()) + if qualifies(es.last()) { seq![es.last()] } else { Seq::empty() }
    }
}

/// Where an entry of `b` bytes goes in a list ordered largest first:
/// after every entry at least as large.
pub open spec fn first_smaller(s: Seq<TempEntry>, b: u64) -> nat
    decreases s.len(),
{
    if s.len() == 0 || s[0].bytes < b {
        0
    } else {
        1 + first_smaller(s.drop_first(), b)
    }
}

/// The entries ordered largest first, equal sizes in their input
/// order.
pub open spec fn sort_desc(s: Seq<TempEntry>) -> Seq<TempEntry>
    decreases s.len(),
{
    if s.len() == 0 {
        Seq::empty()
    } else {
        let t = sort_desc(s.drop_last());
        t.insert(first_smaller(t, s.last().bytes) as int, s.last())
    }
}

/// The entries flagged: the largest qualifying ones, at most five.
pub open spec fn chosen(es: Seq<TempEntry>) -> Seq<TempEntry> {
    let q = sort_desc(qualified(es));
    if q.len() > MAX_FINDINGS {
        q.take(MAX_FINDINGS as int)
    } else {
        q
    }
}

/// Why a stale entry may go.
pub open spec fn stale_detail() -> Seq<char> {
    "Untouched for over 7 days inside the OS temp dir."@
}

/// `f` is the finding for the stale entry `e`.
pub open spec fn stale_finding(f: Finding, e: TempEntry) -> bool {
    &&& f.detector_id@ == "temp"@
    &&& f.label@ == "stale temp: "@ + spec_short_name(e.path@)
    &&& f.bytes == e.bytes
    &&& f.safety == Safety::Caution
    &&& f.detail@ == stale_detail()
    &&& f.action matches CleanAction::RemovePath { path } && path@ == e.path@
}

/// The position of the first entry smaller than `b`.
fn position_for(s: &Vec<TempEntry>, b: u64) -> (r: usize)
    ensures
        r == first_smaller(s@, b),
        r <= s@.len(),
{
    let mut p: usize = 0;
    assert(s@.skip(0) =~= s@);
    while p < s.len() && s[p].bytes >= b
        invariant
            p <= s@.len(),
            first_smaller(s@, b) == p + first_smaller(s@.skip(p as int), b),
        decreases s@.len() - p,
    {
        assert(s@.skip(p as int).drop_first() =~= s@.skip(p + 1));
        assert(s@.skip(p as int)[0] == s@[p as int]);
        p = p + 1;
    }
    proof {
        if p < s@.len() {
            assert(s@.skip(p as int)[0] == s@[p as int]);
        }
    }
    p
}

impl TempDetector {
    /// The findings for the temp dir's entries: links, fresh entries and
    /// entries under 1 MiB are dropped; the five largest of the rest are
    /// flagged (caution), largest first.
    pub fn findings(&self, entries: Vec<TempEntry>) -> (r: Vec<Finding>)
        ensures
            r@.len() == chosen(entries@).len(),
            forall|k: int| 0 <= k < r@.len() ==> stale_finding(#[trigger] r@[k], chosen(entries@)[k]),
    {
        let ghost all = entries@;
        let mut rest = entries;
        let mut sorted: Vec<TempEntry> = Vec::new();
        let ghost mut taken: nat = 0;
        while rest.len() > 0
            invariant
                taken <= all.len(),
                rest@ == all.skip(taken as int),
                sorted@ == sort_desc(qualified(all.take(taken as int))),
            decreases rest@.len(),
        {
            let e = rest.remove(0);
            proof {
                assert(e == all[taken as int]);
                assert(all.take(taken + 1int).drop_last() =~= all.take(taken as int));
                assert(all.take(taken + 1int).last() == all[taken as int]);
            }
            if !e.is_link && e.stale && e.bytes >= MIN_BYTES {
                let p = position_for(&sorted, e.bytes);
                sorted.insert(p, e);
                proof {
                    let q = qualified(all.take(taken as int));
                    assert(qualified(all.take(taken + 1int)) =~= q.push(all[taken as int]));
                    assert(q.push(all[taken as int]).drop_last() =~= q);
                }
            } else {
                proof {
                    assert(qualified(all.take(taken + 1int)) =~= qualified(all.take(taken as int)));
                }
            }
            proof {
                taken = taken + 1;
                assert(rest@ =~= all.skip(taken as int));
            }
        }
        assert(all.take(taken as int) =~= all);
        sorted.truncate(MAX_FINDINGS);
        assert(sorted@ =~= chosen(all));
        let mut out: Vec<Finding> = Vec::new();
        let mut i: usize = 0;
        while i < sorted.len()
            invariant
                sorted@ == chosen(all),
                i <= sorted@.len(),
                out@.len() == i,
                forall|k: int| 0 <= k < i ==> stale_finding(#[trigger] out@[k], chosen(all)[k]),
            decreases sorted@.len() - i,
        {
            let e = &sorted[i];
            let name = short_name(e.path.as_str());
            proof {
                reveal_strlit("stale temp: ");
            }
            out.push(Finding {
                detector_id: "temp".to_owned(),
                label: concat("stale temp: ", name.as_str()),
                bytes: e.bytes,
                safety: Safety::Caution,
                detail: "Untouched for over 7 days inside the OS temp dir.".to_owned(),
                action: CleanAction::RemovePath { path: e.path.clone() },
            });
            i = i + 1;
        }
        out
    }
}

} // verus!

//! Whether a whole tree has been left alone long enough.
//!
//! Conservative by construction: an entry whose metadata cannot be read,
//! a link (or reparse point), or any entry modified at or after the
//! cutoff makes the tree "not quiet".

use vstd::prelude::*;

verus! {

/// Nanoseconds in a day.
pub const NANOS_PER_DAY: i128 = 86400000000000;

/// What a walk saw of one entry of a tree.
pub enum EntryAge {
    /// The entry or its metadata could not be read.
    Unreadable,
    /// The entry is a link or reparse point.
    Link,
    /// Last modified this many nanoseconds after the Unix epoch
    /// (negative before it).
    Modified(i128),
}

/// The instant `days` days before `now` (both in nanoseconds from the
/// epoch), when it is representable.
pub open spec fn spec_age_cutoff(now: i128, days: u64) -> Option<i128> {
    let c = now - days * NANOS_PER_DAY;
    if i128::MIN <= c { Some(c as i128) } else { None }
}

/// The instant `days` days before `now`, or `None` when it falls before
/// the earliest representable time.
pub fn age_cutoff(now: i128, days: u64) -> (r: Option<i128>)
    ensures
        r == spec_age_cutoff(now, days),
{
    assert(0 <= days * NANOS_PER_DAY <= 18446744073709551615 * NANOS_PER_DAY) by (nonlinear_arith)
        requires
            0 <= days <= 18446744073709551615u64,
    ;
    let span: i128 = (days as i128) * NANOS_PER_DAY;
    now.checked_sub(span)
}

/// An entry counts as old when it was read, is no link, and was last
/// modified strictly before the cutoff.
pub open spec fn spec_entry_is_old(e: EntryAge, cutoff: i128) -> bool {
    match e {
        EntryAge::Modified(t) => t < cutoff,
        _ => false,
    }
}

/// Whether one entry of a tree is older than the cutoff.
pub fn entry_is_old(e: &EntryAge, cutoff: i128) -> (r: bool)
    ensures
        r == spec_entry_is_old(*e, cutoff),
{
    match e {
        EntryAge::Modified(t) => *t < cutoff,
        _ => false,
    }
}

} // verus!

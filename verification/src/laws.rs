//! Properties that hold across findings, items and calls: planning and
//! execution (from the decision specifications in [`crate::cleaner`]),
//! the temp and Gradle detectors, scan reports, warning trimming, and the
//! ranking of findings.

use vstd::prelude::*;
use crate::cleaner::{outcome_removed, Job, JobOutcome, stricter_twin, covered, first_counted, first_errors, first_jobs, first_skipped, is_eligible, is_planned, lemma_reaches_plan, passes_gate, plan_reason, reaches_plan, resolved_path, duplicate_before, step_of, sum_bytes, withheld_inside, eligible_path, ItemProbe, PathProbe, Step, StatOutcome};
use crate::model::{CleanAction, CleanOptions, Disposition, Finding, PlannedItem, Safety};
use crate::paths::{path_within, same_path, spec_refusal};
use crate::detectors::temp::{chosen, first_smaller, qualified, qualifies, sort_desc, TempEntry, MAX_FINDINGS, MIN_BYTES};
use crate::detectors::gradle::{newest_cache, newest_dist, spec_parse_dist_version, spec_parse_simple_version, stale_cache, stale_dist, stale_names, ver_lt};
use crate::scanner::{
    char_utf8_len, dir_views, file_views, insert_pos, prefix_fitting, rank_views, report_views, spec_trim_warning,
    view_before, BigFile, DirTotal, EntryView, WalkTotals,
};
use crate::model::ScanOptions;
use crate::paths::{lemma_parts_lt_irreflexive, lemma_parts_lt_transitive, order_parts};
use crate::detectors::{lemma_ranks_total, lemma_with_key_add, lemma_with_key_members, lemma_with_key_one, rank_key, ranked, ranks_before, with_key};
use crate::text::lemma_text_lt_irreflexive;

verus! {

/// A finding is planned exactly when planning gives no reason to skip it.
pub proof fn lemma_planned_iff_no_reason(fs: Seq<Finding>, ps: Seq<PathProbe>, opts: CleanOptions, i: int)
    requires
        0 <= i < fs.len(),
    ensures
        is_planned(fs, ps, opts, i) <==> plan_reason(fs, ps, opts, i) is None,
{
}

/// Only findings within the level ceiling are planned, and a `Danger`
/// finding only with `force_danger`; only `RemovePath` actions are
/// planned, so commands and manual steps are never run.
pub proof fn law_plan_respects_gates(fs: Seq<Finding>, ps: Seq<PathProbe>, opts: CleanOptions, i: int)
    requires
        0 <= i < fs.len(),
        is_planned(fs, ps, opts, i),
    ensures
        opts.include_level.spec_allows(fs[i].safety),
        fs[i].safety == Safety::Danger ==> opts.force_danger,
        fs[i].action is RemovePath,
        ps[i].stat is Present,
        ps[i].ancestors is Ok,
{
    lemma_reaches_plan(fs, ps, opts, i);
}

/// Two planned findings never resolve to the same location: a duplicate
/// path is removed (and counted) once.
pub proof fn law_planned_paths_distinct(fs: Seq<Finding>, ps: Seq<PathProbe>, opts: CleanOptions, i: int, j: int)
    requires
        0 <= i < fs.len(),
        0 <= j < fs.len(),
        i != j,
        is_planned(fs, ps, opts, i),
        is_planned(fs, ps, opts, j),
    ensures
        !same_path(ps[i].canonical->Ok_0@, ps[j].canonical->Ok_0@),
{
    if same_path(ps[i].canonical->Ok_0@, ps[j].canonical->Ok_0@) {
        if i < j {
            assert(reaches_plan(fs, ps, opts, i));
            assert(duplicate_before(fs, ps, opts, j));
        } else {
            assert(reaches_plan(fs, ps, opts, j));
            assert(duplicate_before(fs, ps, opts, i));
        }
    }
}

/// No planned location lies inside another planned location: a finding
/// covered by a broader surviving finding is skipped.
pub proof fn law_planned_paths_not_nested(fs: Seq<Finding>, ps: Seq<PathProbe>, opts: CleanOptions, i: int, j: int)
    requires
        0 <= i < fs.len(),
        0 <= j < fs.len(),
        i != j,
        is_planned(fs, ps, opts, i),
        is_planned(fs, ps, opts, j),
    ensures
        !path_within(ps[i].canonical->Ok_0@, ps[j].canonical->Ok_0@),
{
    law_planned_paths_distinct(fs, ps, opts, i, j);
    lemma_reaches_plan(fs, ps, opts, i);
    lemma_reaches_plan(fs, ps, opts, j);
    if path_within(ps[i].canonical->Ok_0@, ps[j].canonical->Ok_0@) {
        assert(is_eligible(fs[j], ps[j], opts));
        assert(covered(fs, ps, opts, ps[i].canonical->Ok_0@));
    }
}

/// Deleting a planned location never removes a finding held back from the
/// run (filtered level, danger gate): every resolved finding at or inside
/// a planned location passes the run's gate, whatever other findings
/// resolve to the same place.
pub proof fn law_withheld_children_survive(fs: Seq<Finding>, ps: Seq<PathProbe>, opts: CleanOptions, i: int, k: int)
    requires
        0 <= i < fs.len(),
        0 <= k < fs.len(),
        is_planned(fs, ps, opts, i),
        resolved_path(fs[k], ps[k]) is Some,
        path_within(resolved_path(fs[k], ps[k])->0, ps[i].canonical->Ok_0@),
    ensures
        passes_gate(fs[k], opts),
{
    lemma_reaches_plan(fs, ps, opts, i);
    let c = ps[i].canonical->Ok_0@;
    let w = resolved_path(fs[k], ps[k])->0;
    if !passes_gate(fs[k], opts) {
        if same_path(w, c) {
            assert(fs[k].safety.rank() > fs[i].safety.rank());
            assert(stricter_twin(fs, ps, c, fs[i].safety.rank()));
        } else {
            assert(withheld_inside(fs, ps, opts, c));
        }
    }
}

/// A run performs only the displayed plan: every deletion job comes from a
/// plan item marked for removal, with that item's path and delete method,
/// a known method, the run's safety gate, a real (non-link) target, and
/// only when the run executes. A dry run therefore deletes nothing.
pub proof fn law_jobs_come_from_plan(items: Seq<PlannedItem>, probes: Seq<ItemProbe>, opts: CleanOptions, n: nat, m: int)
    requires
        n <= items.len(),
        n <= probes.len(),
        0 <= m < first_jobs(items, probes, opts, n).len(),
    ensures
        opts.execute,
        exists|i: int|
            0 <= i < n && {
                let job = first_jobs(items, probes, opts, n)[m];
                let f = #[trigger] items[i].finding;
                &&& items[i].disposition matches Disposition::Remove { via } && via@ == job.2
                &&& (job.2 == "trash"@ || job.2 == "permanent"@)
                &&& f.action matches CleanAction::RemovePath { path } && path@ == job.0
                &&& passes_gate(f, opts)
                &&& probes[i].stat matches StatOutcome::Present { is_dir } && is_dir == job.1
                &&& job.3 == f.bytes
            },
    decreases n,
{
    if n > 0 {
        let prev = first_jobs(items, probes, opts, (n - 1) as nat);
        if m < prev.len() {
            match step_of(items[n - 1], probes[n - 1], opts) {
                Step::Run { .. } => {
                    assert(first_jobs(items, probes, opts, n)[m] == prev[m]);
                },
                _ => {},
            }
            law_jobs_come_from_plan(items, probes, opts, (n - 1) as nat, m);
        } else {
            let i = n - 1;
            assert(items[i].finding == items[i].finding);
        }
    }
}

/// What a run's step for one item implies about the dry run's step for it.
proof fn lemma_run_step_was_previewed(item: PlannedItem, dry_probe: ItemProbe, run_probe: ItemProbe, dry: CleanOptions, opts: CleanOptions)
    requires
        opts.execute,
        !dry.execute,
        dry.include_level == opts.include_level,
        dry.force_danger == opts.force_danger,
        run_probe.ancestors is Ok ==> dry_probe.ancestors is Ok,
        step_of(item, run_probe, opts) is Run,
    ensures
        match (step_of(item, run_probe, opts), step_of(item, dry_probe, dry)) {
            (Step::Run { path, bytes, via, safety, .. }, Step::Counted { path: p, bytes: b, via: v, safety: s }) =>
                p == path && b == bytes && v == via && s == safety,
            _ => false,
        },
{
}

/// A run removes only what its dry-run preview of the same plan listed:
/// when the run executes, the preview does not, both have the same safety
/// gate, and every path whose ancestors the run found free of links was
/// found so by the preview too, each deletion job of the run is a removal
/// the preview lists, with the same path, bytes, delete method and safety.
pub proof fn law_run_removes_only_previewed(
    items: Seq<PlannedItem>,
    dry_probes: Seq<ItemProbe>,
    run_probes: Seq<ItemProbe>,
    dry: CleanOptions,
    opts: CleanOptions,
    n: nat,
    m: int,
)
    requires
        opts.execute,
        !dry.execute,
        dry.include_level == opts.include_level,
        dry.force_danger == opts.force_danger,
        n <= items.len(),
        n <= dry_probes.len(),
        n <= run_probes.len(),
        forall|i: int| 0 <= i < n && (#[trigger] run_probes[i]).ancestors is Ok ==> dry_probes[i].ancestors is Ok,
        0 <= m < first_jobs(items, run_probes, opts, n).len(),
    ensures
        exists|k: int|
            0 <= k < first_counted(items, dry_probes, dry, n).len() && {
                let job = first_jobs(items, run_probes, opts, n)[m];
                let d = #[trigger] first_counted(items, dry_probes, dry, n)[k];
                &&& d.0 == job.0
                &&& d.1 == job.3
                &&& d.2 == job.2
                &&& d.3 == job.5
            },
    decreases n,
{
    let i = n - 1;
    let prev_jobs = first_jobs(items, run_probes, opts, (n - 1) as nat);
    let prev_counted = first_counted(items, dry_probes, dry, (n - 1) as nat);
    let counted = first_counted(items, dry_probes, dry, n);
    assert(forall|k: int| 0 <= k < prev_counted.len() ==> counted[k] == #[trigger] prev_counted[k]) by {
        match step_of(items[i], dry_probes[i], dry) {
            Step::Counted { .. } => {},
            _ => {},
        }
    }
    assert(prev_counted.len() <= counted.len()) by {
        match step_of(items[i], dry_probes[i], dry) {
            Step::Counted { .. } => {},
            _ => {},
        }
    }
    if m < prev_jobs.len() {
        match step_of(items[i], run_probes[i], opts) {
            Step::Run { .. } => {
                assert(first_jobs(items, run_probes, opts, n)[m] == prev_jobs[m]);
            },
            _ => {},
        }
        law_run_removes_only_previewed(items, dry_probes, run_probes, dry, opts, (n - 1) as nat, m);
        let k = choose|k: int|
            0 <= k < prev_counted.len() && {
                let job = prev_jobs[m];
                let d = #[trigger] prev_counted[k];
                &&& d.0 == job.0
                &&& d.1 == job.3
                &&& d.2 == job.2
                &&& d.3 == job.5
            };
        assert(counted[k] == prev_counted[k]);
    } else {
        match step_of(items[i], run_probes[i], opts) {
            Step::Run { .. } => {},
            _ => {
                assert(first_jobs(items, run_probes, opts, n) == prev_jobs);
            },
        }
        assert(run_probes[i].ancestors is Ok ==> dry_probes[i].ancestors is Ok);
        lemma_run_step_was_previewed(items[i], dry_probes[i], run_probes[i], dry, opts);
        let k = prev_counted.len() as int;
        assert(counted[k] == counted[k]);
    }
}

/// A dry run never produces deletion jobs.
pub proof fn law_dry_run_deletes_nothing(items: Seq<PlannedItem>, probes: Seq<ItemProbe>, opts: CleanOptions, n: nat)
    requires
        !opts.execute,
        n <= items.len(),
        n <= probes.len(),
    ensures
        first_jobs(items, probes, opts, n).len() == 0,
{
    if first_jobs(items, probes, opts, n).len() > 0 {
        law_jobs_come_from_plan(items, probes, opts, n, 0);
    }
}

/// The checks an executing run makes before it looks at the path again:
/// item `i` is marked for removal of a path by a known method, within the
/// run's gates, structurally acceptable, with no linked ancestor, and its
/// detector's recheck (if any) still holds.
pub open spec fn passes_checks(items: Seq<PlannedItem>, probes: Seq<ItemProbe>, opts: CleanOptions, i: int) -> bool {
    &&& opts.execute
    &&& items[i].disposition matches Disposition::Remove { via } && (via@ == "trash"@ || via@ == "permanent"@)
    &&& items[i].finding.action matches CleanAction::RemovePath { path } && spec_refusal(path@) is None
    &&& passes_gate(items[i].finding, opts)
    &&& probes[i].ancestors is Ok
    &&& probes[i].still_valid
}

/// A path that vanished between planning and execution is recorded as
/// skipped ("vanished between plan and execute"), never as an error, and
/// nothing is deleted for it.
pub proof fn law_vanished_paths_are_skipped(items: Seq<PlannedItem>, probes: Seq<ItemProbe>, opts: CleanOptions, i: int)
    requires
        0 <= i < items.len(),
        probes.len() == items.len(),
        passes_checks(items, probes, opts, i),
        probes[i].stat is Missing,
    ensures
        first_skipped(items, probes, opts, (i + 1) as nat) == first_skipped(items, probes, opts, i as nat).push(
            (items[i].finding.label@, items[i].finding.safety, "vanished between plan and execute"@),
        ),
        first_errors(items, probes, opts, (i + 1) as nat) == first_errors(items, probes, opts, i as nat),
        first_jobs(items, probes, opts, (i + 1) as nat) == first_jobs(items, probes, opts, i as nat),
{
    assert(((i + 1) as nat - 1) as nat == i as nat);
}

/// A path that changed under the run (it became a link, or it can no
/// longer be inspected) is reported as an error and not deleted.
pub proof fn law_changed_paths_are_errors(items: Seq<PlannedItem>, probes: Seq<ItemProbe>, opts: CleanOptions, i: int)
    requires
        0 <= i < items.len(),
        probes.len() == items.len(),
        passes_checks(items, probes, opts, i),
        probes[i].stat is Link || probes[i].stat is Failed,
    ensures
        first_errors(items, probes, opts, (i + 1) as nat).len() == first_errors(items, probes, opts, i as nat).len() + 1,
        first_skipped(items, probes, opts, (i + 1) as nat) == first_skipped(items, probes, opts, i as nat),
        first_jobs(items, probes, opts, (i + 1) as nat) == first_jobs(items, probes, opts, i as nat),
{
    assert(((i + 1) as nat - 1) as nat == i as nat);
}

/// An item the plan skipped passes through a run unchanged: it adds its
/// skip record (label, safety, reason) right after those of the items
/// before it, and never a removal, an error or a deletion, whatever the
/// filesystem says and whatever the options.
pub proof fn law_skipped_items_pass_through(items: Seq<PlannedItem>, probes: Seq<ItemProbe>, opts: CleanOptions, i: int)
    requires
        0 <= i < items.len(),
        i < probes.len(),
        items[i].disposition is Skipped,
    ensures
        first_skipped(items, probes, opts, (i + 1) as nat) == first_skipped(items, probes, opts, i as nat).push(
            (items[i].finding.label@, items[i].finding.safety, items[i].disposition->reason@),
        ),
        first_counted(items, probes, opts, (i + 1) as nat) == first_counted(items, probes, opts, i as nat),
        first_errors(items, probes, opts, (i + 1) as nat) == first_errors(items, probes, opts, i as nat),
        first_jobs(items, probes, opts, (i + 1) as nat) == first_jobs(items, probes, opts, i as nat),
{
    assert(((i + 1) as nat - 1) as nat == i as nat);
}

/// A removal a run records comes from the next plan item marked for
/// removal, in plan order, with that item's own delete method: the
/// preview's removal or the run's deletion job for item `i` carries the
/// path, bytes, method and safety of its `Remove` disposition and finding.
pub proof fn law_removals_follow_the_plan(items: Seq<PlannedItem>, probes: Seq<ItemProbe>, opts: CleanOptions, i: int)
    requires
        0 <= i < items.len(),
        i < probes.len(),
    ensures
        first_counted(items, probes, opts, (i + 1) as nat) != first_counted(items, probes, opts, i as nat) ==> {
            &&& items[i].disposition is Remove
            &&& items[i].finding.action is RemovePath
            &&& first_counted(items, probes, opts, (i + 1) as nat) == first_counted(items, probes, opts, i as nat).push(
                (items[i].finding.action->path@, items[i].finding.bytes, items[i].disposition->via@, items[i].finding.safety),
            )
        },
        first_jobs(items, probes, opts, (i + 1) as nat) != first_jobs(items, probes, opts, i as nat) ==> {
            &&& items[i].disposition is Remove
            &&& items[i].finding.action is RemovePath
            &&& first_jobs(items, probes, opts, (i + 1) as nat) == first_jobs(items, probes, opts, i as nat).push(
                (items[i].finding.action->path@, probes[i].stat->is_dir, items[i].disposition->via@, items[i].finding.bytes,
                    items[i].finding.label@, items[i].finding.safety),
            )
        },
{
    assert(((i + 1) as nat - 1) as nat == i as nat);
}

/// Whether a run moves to the trash is decided by the plan alone: two runs
/// of the same plan whose options differ only in `to_trash` record the
/// same skips, errors, removals and deletion jobs.
pub proof fn law_trash_choice_comes_from_the_plan(items: Seq<PlannedItem>, probes: Seq<ItemProbe>, a: CleanOptions, b: CleanOptions, n: nat)
    requires
        a.execute == b.execute,
        a.include_level == b.include_level,
        a.force_danger == b.force_danger,
    ensures
        first_skipped(items, probes, a, n) == first_skipped(items, probes, b, n),
        first_errors(items, probes, a, n) == first_errors(items, probes, b, n),
        first_counted(items, probes, a, n) == first_counted(items, probes, b, n),
        first_jobs(items, probes, a, n) == first_jobs(items, probes, b, n),
    decreases n,
{
    if n > 0 {
        law_trash_choice_comes_from_the_plan(items, probes, a, b, (n - 1) as nat);
        if n <= items.len() {
            assert(step_of(items[n - 1], probes[n - 1], a) == step_of(items[n - 1], probes[n - 1], b));
        }
    }
}

/// A whole run's receipt adds up: the bytes its preview phase counted plus
/// the bytes its deletions freed equal the sum over all its removal
/// records, which list the preview's removals and then the deletions in
/// job order.
pub proof fn law_run_freed_bytes_add_up(items: Seq<PlannedItem>, probes: Seq<ItemProbe>, opts: CleanOptions, jobs: Seq<Job>, outs: Seq<JobOutcome>)
    ensures
        sum_bytes(first_counted(items, probes, opts, items.len())) + sum_bytes(outcome_removed(jobs, outs, outs.len()))
            == sum_bytes(first_counted(items, probes, opts, items.len()) + outcome_removed(jobs, outs, outs.len())),
{
    law_sum_bytes_concat(first_counted(items, probes, opts, items.len()), outcome_removed(jobs, outs, outs.len()));
}

/// The bytes of two lists of removals add up.
pub proof fn law_sum_bytes_concat(a: Seq<(Seq<char>, u64, Seq<char>, Safety)>, b: Seq<(Seq<char>, u64, Seq<char>, Safety)>)
    ensures
        sum_bytes(a + b) == sum_bytes(a) + sum_bytes(b),
    decreases b.len(),
{
    if b.len() > 0 {
        law_sum_bytes_concat(a, b.drop_last());
        assert((a + b).drop_last() =~= a + b.drop_last());
    } else {
        assert(a + b =~= a);
    }
}

} // verus!

verus! {

/// Where an entry goes in a list ordered largest first: every entry
/// before it is at least as large, the one at its place is smaller.
pub proof fn lemma_first_smaller(s: Seq<TempEntry>, b: u64)
    ensures
        first_smaller(s, b) <= s.len(),
        forall|k: int| 0 <= k < first_smaller(s, b) ==> (#[trigger] s[k]).bytes >= b,
        first_smaller(s, b) < s.len() ==> s[first_smaller(s, b) as int].bytes < b,
    decreases s.len(),
{
    if s.len() > 0 && s[0].bytes >= b {
        lemma_first_smaller(s.drop_first(), b);
        assert forall|k: int| 0 <= k < first_smaller(s, b) implies (#[trigger] s[k]).bytes >= b by {
            if k > 0 {
                assert(s[k] == s.drop_first()[k - 1]);
            }
        }
    }
}

/// Ordering temp entries largest first keeps them all and orders them.
pub proof fn lemma_sort_desc(s: Seq<TempEntry>)
    ensures
        sort_desc(s).to_multiset() == s.to_multiset(),
        forall|i: int, j: int| 0 <= i < j < sort_desc(s).len() ==> (#[trigger] sort_desc(s)[i]).bytes >= (#[trigger] sort_desc(s)[j]).bytes,
    decreases s.len(),
{
    broadcast use vstd::seq_lib::group_to_multiset_ensures;
    if s.len() > 0 {
        let t = sort_desc(s.drop_last());
        lemma_sort_desc(s.drop_last());
        let x = s.last();
        let p = first_smaller(t, x.bytes) as int;
        lemma_first_smaller(t, x.bytes);
        let r = t.insert(p, x);
        assert(r == sort_desc(s));
        vstd::seq_lib::to_multiset_insert(t, p, x);
        assert(s =~= s.drop_last().push(x));
        vstd::seq_lib::to_multiset_build(s.drop_last(), x);
        assert forall|i: int, j: int| 0 <= i < j < r.len() implies (#[trigger] r[i]).bytes >= (#[trigger] r[j]).bytes by {
            if j < p {
                assert(r[i] == t[i] && r[j] == t[j]);
            } else if j == p {
                assert(r[i] == t[i]);
            } else if i == p {
                assert(r[j] == t[j - 1]);
                assert(t[p].bytes < x.bytes);
                assert(t[p].bytes >= t[j - 1].bytes || p == j - 1);
            } else if i < p {
                assert(r[i] == t[i] && r[j] == t[j - 1]);
            } else {
                assert(r[i] == t[i - 1] && r[j] == t[j - 1]);
            }
        }
    }
}

/// Every qualifying entry qualifies.
pub proof fn lemma_qualified(es: Seq<TempEntry>)
    ensures
        forall|k: int| 0 <= k < qualified(es).len() ==> qualifies(#[trigger] qualified(es)[k]),
    decreases es.len(),
{
    if es.len() > 0 {
        lemma_qualified(es.drop_last());
        let q = qualified(es.drop_last());
        assert forall|k: int| 0 <= k < qualified(es).len() implies qualifies(#[trigger] qualified(es)[k]) by {
            if k < q.len() {
                assert(qualified(es)[k] == q[k]);
            }
        }
    }
}

/// The temp detector flags at most five entries, largest first, each
/// stale in its whole tree, not a link, and at least 1 MiB.
pub proof fn law_temp_flags_only_large_stale_entries(es: Seq<TempEntry>)
    ensures
        chosen(es).len() <= MAX_FINDINGS,
        forall|k: int| 0 <= k < chosen(es).len() ==> {
            let e = #[trigger] chosen(es)[k];
            &&& e.stale
            &&& !e.is_link
            &&& e.bytes >= MIN_BYTES
        },
        forall|i: int, j: int| 0 <= i < j < chosen(es).len() ==> (#[trigger] chosen(es)[i]).bytes >= (#[trigger] chosen(es)[j]).bytes,
{
    broadcast use vstd::seq_lib::group_to_multiset_ensures;
    let q = qualified(es);
    let s = sort_desc(q);
    lemma_sort_desc(q);
    lemma_qualified(es);
    assert forall|k: int| 0 <= k < s.len() implies qualifies(#[trigger] s[k]) by {
        assert(s.to_multiset().count(s[k]) > 0);
        assert(q.to_multiset().count(s[k]) > 0);
        assert(q.contains(s[k]));
    }
    assert forall|k: int| 0 <= k < chosen(es).len() implies qualifies(#[trigger] chosen(es)[k]) by {
        assert(chosen(es)[k] == s[k]);
    }
    assert forall|i: int, j: int| 0 <= i < j < chosen(es).len() implies (#[trigger] chosen(es)[i]).bytes >= (#[trigger] chosen(es)[j]).bytes by {
        assert(chosen(es)[i] == s[i] && chosen(es)[j] == s[j]);
    }
}

/// Every listed name is stale.
pub proof fn lemma_stale_names(names: Seq<String>, all: Seq<String>, caches: bool)
    ensures
        forall|k: int| 0 <= k < stale_names(names, all, caches).len() ==> {
            let n = #[trigger] stale_names(names, all, caches)[k];
            if caches { stale_cache(n, all) } else { stale_dist(n, all) }
        },
    decreases names.len(),
{
    if names.len() > 0 {
        lemma_stale_names(names.drop_last(), all, caches);
        let prev = stale_names(names.drop_last(), all, caches);
        assert forall|k: int| 0 <= k < stale_names(names, all, caches).len() implies {
            let n = #[trigger] stale_names(names, all, caches)[k];
            if caches { stale_cache(n, all) } else { stale_dist(n, all) }
        } by {
            if k < prev.len() {
                assert(stale_names(names, all, caches)[k] == prev[k]);
            }
        }
    }
}

/// Gradle flags only real `gradle-<version>-bin|all` distributions older
/// than the newest one: the newest version (both its variants) and any
/// other name are kept.
pub proof fn law_gradle_flags_only_superseded_dists(names: Seq<String>, k: int)
    requires
        0 <= k < stale_names(names, names, false).len(),
    ensures
        spec_parse_dist_version(stale_names(names, names, false)[k]) matches Some(v)
            && newest_dist(names) matches Some(m) && ver_lt(v, m),
{
    lemma_stale_names(names, names, false);
}

/// Gradle flags only version caches, never the newest one.
pub proof fn law_gradle_keeps_newest_cache(names: Seq<String>, k: int)
    requires
        0 <= k < stale_names(names, names, true).len(),
    ensures
        spec_parse_simple_version(stale_names(names, names, true)[k]) is Some,
        !(newest_cache(names) matches Some((_, n)) && n == stale_names(names, names, true)[k]),
{
    lemma_stale_names(names, names, true);
}

/// UTF-8 length of a text.
pub open spec fn utf8_len(s: Seq<char>) -> nat
    decreases s.len(),
{
    if s.len() == 0 {
        0
    } else {
        char_utf8_len(s[0]) + utf8_len(s.drop_first())
    }
}

/// The characters that fit in a budget fit in it, and a text that fits
/// is kept whole.
pub proof fn lemma_prefix_fitting(s: Seq<char>, budget: int)
    requires
        budget >= 0,
    ensures
        utf8_len(s.take(prefix_fitting(s, budget) as int)) <= budget,
        prefix_fitting(s, budget) <= s.len(),
        utf8_len(s) <= budget ==> prefix_fitting(s, budget) == s.len(),
    decreases s.len(),
{
    if s.len() > 0 && char_utf8_len(s[0]) <= budget {
        let rest = s.drop_first();
        lemma_prefix_fitting(rest, budget - char_utf8_len(s[0]));
        let k = prefix_fitting(s, budget) as int;
        assert(s.take(k).drop_first() =~= rest.take(k - 1));
        assert(s.take(k)[0] == s[0]);
    } else if s.len() > 0 {
        assert(s.take(0) =~= Seq::<char>::empty());
        assert(utf8_len(s) >= char_utf8_len(s[0]));
    } else {
        assert(s.take(0) =~= s);
    }
}

/// A trimmed warning never exceeds 300 UTF-8 bytes plus the `…` mark
/// (3 bytes), and a warning that fits is kept unchanged.
pub proof fn law_trim_warning_fits(s: Seq<char>)
    ensures
        utf8_len(spec_trim_warning(s)) <= 303,
        utf8_len(s) <= 300 ==> spec_trim_warning(s) == s,
{
    lemma_prefix_fitting(s, 300);
    let k = prefix_fitting(s, 300) as int;
    if k != s.len() {
        lemma_utf8_len_push(s.take(k), '…');
        assert(char_utf8_len('…') == 3);
    } else {
        assert(s.take(k) =~= s);
    }
}

/// Appending a character adds its UTF-8 length.
pub proof fn lemma_utf8_len_push(s: Seq<char>, c: char)
    ensures
        utf8_len(s.push(c)) == utf8_len(s) + char_utf8_len(c),
    decreases s.len(),
{
    if s.len() == 0 {
        assert(s.push(c).drop_first() =~= Seq::<char>::empty());
        assert(s.push(c)[0] == c);
        assert(utf8_len(Seq::<char>::empty()) == 0);
    } else {
        lemma_utf8_len_push(s.drop_first(), c);
        assert(s.push(c).drop_first() =~= s.drop_first().push(c));
        assert(s.push(c)[0] == s[0]);
    }
}

} // verus!

verus! {

/// Entry ranking is transitive.
pub proof fn lemma_view_before_transitive(a: EntryView, b: EntryView, c: EntryView)
    requires
        view_before(a, b),
        view_before(b, c),
    ensures
        view_before(a, c),
{
    if a.1 == b.1 && b.1 == c.1 {
        lemma_parts_lt_transitive(order_parts(a.0), order_parts(b.0), order_parts(c.0));
    }
}

/// Entry ranking is asymmetric.
pub proof fn lemma_view_before_asymmetric(a: EntryView, b: EntryView)
    requires
        view_before(a, b),
    ensures
        !view_before(b, a),
{
    if view_before(b, a) {
        lemma_view_before_transitive(a, b, a);
        lemma_parts_lt_irreflexive(order_parts(a.0));
    }
}

/// Where an entry goes: after every entry it does not rank before, at
/// the first it does.
pub proof fn lemma_insert_pos(s: Seq<EntryView>, x: EntryView)
    ensures
        insert_pos(s, x) <= s.len(),
        forall|k: int| 0 <= k < insert_pos(s, x) ==> !view_before(x, #[trigger] s[k]),
        insert_pos(s, x) < s.len() ==> view_before(x, s[insert_pos(s, x) as int]),
    decreases s.len(),
{
    if s.len() > 0 && !view_before(x, s[0]) {
        lemma_insert_pos(s.drop_first(), x);
        assert forall|k: int| 0 <= k < insert_pos(s, x) implies !view_before(x, #[trigger] s[k]) by {
            if k > 0 {
                assert(s[k] == s.drop_first()[k - 1]);
            }
        }
    }
}

/// No entry of `s` ranks before an earlier one.
pub open spec fn views_ranked(s: Seq<EntryView>) -> bool {
    forall|i: int, j: int| 0 <= i < j < s.len() ==> !view_before(#[trigger] s[j], #[trigger] s[i])
}

/// Ranking keeps every entry and orders them.
pub proof fn lemma_rank_views(s: Seq<EntryView>)
    ensures
        rank_views(s).to_multiset() == s.to_multiset(),
        views_ranked(rank_views(s)),
    decreases s.len(),
{
    broadcast use vstd::seq_lib::group_to_multiset_ensures;
    if s.len() > 0 {
        let t = rank_views(s.drop_last());
        lemma_rank_views(s.drop_last());
        let x = s.last();
        let p = insert_pos(t, x) as int;
        lemma_insert_pos(t, x);
        let r = t.insert(p, x);
        assert(r == rank_views(s));
        vstd::seq_lib::to_multiset_insert(t, p, x);
        assert(s =~= s.drop_last().push(x));
        vstd::seq_lib::to_multiset_build(s.drop_last(), x);
        assert forall|k: int| p <= k < t.len() implies !view_before(#[trigger] t[k], x) by {
            if view_before(t[k], x) {
                if k == p {
                    lemma_view_before_asymmetric(x, t[p]);
                } else {
                    lemma_view_before_transitive(t[k], x, t[p]);
                }
            }
        }
        assert forall|i: int, j: int| 0 <= i < j < r.len() implies !view_before(#[trigger] r[j], #[trigger] r[i]) by {
            if j < p {
                assert(r[i] == t[i] && r[j] == t[j]);
            } else if j == p {
                assert(r[i] == t[i]);
            } else if i == p {
                assert(r[j] == t[j - 1]);
            } else if i < p {
                assert(r[i] == t[i] && r[j] == t[j - 1]);
            } else {
                assert(r[i] == t[i - 1] && r[j] == t[j - 1]);
            }
        }
    }
}

/// A directory entry that passes the size floor.
pub open spec fn dir_entry_ok(v: EntryView, min_bytes: u64) -> bool {
    v.1 >= min_bytes && v.4
}

/// A file entry that passes both size floors, counting one file.
pub open spec fn file_entry_ok(v: EntryView, min_bytes: u64, min_file_bytes: u64) -> bool {
    v.1 >= min_bytes && v.1 >= min_file_bytes && !v.4 && v.2 == 1
}

/// Filtered directory entries pass the size floor.
pub proof fn lemma_dir_views(ds: Seq<DirTotal>, root: Seq<char>, min_bytes: u64, windows: bool)
    ensures
        forall|k: int| 0 <= k < dir_views(ds, root, min_bytes, windows).len() ==> dir_entry_ok(#[trigger] dir_views(ds, root, min_bytes, windows)[k], min_bytes),
    decreases ds.len(),
{
    if ds.len() > 0 {
        lemma_dir_views(ds.drop_last(), root, min_bytes, windows);
        let prev = dir_views(ds.drop_last(), root, min_bytes, windows);
        assert forall|k: int| 0 <= k < dir_views(ds, root, min_bytes, windows).len() implies dir_entry_ok(#[trigger] dir_views(ds, root, min_bytes, windows)[k], min_bytes) by {
            if k < prev.len() {
                assert(dir_views(ds, root, min_bytes, windows)[k] == prev[k]);
            }
        }
    }
}

/// Filtered big files pass both size floors.
pub proof fn lemma_file_views(fs: Seq<BigFile>, root: Seq<char>, min_bytes: u64, min_file_bytes: u64, windows: bool)
    ensures
        forall|k: int| 0 <= k < file_views(fs, root, min_bytes, min_file_bytes, windows).len() ==> file_entry_ok(#[trigger] file_views(fs, root, min_bytes, min_file_bytes, windows)[k], min_bytes, min_file_bytes),
    decreases fs.len(),
{
    if fs.len() > 0 {
        lemma_file_views(fs.drop_last(), root, min_bytes, min_file_bytes, windows);
        let prev = file_views(fs.drop_last(), root, min_bytes, min_file_bytes, windows);
        assert forall|k: int| 0 <= k < file_views(fs, root, min_bytes, min_file_bytes, windows).len() implies file_entry_ok(#[trigger] file_views(fs, root, min_bytes, min_file_bytes, windows)[k], min_bytes, min_file_bytes) by {
            if k < prev.len() {
                assert(file_views(fs, root, min_bytes, min_file_bytes, windows)[k] == prev[k]);
            }
        }
    }
}

/// A scan report lists at most `top` entries, each at least `min_bytes`,
/// a file entry also at least `min_file_bytes` and counting one file,
/// largest first with ties by path.
pub proof fn law_report_entries_filtered_and_ranked(w: WalkTotals, root: Seq<char>, opts: ScanOptions, windows: bool)
    ensures
        report_views(w, root, opts, windows).len() <= opts.top,
        forall|k: int| 0 <= k < report_views(w, root, opts, windows).len() ==> {
            let v = #[trigger] report_views(w, root, opts, windows)[k];
            &&& v.1 >= opts.min_bytes
            &&& !v.4 ==> v.1 >= opts.min_file_bytes && v.2 == 1
        },
        views_ranked(report_views(w, root, opts, windows)),
{
    broadcast use vstd::seq_lib::group_to_multiset_ensures;
    let c = dir_views(w.dirs@, root, opts.min_bytes, windows) + file_views(w.big_files@, root, opts.min_bytes, opts.min_file_bytes, windows);
    let ranked = rank_views(c);
    lemma_rank_views(c);
    lemma_dir_views(w.dirs@, root, opts.min_bytes, windows);
    lemma_file_views(w.big_files@, root, opts.min_bytes, opts.min_file_bytes, windows);
    let out = report_views(w, root, opts, windows);
    assert forall|k: int| 0 <= k < out.len() implies {
        let v = #[trigger] out[k];
        &&& v.1 >= opts.min_bytes
        &&& !v.4 ==> v.1 >= opts.min_file_bytes && v.2 == 1
    } by {
        assert(out[k] == ranked[k]);
        assert(ranked.to_multiset().count(ranked[k]) > 0);
        assert(c.to_multiset().count(ranked[k]) > 0);
        assert(c.contains(ranked[k]));
        let j = choose|j: int| 0 <= j < c.len() && c[j] == ranked[k];
        let dv = dir_views(w.dirs@, root, opts.min_bytes, windows);
        if j < dv.len() {
            assert(c[j] == dv[j]);
            assert(dir_entry_ok(dv[j], opts.min_bytes));
        } else {
            let fv = file_views(w.big_files@, root, opts.min_bytes, opts.min_file_bytes, windows);
            assert(c[j] == fv[j - dv.len()]);
            assert(file_entry_ok(fv[j - dv.len()], opts.min_bytes, opts.min_file_bytes));
        }
    }
    assert forall|i: int, j: int| 0 <= i < j < out.len() implies !view_before(#[trigger] out[j], #[trigger] out[i]) by {
        assert(out[i] == ranked[i] && out[j] == ranked[j]);
    }
}

} // verus!

verus! {

/// A ranked sequence minus its first finding is still ranked.
proof fn lemma_ranked_tail(a: Seq<Finding>)
    requires
        ranked(a),
        a.len() > 0,
    ensures
        ranked(a.drop_first()),
{
    let t = a.drop_first();
    assert forall|i: int, j: int| 0 <= i < j < t.len() implies !ranks_before(#[trigger] t[j], #[trigger] t[i]) by {
        assert(t[i] == a[i + 1] && t[j] == a[j + 1]);
    }
}

/// Picking by key from a sequence that starts with `x`.
proof fn lemma_with_key_front(a: Seq<Finding>, k: (u64, Seq<char>, Seq<char>))
    requires
        a.len() > 0,
    ensures
        with_key(a, k) == with_key(seq![a[0]], k) + with_key(a.drop_first(), k),
        with_key(seq![a[0]], k) == if rank_key(a[0]) == k { seq![a[0]] } else { Seq::<Finding>::empty() },
{
    assert(a =~= seq![a[0]] + a.drop_first());
    lemma_with_key_add(seq![a[0]], a.drop_first(), k);
    lemma_with_key_one(a[0], k);
}

/// A nonempty sequence picks its first finding under that finding's key.
proof fn lemma_with_key_first(a: Seq<Finding>)
    requires
        a.len() > 0,
    ensures
        with_key(a, rank_key(a[0])).len() > 0,
        with_key(a, rank_key(a[0]))[0] == a[0],
{
    lemma_with_key_front(a, rank_key(a[0]));
}

/// The first finding of `a` is among `b`'s findings of its key, so it
/// cannot outrank `b`'s first.
proof fn lemma_front_outranks(a: Seq<Finding>, b: Seq<Finding>)
    requires
        ranked(b),
        a.len() > 0,
        b.len() > 0,
        with_key(a, rank_key(a[0])) == with_key(b, rank_key(a[0])),
    ensures
        !ranks_before(a[0], b[0]),
{
    let x = a[0];
    let k = rank_key(x);
    lemma_with_key_first(a);
    lemma_with_key_members(b, k);
    assert(with_key(b, k)[0] == x);
    let j = choose|j: int| 0 <= j < b.len() && b[j] == x;
    if j == 0 {
        lemma_text_lt_irreflexive(x.detector_id@);
        lemma_text_lt_irreflexive(x.label@);
    } else {
        assert(!ranks_before(b[j], b[0]));
    }
}

/// Ranking is determined: two ranked sequences that hold, key by key, the
/// same findings in the same order are the same sequence. Since `rank`
/// keeps each key's findings in their input order, the same findings in
/// the same report order always rank the same way, whatever the order in
/// which they were produced within a key.
pub proof fn law_ranking_is_determined(a: Seq<Finding>, b: Seq<Finding>)
    requires
        ranked(a),
        ranked(b),
        forall|k: (u64, Seq<char>, Seq<char>)| #[trigger] with_key(a, k) == with_key(b, k),
    ensures
        a == b,
    decreases a.len() + b.len(),
{
    if a.len() == 0 || b.len() == 0 {
        if a.len() > 0 {
            lemma_with_key_first(a);
            assert(with_key(b, rank_key(a[0])) =~= Seq::<Finding>::empty());
        }
        if b.len() > 0 {
            lemma_with_key_first(b);
            assert(with_key(a, rank_key(b[0])) =~= Seq::<Finding>::empty());
        }
        assert(a =~= b);
    } else {
        let x = a[0];
        let y = b[0];
        if rank_key(x) == rank_key(y) {
            lemma_with_key_first(a);
            lemma_with_key_first(b);
            assert(with_key(a, rank_key(x)) == with_key(b, rank_key(x)));
        } else {
            lemma_ranks_total(x, y);
            if ranks_before(x, y) {
                lemma_front_outranks(a, b);
            } else {
                lemma_front_outranks(b, a);
            }
        }
        assert(x == y);
        let ta = a.drop_first();
        let tb = b.drop_first();
        assert forall|k: (u64, Seq<char>, Seq<char>)| #[trigger] with_key(ta, k) == with_key(tb, k) by {
            lemma_with_key_front(a, k);
            lemma_with_key_front(b, k);
            let p = with_key(seq![x], k);
            assert(with_key(ta, k) =~= (p + with_key(ta, k)).skip(p.len() as int));
            assert(with_key(tb, k) =~= (p + with_key(tb, k)).skip(p.len() as int));
        }
        lemma_ranked_tail(a);
        lemma_ranked_tail(b);
        law_ranking_is_determined(ta, tb);
        assert(a =~= seq![x] + ta);
        assert(b =~= seq![y] + tb);
    }
}

} // verus!

//! Clean planning and execution decisions.
//!
//! Safety contract:
//! - Nothing is deleted without `execute: true` (a dry run is the default).
//! - `Danger` findings always need `force_danger`, even with `All`.
//! - Only `RemovePath` findings are ever planned; `RunCommand`/`Manual`
//!   findings are reported with their instructions, never executed.
//! - Empty paths, filesystem roots and paths through `..` are refused.
//! - A path that is (or became) a symbolic link is never deleted through.
//!
//! The filesystem facts each decision depends on (canonical location,
//! link checks of the ancestors, the type of the target) are gathered by
//! the caller into probes; the decisions themselves live here.

use vstd::prelude::*;
use crate::model::{
    CleanAction, CleanOptions, CleanReceipt, Disposition, Finding, PlannedItem, RemovedItem, Safety,
    SkippedItem, SCHEMA_VERSION,
};
use crate::paths::{
    key_eq, key_within, path_key, path_within, refusal_reason, same_path, spec_refusal, PathKey,
};
use crate::text::concat;

verus! {

/// What `symlink_metadata` reported for a path.
#[derive(Debug, Clone)]
pub enum StatOutcome {
    /// The path does not exist.
    Missing,
    /// The metadata could not be read.
    Failed { error: String },
    /// The path itself is a symbolic link.
    Link,
    /// A real file or directory.
    Present { is_dir: bool },
}

/// Filesystem facts about the path of one finding, gathered before planning.
#[derive(Debug)]
pub struct PathProbe {
    /// `canonicalize(path)`: the resolved location, or the error text.
    pub canonical: Result<String, String>,
    /// The link/reparse check of every existing ancestor of the path.
    pub ancestors: Result<(), String>,
    /// `symlink_metadata(path)`.
    pub stat: StatOutcome,
}

/// A plan: one item per finding, in finding order, and the planned bytes.
pub struct CleanPlan {
    pub items: Vec<PlannedItem>,
    pub total_bytes: u64,
}

/// Progress event for one processed plan item.
#[derive(Debug, Clone)]
pub struct CleanProgress {
    pub done: usize,
    pub total: usize,
    pub bytes: u64,
    pub label: String,
    pub ok: bool,
}

/// The safety gate of a run: the level ceiling, and `force` for Danger.
pub open spec fn passes_gate(f: Finding, opts: CleanOptions) -> bool {
    opts.include_level.spec_allows(f.safety) && (f.safety != Safety::Danger || opts.force_danger)
}

/// The canonical location of a `RemovePath` finding, when it resolved.
pub open spec fn resolved_path(f: Finding, p: PathProbe) -> Option<Seq<char>> {
    match f.action {
        CleanAction::RemovePath { .. } => match p.canonical {
            Ok(c) => Some(c@),
            Err(_) => None,
        },
        _ => None,
    }
}

/// A finding that this run may remove, as far as its own safety and
/// resolution go.
pub open spec fn is_eligible(f: Finding, p: PathProbe, opts: CleanOptions) -> bool {
    resolved_path(f, p) is Some && passes_gate(f, opts)
}

/// Some eligible finding resolves to `path`.
pub open spec fn eligible_path(fs: Seq<Finding>, ps: Seq<PathProbe>, opts: CleanOptions, path: Seq<char>) -> bool {
    exists|k: int|
        0 <= k < fs.len() && #[trigger] is_eligible(fs[k], ps[k], opts) && same_path(
            resolved_path(fs[k], ps[k])->0,
            path,
        )
}

/// A resolved finding that this run will not remove (filtered level,
/// danger gate) lies strictly inside `c`, whatever other findings resolve
/// to its location.
pub open spec fn withheld_inside(fs: Seq<Finding>, ps: Seq<PathProbe>, opts: CleanOptions, c: Seq<char>) -> bool {
    exists|k: int|
        0 <= k < fs.len() && #[trigger] resolved_path(fs[k], ps[k]) is Some && {
            let w = resolved_path(fs[k], ps[k])->0;
            !passes_gate(fs[k], opts) && !same_path(w, c) && path_within(w, c)
        }
}

/// An eligible finding resolves to a strict ancestor of `c`.
pub open spec fn covered(fs: Seq<Finding>, ps: Seq<PathProbe>, opts: CleanOptions, c: Seq<char>) -> bool {
    exists|k: int|
        0 <= k < fs.len() && #[trigger] is_eligible(fs[k], ps[k], opts) && {
            let e = resolved_path(fs[k], ps[k])->0;
            !same_path(c, e) && path_within(c, e)
        }
}

/// Another finding resolves to the same location with a stricter level.
pub open spec fn stricter_twin(fs: Seq<Finding>, ps: Seq<PathProbe>, c: Seq<char>, rank: int) -> bool {
    exists|k: int|
        0 <= k < fs.len() && #[trigger] resolved_path(fs[k], ps[k]) is Some && same_path(
            resolved_path(fs[k], ps[k])->0,
            c,
        ) && fs[k].safety.rank() > rank
}

/// The path of a `RemovePath` action.
pub open spec fn action_path(a: CleanAction) -> Seq<char> {
    match a {
        CleanAction::RemovePath { path } => path@,
        _ => Seq::empty(),
    }
}

/// Why finding `i` is skipped before the duplicate check, or `None` when it
/// reaches it.
#[verifier::opaque]
pub open spec fn early_reason(fs: Seq<Finding>, ps: Seq<PathProbe>, opts: CleanOptions, i: int) -> Option<Seq<char>> {
    let f = fs[i];
    let p = ps[i];
    if !opts.include_level.spec_allows(f.safety) {
        Some("filtered by --only level"@)
    } else if f.safety == Safety::Danger && !opts.force_danger {
        Some("danger items need --force"@)
    } else {
        match f.action {
            CleanAction::RemovePath { path } => if spec_refusal(path@) is Some {
                spec_refusal(path@)
            } else if p.ancestors is Err {
                Some(p.ancestors->Err_0@)
            } else {
                match p.stat {
                    StatOutcome::Missing => Some("path already gone"@),
                    StatOutcome::Failed { error } => Some("cannot stat path: "@ + error@),
                    StatOutcome::Link => Some("refused: path is a symbolic link"@),
                    StatOutcome::Present { .. } => match p.canonical {
                        Err(e) => Some("cannot resolve path: "@ + e@),
                        Ok(c) => if withheld_inside(fs, ps, opts, c@) {
                            Some("refused: contains an item excluded from this run"@)
                        } else if covered(fs, ps, opts, c@) {
                            Some("refused: covered by a broader finding"@)
                        } else if stricter_twin(fs, ps, c@, f.safety.rank()) {
                            Some("same path has a stricter safety classification"@)
                        } else {
                            None
                        },
                    },
                }
            },
            CleanAction::RunCommand { description, .. } => Some(
                "needs external command (v1 reports only): "@ + description@,
            ),
            CleanAction::Manual { instructions } => Some("manual steps required: "@ + instructions@),
        }
    }
}

/// Finding `i` passes every check but the duplicate check.
pub open spec fn reaches_plan(fs: Seq<Finding>, ps: Seq<PathProbe>, opts: CleanOptions, i: int) -> bool {
    early_reason(fs, ps, opts, i) is None
}

/// An earlier finding reaching the plan resolves to the same location.
pub open spec fn duplicate_before(fs: Seq<Finding>, ps: Seq<PathProbe>, opts: CleanOptions, i: int) -> bool {
    exists|k: int|
        0 <= k < i && #[trigger] reaches_plan(fs, ps, opts, k) && same_path(
            ps[k].canonical->Ok_0@,
            ps[i].canonical->Ok_0@,
        )
}

/// Finding `i` is planned for removal.
pub open spec fn is_planned(fs: Seq<Finding>, ps: Seq<PathProbe>, opts: CleanOptions, i: int) -> bool {
    reaches_plan(fs, ps, opts, i) && !duplicate_before(fs, ps, opts, i)
}

/// Why finding `i` is skipped, or `None` when it is planned.
pub open spec fn plan_reason(fs: Seq<Finding>, ps: Seq<PathProbe>, opts: CleanOptions, i: int) -> Option<Seq<char>> {
    if early_reason(fs, ps, opts, i) is Some {
        early_reason(fs, ps, opts, i)
    } else if duplicate_before(fs, ps, opts, i) {
        Some("duplicate path"@)
    } else {
        None
    }
}

/// Bytes of the planned findings among the first `i`.
pub open spec fn planned_bytes(fs: Seq<Finding>, ps: Seq<PathProbe>, opts: CleanOptions, i: nat) -> nat
    decreases i,
{
    if i == 0 || i > fs.len() {
        0
    } else {
        planned_bytes(fs, ps, opts, (i - 1) as nat) + if is_planned(fs, ps, opts, i - 1) {
            fs[i - 1].bytes as nat
        } else {
            0
        }
    }
}

/// The delete method a plan records.
pub open spec fn via_of(opts: CleanOptions) -> Seq<char> {
    if opts.to_trash {
        "trash"@
    } else {
        "permanent"@
    }
}

/// Two actions with the same contents.
pub open spec fn same_action(a: CleanAction, b: CleanAction) -> bool {
    match (a, b) {
        (CleanAction::RemovePath { path: p }, CleanAction::RemovePath { path: q }) => p@ == q@,
        (
            CleanAction::RunCommand { program: p, args: a1, description: d1 },
            CleanAction::RunCommand { program: q, args: a2, description: d2 },
        ) => p@ == q@ && a1@ == a2@ && d1@ == d2@,
        (CleanAction::Manual { instructions: x }, CleanAction::Manual { instructions: y }) => x@ == y@,
        _ => false,
    }
}

/// Two findings with the same contents.
pub open spec fn same_finding(a: Finding, b: Finding) -> bool {
    &&& a.detector_id@ == b.detector_id@
    &&& a.label@ == b.label@
    &&& a.bytes == b.bytes
    &&& a.safety == b.safety
    &&& a.detail@ == b.detail@
    &&& same_action(a.action, b.action)
}

/// `a` is finding `f` with its action replaced by removing `path`.
pub open spec fn relocated(a: Finding, f: Finding, path: Seq<char>) -> bool {
    &&& a.detector_id@ == f.detector_id@
    &&& a.label@ == f.label@
    &&& a.bytes == f.bytes
    &&& a.safety == f.safety
    &&& a.detail@ == f.detail@
    &&& a.action matches CleanAction::RemovePath { path: p } && p@ == path
}

/// Item `i` of a plan is what planning decides for finding `i`.
pub open spec fn item_matches(item: PlannedItem, fs: Seq<Finding>, ps: Seq<PathProbe>, opts: CleanOptions, i: int) -> bool {
    match plan_reason(fs, ps, opts, i) {
        Some(reason) => {
            &&& same_finding(item.finding, fs[i])
            &&& item.disposition matches Disposition::Skipped { reason: r } && r@ == reason
        },
        None => {
            &&& relocated(item.finding, fs[i], ps[i].canonical->Ok_0@)
            &&& item.disposition matches Disposition::Remove { via } && via@ == via_of(opts)
        },
    }
}

impl CleanAction {
    /// A copy of the action.
    pub fn duplicate(&self) -> (r: CleanAction)
        ensures
            same_action(r, *self),
    {
        match self {
            CleanAction::RemovePath { path } => {
                CleanAction::RemovePath { path: path.clone() }
            },
            CleanAction::RunCommand { program, args, description } => {
                let copied = args.clone();
                assert(copied@ =~= args@);
                CleanAction::RunCommand {
                    program: program.clone(),
                    args: copied,
                    description: description.clone(),
                }
            },
            CleanAction::Manual { instructions } => CleanAction::Manual { instructions: instructions.clone() },
        }
    }
}

impl Finding {
    /// A copy of the finding.
    pub fn duplicate(&self) -> (r: Finding)
        ensures
            same_finding(r, *self),
    {
        Finding {
            detector_id: self.detector_id.clone(),
            label: self.label.clone(),
            bytes: self.bytes,
            safety: self.safety,
            detail: self.detail.clone(),
            action: self.action.duplicate(),
        }
    }
}

} // verus!

verus! {

/// `keys` holds the split resolved location of every finding.
pub open spec fn keys_ok(keys: Seq<Option<PathKey>>, fs: Seq<Finding>, ps: Seq<PathProbe>) -> bool {
    &&& keys.len() == fs.len()
    &&& ps.len() == fs.len()
    &&& forall|k: int|
        0 <= k < fs.len() ==> (#[trigger] keys[k] is Some <==> resolved_path(fs[k], ps[k]) is Some)
    &&& forall|k: int|
        0 <= k < fs.len() && #[trigger] keys[k] is Some ==> keys[k]->0.describes(
            resolved_path(fs[k], ps[k])->0,
        )
}

/// `flags[k]` tells whether finding `k` is eligible.
pub open spec fn flags_ok(flags: Seq<bool>, fs: Seq<Finding>, ps: Seq<PathProbe>, opts: CleanOptions) -> bool {
    &&& flags.len() == fs.len()
    &&& forall|k: int| 0 <= k < fs.len() ==> #[trigger] flags[k] == is_eligible(fs[k], ps[k], opts)
}

/// `flags[k]` tells whether finding `k` resolved but is held back.
pub open spec fn withheld_ok(flags: Seq<bool>, fs: Seq<Finding>, ps: Seq<PathProbe>, opts: CleanOptions) -> bool {
    &&& flags.len() == fs.len()
    &&& forall|k: int|
        0 <= k < fs.len() ==> #[trigger] flags[k] == (resolved_path(fs[k], ps[k]) is Some
            && !passes_gate(fs[k], opts))
}

/// The safety gate.
fn gate_ok(f: &Finding, opts: &CleanOptions) -> (r: bool)
    ensures
        r == passes_gate(*f, *opts),
{
    opts.include_level.allows(f.safety) && (f.safety != Safety::Danger || opts.force_danger)
}

/// Splits the resolved location of every finding.
fn resolve_keys(findings: &[Finding], probes: &[PathProbe]) -> (r: Vec<Option<PathKey>>)
    requires
        findings@.len() == probes@.len(),
    ensures
        keys_ok(r@, findings@, probes@),
{
    let mut keys: Vec<Option<PathKey>> = Vec::new();
    let mut k: usize = 0;
    while k < findings.len()
        invariant
            findings@.len() == probes@.len(),
            k <= findings@.len(),
            keys@.len() == k,
            forall|j: int| 0 <= j < k ==> (#[trigger] keys@[j] is Some <==> resolved_path(findings@[j], probes@[j]) is Some),
            forall|j: int|
                0 <= j < k && #[trigger] keys@[j] is Some ==> keys@[j]->0.describes(
                    resolved_path(findings@[j], probes@[j])->0,
                ),
        decreases findings@.len() - k,
    {
        let key = match (&findings[k].action, &probes[k].canonical) {
            (CleanAction::RemovePath { .. }, Ok(c)) => Some(path_key(c.as_str())),
            _ => None,
        };
        keys.push(key);
        k = k + 1;
    }
    keys
}

/// Which findings are eligible.
fn eligibility(findings: &[Finding], probes: &[PathProbe], opts: &CleanOptions, keys: &Vec<Option<PathKey>>) -> (r: Vec<bool>)
    requires
        keys_ok(keys@, findings@, probes@),
    ensures
        flags_ok(r@, findings@, probes@, *opts),
{
    let mut flags: Vec<bool> = Vec::new();
    let mut k: usize = 0;
    while k < findings.len()
        invariant
            keys_ok(keys@, findings@, probes@),
            k <= findings@.len(),
            flags@.len() == k,
            forall|j: int| 0 <= j < k ==> #[trigger] flags@[j] == is_eligible(findings@[j], probes@[j], *opts),
        decreases findings@.len() - k,
    {
        let ok = keys[k].is_some() && gate_ok(&findings[k], opts);
        assert(keys@[k as int] is Some <==> resolved_path(findings@[k as int], probes@[k as int]) is Some);
        flags.push(ok);
        k = k + 1;
    }
    flags
}

/// Which findings resolved but are held back from this run.
fn withheld_flags(
    findings: &[Finding],
    probes: &[PathProbe],
    opts: &CleanOptions,
    keys: &Vec<Option<PathKey>>,
) -> (r: Vec<bool>)
    requires
        keys_ok(keys@, findings@, probes@),
    ensures
        withheld_ok(r@, findings@, probes@, *opts),
{
    let mut flags: Vec<bool> = Vec::new();
    let mut k: usize = 0;
    while k < keys.len()
        invariant
            keys_ok(keys@, findings@, probes@),
            k <= keys@.len(),
            flags@.len() == k,
            forall|j: int|
                0 <= j < k ==> #[trigger] flags@[j] == (resolved_path(findings@[j], probes@[j]) is Some
                    && !passes_gate(findings@[j], *opts)),
        decreases keys@.len() - k,
    {
        let held = keys[k].is_some() && !gate_ok(&findings[k], opts);
        flags.push(held);
        k = k + 1;
    }
    flags
}

/// A held-back resolved finding lies strictly inside the location `key`.
fn contains_withheld(
    findings: &[Finding],
    probes: &[PathProbe],
    opts: &CleanOptions,
    keys: &Vec<Option<PathKey>>,
    withheld: &Vec<bool>,
    key: &PathKey,
    Ghost(c): Ghost<Seq<char>>,
) -> (r: bool)
    requires
        keys_ok(keys@, findings@, probes@),
        withheld_ok(withheld@, findings@, probes@, *opts),
        key.describes(c),
    ensures
        r == withheld_inside(findings@, probes@, *opts, c),
{
    let mut k: usize = 0;
    while k < keys.len()
        invariant
            keys_ok(keys@, findings@, probes@),
            withheld_ok(withheld@, findings@, probes@, *opts),
            key.describes(c),
            k <= keys@.len(),
            forall|j: int|
                0 <= j < k ==> !(#[trigger] resolved_path(findings@[j], probes@[j]) is Some && {
                    let w = resolved_path(findings@[j], probes@[j])->0;
                    !passes_gate(findings@[j], *opts) && !same_path(w, c) && path_within(w, c)
                }),
        decreases keys@.len() - k,
    {
        if withheld[k] {
            let other = keys[k].as_ref().unwrap();
            if !key_eq(other, key) && key_within(other, key) {
                assert(resolved_path(findings@[k as int], probes@[k as int]) is Some);
                return true;
            }
        }
        k = k + 1;
    }
    false
}

/// An eligible finding resolves to a strict ancestor of the location `key`.
fn is_covered(
    findings: &[Finding],
    probes: &[PathProbe],
    opts: &CleanOptions,
    keys: &Vec<Option<PathKey>>,
    eligible: &Vec<bool>,
    key: &PathKey,
    Ghost(c): Ghost<Seq<char>>,
) -> (r: bool)
    requires
        keys_ok(keys@, findings@, probes@),
        flags_ok(eligible@, findings@, probes@, *opts),
        key.describes(c),
    ensures
        r == covered(findings@, probes@, *opts, c),
{
    let mut k: usize = 0;
    while k < keys.len()
        invariant
            keys_ok(keys@, findings@, probes@),
            flags_ok(eligible@, findings@, probes@, *opts),
            key.describes(c),
            k <= keys@.len(),
            forall|j: int|
                0 <= j < k ==> !(#[trigger] is_eligible(findings@[j], probes@[j], *opts) && {
                    let e = resolved_path(findings@[j], probes@[j])->0;
                    !same_path(c, e) && path_within(c, e)
                }),
        decreases keys@.len() - k,
    {
        if eligible[k] {
            assert(keys@[k as int] is Some);
            let other = keys[k].as_ref().unwrap();
            if !key_eq(key, other) && key_within(key, other) {
                assert(is_eligible(findings@[k as int], probes@[k as int], *opts));
                return true;
            }
        }
        k = k + 1;
    }
    false
}

/// Another finding resolves to the location `key` with a stricter level.
fn has_stricter_twin(
    findings: &[Finding],
    probes: &[PathProbe],
    keys: &Vec<Option<PathKey>>,
    key: &PathKey,
    Ghost(c): Ghost<Seq<char>>,
    safety: Safety,
) -> (r: bool)
    requires
        keys_ok(keys@, findings@, probes@),
        key.describes(c),
    ensures
        r == stricter_twin(findings@, probes@, c, safety.rank()),
{
    let mut k: usize = 0;
    while k < keys.len()
        invariant
            keys_ok(keys@, findings@, probes@),
            key.describes(c),
            k <= keys@.len(),
            forall|j: int|
                0 <= j < k ==> !(#[trigger] resolved_path(findings@[j], probes@[j]) is Some && same_path(
                    resolved_path(findings@[j], probes@[j])->0,
                    c,
                ) && findings@[j].safety.rank() > safety.rank()),
        decreases keys@.len() - k,
    {
        match &keys[k] {
            Some(other) => {
                if key_eq(other, key) && findings[k].safety.level() > safety.level() {
                    return true;
                }
            },
            None => {},
        }
        k = k + 1;
    }
    false
}

} // verus!

verus! {

/// Planned bytes never decrease along the findings.
pub proof fn lemma_planned_bytes_grow(fs: Seq<Finding>, ps: Seq<PathProbe>, opts: CleanOptions, i: nat, j: nat)
    requires
        i <= j <= fs.len(),
    ensures
        planned_bytes(fs, ps, opts, i) <= planned_bytes(fs, ps, opts, j),
    decreases j - i,
{
    if i < j {
        lemma_planned_bytes_grow(fs, ps, opts, i, (j - 1) as nat);
    }
}

/// What reaching the duplicate check implies about a finding.
pub proof fn lemma_reaches_plan(fs: Seq<Finding>, ps: Seq<PathProbe>, opts: CleanOptions, i: int)
    requires
        0 <= i < fs.len(),
        reaches_plan(fs, ps, opts, i),
    ensures
        passes_gate(fs[i], opts),
        fs[i].action is RemovePath,
        spec_refusal(action_path(fs[i].action)) is None,
        ps[i].ancestors is Ok,
        ps[i].stat is Present,
        ps[i].canonical is Ok,
        resolved_path(fs[i], ps[i]) == Some(ps[i].canonical->Ok_0@),
        !withheld_inside(fs, ps, opts, ps[i].canonical->Ok_0@),
        !covered(fs, ps, opts, ps[i].canonical->Ok_0@),
        !stricter_twin(fs, ps, ps[i].canonical->Ok_0@, fs[i].safety.rank()),
{
    reveal(early_reason);
}

/// A plan item leaving `f` alone for `reason`.
fn skipped_item(f: &Finding, reason: String) -> (r: PlannedItem)
    ensures
        same_finding(r.finding, *f),
        r.disposition matches Disposition::Skipped { reason: x } && x@ == reason@,
{
    PlannedItem { finding: f.duplicate(), disposition: Disposition::Skipped { reason } }
}

/// A plan item removing `f` at its resolved location `canonical`.
fn removal_item(f: &Finding, canonical: &String, opts: &CleanOptions) -> (r: PlannedItem)
    ensures
        relocated(r.finding, *f, canonical@),
        r.disposition matches Disposition::Remove { via } && via@ == via_of(*opts),
{
    let relocated = Finding {
        detector_id: f.detector_id.clone(),
        label: f.label.clone(),
        bytes: f.bytes,
        safety: f.safety,
        detail: f.detail.clone(),
        action: CleanAction::RemovePath { path: canonical.clone() },
    };
    let via = if opts.to_trash {
        "trash".to_owned()
    } else {
        "permanent".to_owned()
    };
    PlannedItem { finding: relocated, disposition: Disposition::Remove { via } }
}

/// The position of a planned location equal to the one `key` describes.
fn find_same(planned: &Vec<PathKey>, key: &PathKey, Ghost(texts): Ghost<Seq<Seq<char>>>, Ghost(c): Ghost<Seq<char>>) -> (r: Option<usize>)
    requires
        planned@.len() == texts.len(),
        forall|m: int| 0 <= m < texts.len() ==> #[trigger] planned@[m].describes(texts[m]),
        key.describes(c),
    ensures
        r matches Some(m) ==> m < texts.len() && same_path(texts[m as int], c),
        r is None ==> forall|m: int| 0 <= m < texts.len() ==> !same_path(#[trigger] texts[m], c),
{
    let mut m: usize = 0;
    while m < planned.len()
        invariant
            planned@.len() == texts.len(),
            forall|mm: int| 0 <= mm < texts.len() ==> #[trigger] planned@[mm].describes(texts[mm]),
            key.describes(c),
            m <= planned@.len(),
            forall|mm: int| 0 <= mm < m ==> !same_path(#[trigger] texts[mm], c),
        decreases planned@.len() - m,
    {
        if key_eq(&planned[m], key) {
            return Some(m);
        }
        m = m + 1;
    }
    None
}

/// The reason finding `i` stops before the duplicate check, if it does.
fn early_decision(
    findings: &[Finding],
    probes: &[PathProbe],
    opts: &CleanOptions,
    keys: &Vec<Option<PathKey>>,
    eligible: &Vec<bool>,
    withheld: &Vec<bool>,
    i: usize,
) -> (r: Option<String>)
    requires
        keys_ok(keys@, findings@, probes@),
        flags_ok(eligible@, findings@, probes@, *opts),
        withheld_ok(withheld@, findings@, probes@, *opts),
        i < findings@.len(),
    ensures
        r matches Some(m) ==> early_reason(findings@, probes@, *opts, i as int) == Some(m@),
        r is None ==> early_reason(findings@, probes@, *opts, i as int) is None,
{
    reveal(early_reason);
    let f = &findings[i];
    let p = &probes[i];
    if !opts.include_level.allows(f.safety) {
        return Some("filtered by --only level".to_owned());
    }
    if f.safety == Safety::Danger && !opts.force_danger {
        return Some("danger items need --force".to_owned());
    }
    match &f.action {
        CleanAction::RemovePath { path } => {
            match refusal_reason(path.as_str()) {
                Some(m) => {
                    return Some(m);
                },
                None => {},
            }
            match &p.ancestors {
                Err(e) => {
                    return Some(e.clone());
                },
                Ok(()) => {},
            }
            match &p.stat {
                StatOutcome::Missing => Some("path already gone".to_owned()),
                StatOutcome::Failed { error } => Some(concat("cannot stat path: ", error.as_str())),
                StatOutcome::Link => Some("refused: path is a symbolic link".to_owned()),
                StatOutcome::Present { .. } => match &p.canonical {
                    Err(e) => Some(concat("cannot resolve path: ", e.as_str())),
                    Ok(c) => {
                        assert(keys@[i as int] is Some);
                        let key = keys[i].as_ref().unwrap();
                        if contains_withheld(findings, probes, opts, keys, withheld, key, Ghost(c@)) {
                            Some("refused: contains an item excluded from this run".to_owned())
                        } else if is_covered(findings, probes, opts, keys, eligible, key, Ghost(c@)) {
                            Some("refused: covered by a broader finding".to_owned())
                        } else if has_stricter_twin(findings, probes, keys, key, Ghost(c@), f.safety) {
                            Some("same path has a stricter safety classification".to_owned())
                        } else {
                            None
                        }
                    },
                },
            }
        },
        CleanAction::RunCommand { description, .. } => Some(
            concat("needs external command (v1 reports only): ", description.as_str()),
        ),
        CleanAction::Manual { instructions } => Some(concat("manual steps required: ", instructions.as_str())),
    }
}

/// Builds the plan: filters by safety level, refuses links and protected
/// paths, drops vanished paths, skips children of broader findings and
/// duplicates, and totals the planned bytes.
///
/// `probes[i]` holds the filesystem facts about the path of `findings[i]`.
#[verifier::rlimit(40)]
pub fn plan(findings: &[Finding], probes: &[PathProbe], opts: &CleanOptions) -> (r: CleanPlan)
    requires
        probes@.len() == findings@.len(),
        planned_bytes(findings@, probes@, *opts, findings@.len()) <= u64::MAX,
    ensures
        r.items@.len() == findings@.len(),
        forall|i: int| 0 <= i < findings@.len() ==> #[trigger] item_matches(r.items@[i], findings@, probes@, *opts, i),
        r.total_bytes == planned_bytes(findings@, probes@, *opts, findings@.len()),
{
    let keys = resolve_keys(findings, probes);
    let eligible = eligibility(findings, probes, opts, &keys);
    let withheld = withheld_flags(findings, probes, opts, &keys);
    let ghost fs = findings@;
    let ghost ps = probes@;
    let mut items: Vec<PlannedItem> = Vec::new();
    let mut total: u64 = 0;
    let mut planned: Vec<PathKey> = Vec::new();
    let ghost mut idx: Seq<int> = Seq::empty();
    let n = findings.len();
    let mut i: usize = 0;
    while i < n
        invariant
            n == fs.len(),
            fs == findings@,
            ps == probes@,
            keys_ok(keys@, fs, ps),
            flags_ok(eligible@, fs, ps, *opts),
            withheld_ok(withheld@, fs, ps, *opts),
            planned_bytes(fs, ps, *opts, n as nat) <= u64::MAX,
            i <= n,
            items@.len() == i,
            forall|j: int| 0 <= j < i ==> #[trigger] item_matches(items@[j], fs, ps, *opts, j),
            total == planned_bytes(fs, ps, *opts, i as nat),
            planned@.len() == idx.len(),
            forall|m: int|
                0 <= m < idx.len() ==> 0 <= #[trigger] idx[m] < i && reaches_plan(fs, ps, *opts, idx[m])
                    && planned@[m].describes(ps[idx[m]].canonical->Ok_0@),
            forall|k: int|
                0 <= k < i && #[trigger] reaches_plan(fs, ps, *opts, k) ==> exists|m: int|
                    0 <= m < idx.len() && same_path(ps[#[trigger] idx[m]].canonical->Ok_0@, ps[k].canonical->Ok_0@),
        decreases n - i,
    {
        let early = early_decision(findings, probes, opts, &keys, &eligible, &withheld, i);
        match early {
            Some(reason) => {
                let item = skipped_item(&findings[i], reason);
                assert(!is_planned(fs, ps, *opts, i as int));
                items.push(item);
                assert(planned_bytes(fs, ps, *opts, (i + 1) as nat) == planned_bytes(fs, ps, *opts, i as nat));
            },
            None => {
                let ghost c = ps[i as int].canonical->Ok_0@;
                proof {
                    lemma_reaches_plan(fs, ps, *opts, i as int);
                }
                let key = keys[i].as_ref().unwrap();
                let found = find_same(&planned, key, Ghost(idx.map_values(|k: int| ps[k].canonical->Ok_0@)), Ghost(c));
                let dup = found.is_some();
                if dup {
                    let m = found.unwrap();
                    assert(reaches_plan(fs, ps, *opts, idx[m as int]));
                    assert(duplicate_before(fs, ps, *opts, i as int));
                    let item = skipped_item(&findings[i], "duplicate path".to_owned());
                    items.push(item);
                    assert(planned_bytes(fs, ps, *opts, (i + 1) as nat) == planned_bytes(fs, ps, *opts, i as nat));
                } else {
                    assert(!duplicate_before(fs, ps, *opts, i as int)) by {
                        if duplicate_before(fs, ps, *opts, i as int) {
                            let k = choose|k: int|
                                0 <= k < i && #[trigger] reaches_plan(fs, ps, *opts, k) && same_path(
                                    ps[k].canonical->Ok_0@,
                                    ps[i as int].canonical->Ok_0@,
                                );
                            let mm = choose|mm: int|
                                0 <= mm < idx.len() && same_path(ps[#[trigger] idx[mm]].canonical->Ok_0@, ps[k].canonical->Ok_0@);
                            assert(same_path(idx.map_values(|k: int| ps[k].canonical->Ok_0@)[mm], c));
                        }
                    }
                    assert(is_planned(fs, ps, *opts, i as int));
                    proof {
                        lemma_planned_bytes_grow(fs, ps, *opts, (i + 1) as nat, n as nat);
                    }
                    total = total + findings[i].bytes;
                    let canonical = match &probes[i].canonical {
                        Ok(c) => c,
                        Err(e) => e,
                    };
                    items.push(removal_item(&findings[i], canonical, opts));
                    let own_key = match &probes[i].canonical {
                        Ok(c) => path_key(c.as_str()),
                        Err(e) => path_key(e.as_str()),
                    };
                    planned.push(own_key);
                    proof {
                        let ghost old_idx = idx;
                        idx = idx.push(i as int);
                        assert forall|k: int|
                            0 <= k < i + 1 && #[trigger] reaches_plan(fs, ps, *opts, k) implies exists|m2: int|
                                0 <= m2 < idx.len() && same_path(ps[#[trigger] idx[m2]].canonical->Ok_0@, ps[k].canonical->Ok_0@) by {
                            if k == i {
                                assert(idx[idx.len() - 1] == i);
                            } else {
                                let m2 = choose|m2: int|
                                    0 <= m2 < old_idx.len() && same_path(ps[#[trigger] old_idx[m2]].canonical->Ok_0@, ps[k].canonical->Ok_0@);
                                assert(idx[m2] == old_idx[m2]);
                            }
                        }
                    }
                }
            },
        }
        i = i + 1;
    }
    CleanPlan { items, total_bytes: total }
}

} // verus!

verus! {

/// The delete-time recheck a detector asks for.
#[derive(Debug, Clone, Copy, PartialEq, Eq, Structural)]
pub enum Recheck {
    /// Every bytecode file still has its source (`pycache`).
    Bytecode,
    /// The whole temp tree is still older than the age limit (`temp`).
    TempStale,
    /// The agent output tree is still quiet (`agent-artifacts`).
    AgentQuiet,
}

/// Which recheck a detector id asks for.
pub open spec fn spec_recheck_kind(id: Seq<char>) -> Option<Recheck> {
    if id == "pycache"@ {
        Some(Recheck::Bytecode)
    } else if id == "temp"@ {
        Some(Recheck::TempStale)
    } else if id == "agent-artifacts"@ {
        Some(Recheck::AgentQuiet)
    } else {
        None
    }
}

/// The recheck a finding of detector `id` needs before deletion.
pub fn recheck_kind(id: &str) -> (r: Option<Recheck>)
    ensures
        r == spec_recheck_kind(id@),
{
    if crate::text::str_eq(id, "pycache") {
        Some(Recheck::Bytecode)
    } else if crate::text::str_eq(id, "temp") {
        Some(Recheck::TempStale)
    } else if crate::text::str_eq(id, "agent-artifacts") {
        Some(Recheck::AgentQuiet)
    } else {
        None
    }
}

/// Filesystem facts about one planned path, gathered right before deletion.
#[derive(Debug)]
pub struct ItemProbe {
    /// The link/reparse check of every existing ancestor of the path.
    pub ancestors: Result<(), String>,
    /// The detector's recheck (see [`recheck_kind`]) still holds, the path is
    /// gone, or the detector has none.
    pub still_valid: bool,
    /// `symlink_metadata(path)`.
    pub stat: StatOutcome,
}

/// A validated deletion, ready to be performed.
#[derive(Debug, Clone)]
pub struct Job {
    pub path: String,
    pub is_dir: bool,
    pub via: String,
    pub bytes: u64,
    pub label: String,
    pub safety: Safety,
}

/// What happened to one job: the bytes removed or the error, and the
/// non-fatal problems met on the way.
#[derive(Debug)]
pub struct JobOutcome {
    pub result: Result<u64, String>,
    pub warnings: Vec<String>,
}

/// The first phase of a run: the receipt so far and the deletions to do.
pub struct Execution {
    pub receipt: CleanReceipt,
    pub jobs: Vec<Job>,
}

/// What the first phase decides for one plan item.
pub ghost enum Step {
    Skip { label: Seq<char>, safety: Safety, reason: Seq<char> },
    Fail { message: Seq<char> },
    Counted { path: Seq<char>, bytes: u64, via: Seq<char>, safety: Safety },
    Run { path: Seq<char>, is_dir: bool, via: Seq<char>, bytes: u64, label: Seq<char>, safety: Safety },
}

/// The error text of a failed recheck.
pub open spec fn recheck_message(kind: Recheck, path: Seq<char>) -> Seq<char> {
    match kind {
        Recheck::Bytecode => path + ": bytecode contents or sources changed after planning"@,
        Recheck::TempStale => path + ": temp contents changed or could not be verified"@,
        Recheck::AgentQuiet => path + ": agent artifact changed recently; a task may be running"@,
    }
}

/// `label (path): rest`.
pub open spec fn tagged(label: Seq<char>, path: Seq<char>, rest: Seq<char>) -> Seq<char> {
    label + " ("@ + path + "): "@ + rest
}

/// The first-phase decision for one plan item.
pub open spec fn step_of(item: PlannedItem, probe: ItemProbe, opts: CleanOptions) -> Step {
    let f = item.finding;
    match item.disposition {
        Disposition::Skipped { reason } => Step::Skip { label: f.label@, safety: f.safety, reason: reason@ },
        Disposition::Remove { via } => match f.action {
            CleanAction::RemovePath { path } => {
                let p = path@;
                if via@ != "trash"@ && via@ != "permanent"@ {
                    Step::Fail { message: "unknown delete method: "@ + via@ }
                } else if !passes_gate(f, opts) {
                    Step::Fail { message: f.label@ + ": execution options exclude this safety level"@ }
                } else if spec_refusal(p) is Some {
                    Step::Fail { message: spec_refusal(p)->0 }
                } else if probe.ancestors is Err {
                    Step::Fail { message: probe.ancestors->Err_0@ }
                } else if !opts.execute {
                    Step::Counted { path: p, bytes: f.bytes, via: via@, safety: f.safety }
                } else if spec_recheck_kind(f.detector_id@) is Some && !probe.still_valid {
                    Step::Fail { message: recheck_message(spec_recheck_kind(f.detector_id@)->0, p) }
                } else {
                    match probe.stat {
                        StatOutcome::Missing => Step::Skip {
                            label: f.label@,
                            safety: f.safety,
                            reason: "vanished between plan and execute"@,
                        },
                        StatOutcome::Failed { error } => Step::Fail {
                            message: tagged(f.label@, p, "re-stat failed: "@ + error@),
                        },
                        StatOutcome::Link => Step::Fail {
                            message: tagged(f.label@, p, "refused: became a symbolic link after planning"@),
                        },
                        StatOutcome::Present { is_dir } => Step::Run {
                            path: p,
                            is_dir,
                            via: via@,
                            bytes: f.bytes,
                            label: f.label@,
                            safety: f.safety,
                        },
                    }
                }
            },
            _ => Step::Fail { message: f.label@ + ": plan/action mismatch (no path to remove)"@ },
        },
    }
}

/// The view of a skipped record.
pub open spec fn skipped_view(s: SkippedItem) -> (Seq<char>, Safety, Seq<char>) {
    (s.label@, s.safety, s.reason@)
}

/// The view of a removed record.
pub open spec fn removed_view(r: RemovedItem) -> (Seq<char>, u64, Seq<char>, Safety) {
    (r.path@, r.bytes, r.via@, r.safety)
}

/// The view of a job.
pub open spec fn job_view(j: Job) -> (Seq<char>, bool, Seq<char>, u64, Seq<char>, Safety) {
    (j.path@, j.is_dir, j.via@, j.bytes, j.label@, j.safety)
}

/// Skipped records of the first `i` items.
pub open spec fn first_skipped(items: Seq<PlannedItem>, probes: Seq<ItemProbe>, opts: CleanOptions, i: nat) -> Seq<(Seq<char>, Safety, Seq<char>)>
    decreases i,
{
    if i == 0 || i > items.len() {
        Seq::empty()
    } else {
        let prev = first_skipped(items, probes, opts, (i - 1) as nat);
        match step_of(items[i - 1], probes[i - 1], opts) {
            Step::Skip { label, safety, reason } => prev.push((label, safety, reason)),
            _ => prev,
        }
    }
}

/// Error texts of the first `i` items.
pub open spec fn first_errors(items: Seq<PlannedItem>, probes: Seq<ItemProbe>, opts: CleanOptions, i: nat) -> Seq<Seq<char>>
    decreases i,
{
    if i == 0 || i > items.len() {
        Seq::empty()
    } else {
        let prev = first_errors(items, probes, opts, (i - 1) as nat);
        match step_of(items[i - 1], probes[i - 1], opts) {
            Step::Fail { message } => prev.push(message),
            _ => prev,
        }
    }
}

/// Dry-run removals of the first `i` items.
pub open spec fn first_counted(items: Seq<PlannedItem>, probes: Seq<ItemProbe>, opts: CleanOptions, i: nat) -> Seq<(Seq<char>, u64, Seq<char>, Safety)>
    decreases i,
{
    if i == 0 || i > items.len() {
        Seq::empty()
    } else {
        let prev = first_counted(items, probes, opts, (i - 1) as nat);
        match step_of(items[i - 1], probes[i - 1], opts) {
            Step::Counted { path, bytes, via, safety } => prev.push((path, bytes, via, safety)),
            _ => prev,
        }
    }
}

/// Deletion jobs of the first `i` items.
pub open spec fn first_jobs(items: Seq<PlannedItem>, probes: Seq<ItemProbe>, opts: CleanOptions, i: nat) -> Seq<(Seq<char>, bool, Seq<char>, u64, Seq<char>, Safety)>
    decreases i,
{
    if i == 0 || i > items.len() {
        Seq::empty()
    } else {
        let prev = first_jobs(items, probes, opts, (i - 1) as nat);
        match step_of(items[i - 1], probes[i - 1], opts) {
            Step::Run { path, is_dir, via, bytes, label, safety } => prev.push((path, is_dir, via, bytes, label, safety)),
            _ => prev,
        }
    }
}

/// Total bytes of a list of removals.
pub open spec fn sum_bytes(rs: Seq<(Seq<char>, u64, Seq<char>, Safety)>) -> nat
    decreases rs.len(),
{
    if rs.len() == 0 {
        0
    } else {
        sum_bytes(rs.drop_last()) + rs.last().1 as nat
    }
}

} // verus!

verus! {

/// The executable form of a [`Step`].
enum StepTaken {
    Skip(SkippedItem),
    Fail(String),
    Counted(RemovedItem),
    Run(Job),
}

/// An executable step carries the decided step.
spec fn taken_matches(t: StepTaken, s: Step) -> bool {
    match (t, s) {
        (StepTaken::Skip(x), Step::Skip { label, safety, reason }) => skipped_view(x) == (label, safety, reason),
        (StepTaken::Fail(m), Step::Fail { message }) => m@ == message,
        (StepTaken::Counted(x), Step::Counted { path, bytes, via, safety }) => removed_view(x) == (path, bytes, via, safety),
        (StepTaken::Run(j), Step::Run { path, is_dir, via, bytes, label, safety }) => job_view(j) == (
            path,
            is_dir,
            via,
            bytes,
            label,
            safety,
        ),
        _ => false,
    }
}

/// `label (path): rest` as text.
fn tagged_text(label: &str, path: &str, rest: &str) -> (r: String)
    ensures
        r@ == tagged(label@, path@, rest@),
{
    let mut s = label.to_owned();
    s.append(" (");
    s.append(path);
    s.append("): ");
    s.append(rest);
    s
}

/// Decides one plan item.
fn take_step(item: &PlannedItem, probe: &ItemProbe, opts: &CleanOptions) -> (r: StepTaken)
    ensures
        taken_matches(r, step_of(*item, *probe, *opts)),
{
    let f = &item.finding;
    match &item.disposition {
        Disposition::Skipped { reason } => StepTaken::Skip(
            SkippedItem { label: f.label.clone(), safety: f.safety, reason: reason.clone() },
        ),
        Disposition::Remove { via } => match &f.action {
            CleanAction::RemovePath { path } => {
                let known = crate::text::str_eq(via.as_str(), "trash") || crate::text::str_eq(via.as_str(), "permanent");
                if !known {
                    return StepTaken::Fail(concat("unknown delete method: ", via.as_str()));
                }
                if !gate_ok(f, opts) {
                    return StepTaken::Fail(concat(f.label.as_str(), ": execution options exclude this safety level"));
                }
                match refusal_reason(path.as_str()) {
                    Some(m) => {
                        return StepTaken::Fail(m);
                    },
                    None => {},
                }
                match &probe.ancestors {
                    Err(e) => {
                        return StepTaken::Fail(e.clone());
                    },
                    Ok(()) => {},
                }
                if !opts.execute {
                    return StepTaken::Counted(
                        RemovedItem { path: path.clone(), bytes: f.bytes, via: via.clone(), safety: f.safety },
                    );
                }
                match recheck_kind(f.detector_id.as_str()) {
                    Some(kind) => {
                        if !probe.still_valid {
                            let message = match kind {
                                Recheck::Bytecode => concat(path.as_str(), ": bytecode contents or sources changed after planning"),
                                Recheck::TempStale => concat(path.as_str(), ": temp contents changed or could not be verified"),
                                Recheck::AgentQuiet => concat(
                                    path.as_str(),
                                    ": agent artifact changed recently; a task may be running",
                                ),
                            };
                            return StepTaken::Fail(message);
                        }
                    },
                    None => {},
                }
                match &probe.stat {
                    StatOutcome::Missing => StepTaken::Skip(
                        SkippedItem {
                            label: f.label.clone(),
                            safety: f.safety,
                            reason: "vanished between plan and execute".to_owned(),
                        },
                    ),
                    StatOutcome::Failed { error } => {
                        let rest = concat("re-stat failed: ", error.as_str());
                        StepTaken::Fail(tagged_text(f.label.as_str(), path.as_str(), rest.as_str()))
                    },
                    StatOutcome::Link => StepTaken::Fail(
                        tagged_text(f.label.as_str(), path.as_str(), "refused: became a symbolic link after planning"),
                    ),
                    StatOutcome::Present { is_dir } => StepTaken::Run(
                        Job {
                            path: path.clone(),
                            is_dir: *is_dir,
                            via: via.clone(),
                            bytes: f.bytes,
                            label: f.label.clone(),
                            safety: f.safety,
                        },
                    ),
                }
            },
            _ => StepTaken::Fail(concat(f.label.as_str(), ": plan/action mismatch (no path to remove)")),
        },
    }
}

/// Dry-run bytes never decrease along the items.
pub proof fn lemma_counted_grow(items: Seq<PlannedItem>, probes: Seq<ItemProbe>, opts: CleanOptions, i: nat, j: nat)
    requires
        i <= j <= items.len(),
    ensures
        sum_bytes(first_counted(items, probes, opts, i)) <= sum_bytes(first_counted(items, probes, opts, j)),
    decreases j - i,
{
    if i < j {
        lemma_counted_grow(items, probes, opts, i, (j - 1) as nat);
        let prev = first_counted(items, probes, opts, (j - 1) as nat);
        match step_of(items[j - 1], probes[j - 1], opts) {
            Step::Counted { path, bytes, via, safety } => {
                assert(prev.push((path, bytes, via, safety)).drop_last() =~= prev);
            },
            _ => {},
        }
    }
}

/// First phase of a run: checks every plan item again (level, delete
/// method, structural refusals, ancestor links, detector rechecks, type)
/// and collects the deletions to perform. A dry run (`execute: false`)
/// completes here: its receipt counts the planned bytes and nothing is
/// deleted.
///
/// `probes[i]` holds the filesystem facts about the path of item `i`.
pub fn execute(plan: &CleanPlan, opts: &CleanOptions, probes: &[ItemProbe]) -> (r: Execution)
    requires
        probes@.len() == plan.items@.len(),
        sum_bytes(first_counted(plan.items@, probes@, *opts, plan.items@.len())) <= u64::MAX,
    ensures
        r.receipt.schema_version == SCHEMA_VERSION,
        r.receipt.dry_run == !opts.execute,
        r.receipt.skipped@.map_values(|s: SkippedItem| skipped_view(s)) == first_skipped(plan.items@, probes@, *opts, plan.items@.len()),
        r.receipt.errors@.map_values(|s: String| s@) == first_errors(plan.items@, probes@, *opts, plan.items@.len()),
        r.receipt.removed@.map_values(|x: RemovedItem| removed_view(x)) == first_counted(plan.items@, probes@, *opts, plan.items@.len()),
        r.receipt.freed_bytes == sum_bytes(first_counted(plan.items@, probes@, *opts, plan.items@.len())),
        r.jobs@.map_values(|j: Job| job_view(j)) == first_jobs(plan.items@, probes@, *opts, plan.items@.len()),
{
    let ghost items = plan.items@;
    let ghost ps = probes@;
    let n = plan.items.len();
    let mut skipped: Vec<SkippedItem> = Vec::new();
    let mut errors: Vec<String> = Vec::new();
    let mut removed: Vec<RemovedItem> = Vec::new();
    let mut jobs: Vec<Job> = Vec::new();
    let mut freed: u64 = 0;
    let mut i: usize = 0;
    while i < n
        invariant
            n == items.len(),
            items == plan.items@,
            ps == probes@,
            ps.len() == n,
            sum_bytes(first_counted(items, ps, *opts, n as nat)) <= u64::MAX,
            i <= n,
            skipped@.map_values(|s: SkippedItem| skipped_view(s)) == first_skipped(items, ps, *opts, i as nat),
            errors@.map_values(|s: String| s@) == first_errors(items, ps, *opts, i as nat),
            removed@.map_values(|x: RemovedItem| removed_view(x)) == first_counted(items, ps, *opts, i as nat),
            freed == sum_bytes(first_counted(items, ps, *opts, i as nat)),
            jobs@.map_values(|j: Job| job_view(j)) == first_jobs(items, ps, *opts, i as nat),
        decreases n - i,
    {
        let step = take_step(&plan.items[i], &probes[i], opts);
        proof {
            lemma_counted_grow(items, ps, *opts, (i + 1) as nat, n as nat);
        }
        match step {
            StepTaken::Skip(x) => {
                skipped.push(x);
                assert(skipped@.map_values(|s: SkippedItem| skipped_view(s)) =~= first_skipped(items, ps, *opts, (i + 1) as nat));
            },
            StepTaken::Fail(m) => {
                errors.push(m);
                assert(errors@.map_values(|s: String| s@) =~= first_errors(items, ps, *opts, (i + 1) as nat));
            },
            StepTaken::Counted(x) => {
                let ghost before = first_counted(items, ps, *opts, i as nat);
                assert(first_counted(items, ps, *opts, (i + 1) as nat).drop_last() =~= before);
                freed = freed + x.bytes;
                removed.push(x);
                assert(removed@.map_values(|x: RemovedItem| removed_view(x)) =~= first_counted(items, ps, *opts, (i + 1) as nat));
            },
            StepTaken::Run(j) => {
                jobs.push(j);
                assert(jobs@.map_values(|j: Job| job_view(j)) =~= first_jobs(items, ps, *opts, (i + 1) as nat));
            },
        }
        i = i + 1;
    }
    let receipt = CleanReceipt {
        schema_version: SCHEMA_VERSION,
        dry_run: !opts.execute,
        freed_bytes: freed,
        removed,
        skipped,
        errors,
    };
    Execution { receipt, jobs }
}

} // verus!

verus! {

/// Error texts recorded for the first `k` job outcomes: each job's
/// warnings, then its own error if it failed.
pub open spec fn outcome_errors(jobs: Seq<Job>, outs: Seq<JobOutcome>, k: nat) -> Seq<Seq<char>>
    decreases k,
{
    if k == 0 || k > jobs.len() || k > outs.len() {
        Seq::empty()
    } else {
        let j = jobs[k - 1];
        let o = outs[k - 1];
        let prev = outcome_errors(jobs, outs, (k - 1) as nat) + o.warnings@.map_values(|w: String| w@);
        match o.result {
            Ok(_) => prev,
            Err(e) => prev.push(tagged(j.label@, j.path@, e@)),
        }
    }
}

/// Removals recorded for the first `k` job outcomes.
pub open spec fn outcome_removed(jobs: Seq<Job>, outs: Seq<JobOutcome>, k: nat) -> Seq<(Seq<char>, u64, Seq<char>, Safety)>
    decreases k,
{
    if k == 0 || k > jobs.len() || k > outs.len() {
        Seq::empty()
    } else {
        let j = jobs[k - 1];
        let prev = outcome_removed(jobs, outs, (k - 1) as nat);
        match outs[k - 1].result {
            Ok(b) => prev.push((j.path@, b, j.via@, j.safety)),
            Err(_) => prev,
        }
    }
}

/// Bytes of removals never decrease along the outcomes.
pub proof fn lemma_removed_grow(jobs: Seq<Job>, outs: Seq<JobOutcome>, k: nat, m: nat)
    requires
        k <= m <= jobs.len(),
        jobs.len() == outs.len(),
    ensures
        sum_bytes(outcome_removed(jobs, outs, k)) <= sum_bytes(outcome_removed(jobs, outs, m)),
    decreases m - k,
{
    if k < m {
        lemma_removed_grow(jobs, outs, k, (m - 1) as nat);
        let prev = outcome_removed(jobs, outs, (m - 1) as nat);
        match outs[m - 1].result {
            Ok(b) => {
                assert(prev.push((jobs[m - 1].path@, b, jobs[m - 1].via@, jobs[m - 1].safety)).drop_last() =~= prev);
            },
            Err(_) => {},
        }
    }
}

impl Execution {
    /// Second phase of a run: records what each deletion did, in job
    /// order. A job's warnings are appended to the errors, then its own
    /// error if it failed; a success adds a removal with the bytes
    /// actually freed.
    pub fn finish(self, outcomes: &[JobOutcome]) -> (r: CleanReceipt)
        requires
            outcomes@.len() == self.jobs@.len(),
            self.receipt.freed_bytes + sum_bytes(outcome_removed(self.jobs@, outcomes@, outcomes@.len())) <= u64::MAX,
        ensures
            r.schema_version == self.receipt.schema_version,
            r.dry_run == self.receipt.dry_run,
            r.skipped@ == self.receipt.skipped@,
            r.errors@.map_values(|s: String| s@) == self.receipt.errors@.map_values(|s: String| s@)
                + outcome_errors(self.jobs@, outcomes@, outcomes@.len()),
            r.removed@.map_values(|x: RemovedItem| removed_view(x)) == self.receipt.removed@.map_values(
                |x: RemovedItem| removed_view(x),
            ) + outcome_removed(self.jobs@, outcomes@, outcomes@.len()),
            r.freed_bytes == self.receipt.freed_bytes + sum_bytes(outcome_removed(self.jobs@, outcomes@, outcomes@.len())),
            self.receipt.freed_bytes == sum_bytes(self.receipt.removed@.map_values(|x: RemovedItem| removed_view(x)))
                ==> r.freed_bytes == sum_bytes(r.removed@.map_values(|x: RemovedItem| removed_view(x))),
    {
        let Execution { receipt, jobs } = self;
        let ghost base = receipt;
        let CleanReceipt { schema_version, dry_run, freed_bytes, removed, skipped, errors } = receipt;
        let mut freed = freed_bytes;
        let mut removed = removed;
        let mut errors = errors;
        let n = jobs.len();
        let mut k: usize = 0;
        while k < n
            invariant
                n == jobs@.len(),
                n == outcomes@.len(),
                k <= n,
                base.freed_bytes + sum_bytes(outcome_removed(jobs@, outcomes@, n as nat)) <= u64::MAX,
                freed == base.freed_bytes + sum_bytes(outcome_removed(jobs@, outcomes@, k as nat)),
                errors@.map_values(|s: String| s@) == base.errors@.map_values(|s: String| s@)
                    + outcome_errors(jobs@, outcomes@, k as nat),
                removed@.map_values(|x: RemovedItem| removed_view(x)) == base.removed@.map_values(
                    |x: RemovedItem| removed_view(x),
                ) + outcome_removed(jobs@, outcomes@, k as nat),
            decreases n - k,
        {
            let o = &outcomes[k];
            let j = &jobs[k];
            let mut w: usize = 0;
            let ghost before = errors@.map_values(|s: String| s@);
            while w < o.warnings.len()
                invariant
                    w <= o.warnings@.len(),
                    errors@.map_values(|s: String| s@) == before + o.warnings@.subrange(0, w as int).map_values(
                        |s: String| s@,
                    ),
                decreases o.warnings@.len() - w,
            {
                let ghost old_errors = errors@;
                let item = o.warnings[w].clone();
                errors.push(item);
                assert(errors@.map_values(|s: String| s@) =~= old_errors.map_values(|s: String| s@).push(o.warnings@[w as int]@));
                assert(o.warnings@.subrange(0, (w + 1) as int).map_values(|s: String| s@) =~= o.warnings@.subrange(
                    0,
                    w as int,
                ).map_values(|s: String| s@).push(o.warnings@[w as int]@));
                assert(errors@.map_values(|s: String| s@) =~= before + o.warnings@.subrange(0, (w + 1) as int).map_values(
                    |s: String| s@,
                ));
                w = w + 1;
            }
            assert(o.warnings@.subrange(0, o.warnings@.len() as int) =~= o.warnings@);
            let ghost after_warnings = errors@.map_values(|s: String| s@);
            assert(after_warnings =~= base.errors@.map_values(|s: String| s@) + (outcome_errors(jobs@, outcomes@, k as nat)
                + o.warnings@.map_values(|w: String| w@)));
            proof {
                lemma_removed_grow(jobs@, outcomes@, (k + 1) as nat, n as nat);
            }
            match &o.result {
                Ok(b) => {
                    let ghost prev = outcome_removed(jobs@, outcomes@, k as nat);
                    assert(outcome_removed(jobs@, outcomes@, (k + 1) as nat).drop_last() =~= prev);
                    freed = freed + *b;
                    let ghost old_removed = removed@;
                    let rec = RemovedItem { path: j.path.clone(), bytes: *b, via: j.via.clone(), safety: j.safety };
                    removed.push(rec);
                    assert(removed@.map_values(|x: RemovedItem| removed_view(x)) =~= old_removed.map_values(
                        |x: RemovedItem| removed_view(x),
                    ).push((j.path@, *b, j.via@, j.safety)));
                    assert(removed@.map_values(|x: RemovedItem| removed_view(x)) =~= base.removed@.map_values(
                        |x: RemovedItem| removed_view(x),
                    ) + outcome_removed(jobs@, outcomes@, (k + 1) as nat));
                    assert(errors@.map_values(|s: String| s@) =~= base.errors@.map_values(|s: String| s@)
                        + outcome_errors(jobs@, outcomes@, (k + 1) as nat));
                },
                Err(e) => {
                    let ghost old_errors = errors@;
                    let msg = tagged_text(j.label.as_str(), j.path.as_str(), e.as_str());
                    errors.push(msg);
                    assert(errors@.map_values(|s: String| s@) =~= old_errors.map_values(|s: String| s@).push(
                        tagged(j.label@, j.path@, e@),
                    ));
                    assert(errors@.map_values(|s: String| s@) =~= base.errors@.map_values(|s: String| s@)
                        + outcome_errors(jobs@, outcomes@, (k + 1) as nat));
                    assert(removed@.map_values(|x: RemovedItem| removed_view(x)) =~= base.removed@.map_values(
                        |x: RemovedItem| removed_view(x),
                    ) + outcome_removed(jobs@, outcomes@, (k + 1) as nat));
                },
            }
            k = k + 1;
        }
        proof {
            crate::laws::law_sum_bytes_concat(
                base.removed@.map_values(|x: RemovedItem| removed_view(x)),
                outcome_removed(jobs@, outcomes@, outcomes@.len()),
            );
        }
        CleanReceipt { schema_version, dry_run, freed_bytes: freed, removed, skipped, errors }
    }
}

} // verus!

verus! {

/// A dry run of a plan never reports more bytes than the plan totals.
pub proof fn law_counted_within_plan(
    items: Seq<PlannedItem>,
    probes: Seq<ItemProbe>,
    opts: CleanOptions,
    fs: Seq<Finding>,
    ps: Seq<PathProbe>,
    i: nat,
)
    requires
        items.len() == fs.len(),
        i <= fs.len(),
        forall|k: int| 0 <= k < fs.len() ==> #[trigger] item_matches(items[k], fs, ps, opts, k),
    ensures
        sum_bytes(first_counted(items, probes, opts, i)) <= planned_bytes(fs, ps, opts, i),
    decreases i,
{
    if i > 0 {
        law_counted_within_plan(items, probes, opts, fs, ps, (i - 1) as nat);
        let k = i - 1;
        assert(item_matches(items[k], fs, ps, opts, k));
        let prev = first_counted(items, probes, opts, (i - 1) as nat);
        match step_of(items[k], probes[k], opts) {
            Step::Counted { path, bytes, via, safety } => {
                assert(first_counted(items, probes, opts, i).drop_last() == prev);
                assert(is_planned(fs, ps, opts, k));
            },
            _ => {},
        }
    }
}

/// Plans `findings` and runs the first phase of the plan: the planning of
/// [`plan`] followed by the checks of [`execute`], with `item_probes[i]`
/// the facts about the location planned for finding `i`. A dry run is
/// complete here.
pub fn clean(
    findings: &[Finding],
    probes: &[PathProbe],
    opts: &CleanOptions,
    item_probes: &[ItemProbe],
) -> (r: Execution)
    requires
        probes@.len() == findings@.len(),
        item_probes@.len() == findings@.len(),
        planned_bytes(findings@, probes@, *opts, findings@.len()) <= u64::MAX,
    ensures
        exists|items: Seq<PlannedItem>|
            {
                &&& items.len() == findings@.len()
                &&& forall|i: int| 0 <= i < findings@.len() ==> #[trigger] item_matches(items[i], findings@, probes@, *opts, i)
                &&& r.receipt.skipped@.map_values(|s: SkippedItem| skipped_view(s)) == first_skipped(items, item_probes@, *opts, items.len())
                &&& r.receipt.errors@.map_values(|s: String| s@) == first_errors(items, item_probes@, *opts, items.len())
                &&& r.receipt.removed@.map_values(|x: RemovedItem| removed_view(x)) == first_counted(items, item_probes@, *opts, items.len())
                &&& r.receipt.freed_bytes == sum_bytes(first_counted(items, item_probes@, *opts, items.len()))
                &&& r.jobs@.map_values(|j: Job| job_view(j)) == first_jobs(items, item_probes@, *opts, items.len())
            },
        r.receipt.schema_version == SCHEMA_VERSION,
        r.receipt.dry_run == !opts.execute,
{
    let planned = plan(findings, probes, opts);
    proof {
        law_counted_within_plan(planned.items@, item_probes@, *opts, findings@, probes@, findings@.len());
    }
    let r = execute(&planned, opts, item_probes);
    assert(forall|i: int| 0 <= i < findings@.len() ==> #[trigger] item_matches(planned.items@[i], findings@, probes@, *opts, i));
    r
}

} // verus!

verus! {

/// The texts joined by `sep`.
pub open spec fn joined(parts: Seq<Seq<char>>, sep: Seq<char>) -> Seq<char>
    decreases parts.len(),
{
    if parts.len() == 0 {
        Seq::empty()
    } else if parts.len() == 1 {
        parts[0]
    } else {
        joined(parts.drop_last(), sep) + sep + parts.last()
    }
}

/// What deleting a directory tree amounts to: when the tree is gone the
/// item is done with the bytes freed, and the errors met on children
/// become warnings; when it still exists the item failed, with those
/// errors joined by `; ` (or a note that the tree survived).
pub fn tree_outcome(bytes: u64, errors: Vec<String>, still_exists: bool) -> (r: JobOutcome)
    ensures
        still_exists ==> r.warnings@.len() == 0,
        still_exists ==> (r.result matches Err(e) && e@ == if errors@.len() == 0 {
            "tree still exists after deletion"@
        } else {
            joined(errors@.map_values(|s: String| s@), "; "@)
        }),
        !still_exists ==> r.result == Ok::<u64, String>(bytes) && r.warnings@ == errors@,
{
    if !still_exists {
        return JobOutcome { result: Ok(bytes), warnings: errors };
    }
    if errors.len() == 0 {
        return JobOutcome { result: Err("tree still exists after deletion".to_owned()), warnings: Vec::new() };
    }
    let ghost parts = errors@.map_values(|s: String| s@);
    let mut text = errors[0].clone();
    let mut i: usize = 1;
    assert(parts.take(1) =~= seq![parts[0]]);
    while i < errors.len()
        invariant
            parts == errors@.map_values(|s: String| s@),
            1 <= i <= errors@.len(),
            text@ == joined(parts.take(i as int), "; "@),
        decreases errors@.len() - i,
    {
        text.append("; ");
        text.append(errors[i].as_str());
        assert(parts.take(i + 1int).drop_last() =~= parts.take(i as int));
        assert(parts.take(i + 1int).last() == parts[i as int]);
        i = i + 1;
    }
    assert(parts.take(errors@.len() as int) =~= parts);
    JobOutcome { result: Err(text), warnings: Vec::new() }
}

} // verus!

verus! {

/// What the one-pass tree deleter found at one entry of a directory, by
/// `symlink_metadata` (links are never followed).
#[derive(Debug, Clone, Copy, PartialEq, Eq, Structural)]
pub enum TreeEntry {
    /// A link or reparse point, itself a directory link when `is_dir`.
    Link { is_dir: bool },
    /// A real directory.
    Dir,
    /// A regular file of `len` bytes.
    File { len: u64 },
    /// Anything else (socket, device, ...).
    Other,
}

/// What the deleter does with one entry.
#[derive(Debug, Clone, Copy, PartialEq, Eq, Structural)]
pub enum EntryStep {
    /// Remove the link itself (as a directory link when `as_dir`).
    RemoveLink { as_dir: bool },
    /// Delete the directory's own tree, then the directory.
    Descend,
    /// Unlink the file, counting `len` bytes when it goes.
    Unlink { len: u64 },
    /// Remove the entry as a file, counting nothing.
    RemoveOther,
}

/// A link is removed as a link and never descended; a directory is
/// descended; a file is unlinked with its length; anything else is removed
/// without counting bytes.
pub open spec fn spec_entry_step(e: TreeEntry) -> EntryStep {
    match e {
        TreeEntry::Link { is_dir } => EntryStep::RemoveLink { as_dir: is_dir },
        TreeEntry::Dir => EntryStep::Descend,
        TreeEntry::File { len } => EntryStep::Unlink { len },
        TreeEntry::Other => EntryStep::RemoveOther,
    }
}

/// What to do with one entry of a tree being deleted.
pub fn entry_step(e: TreeEntry) -> (r: EntryStep)
    ensures
        r == spec_entry_step(e),
{
    match e {
        TreeEntry::Link { is_dir } => EntryStep::RemoveLink { as_dir: is_dir },
        TreeEntry::Dir => EntryStep::Descend,
        TreeEntry::File { len } => EntryStep::Unlink { len },
        TreeEntry::Other => EntryStep::RemoveOther,
    }
}

/// Bytes of the files actually removed.
pub open spec fn ok_sum(files: Seq<Result<u64, String>>) -> nat
    decreases files.len(),
{
    if files.len() == 0 {
        0
    } else {
        ok_sum(files.drop_last()) + match files.last() {
            Ok(b) => b as nat,
            Err(_) => 0nat,
        }
    }
}

/// Errors of the files that could not be removed, in order.
pub open spec fn file_errors(files: Seq<Result<u64, String>>) -> Seq<Seq<char>>
    decreases files.len(),
{
    if files.len() == 0 {
        Seq::empty()
    } else {
        file_errors(files.drop_last()) + match files.last() {
            Ok(_) => Seq::<Seq<char>>::empty(),
            Err(e) => seq![e@],
        }
    }
}

/// Bytes removed from the subtrees.
pub open spec fn sub_sum(subs: Seq<(u64, Vec<String>)>) -> nat
    decreases subs.len(),
{
    if subs.len() == 0 {
        0
    } else {
        sub_sum(subs.drop_last()) + subs.last().0 as nat
    }
}

/// Errors of the subtrees, subtree by subtree.
pub open spec fn sub_errors(subs: Seq<(u64, Vec<String>)>) -> Seq<Seq<char>>
    decreases subs.len(),
{
    if subs.len() == 0 {
        Seq::empty()
    } else {
        sub_errors(subs.drop_last()) + subs.last().1@.map_values(|s: String| s@)
    }
}

/// The views of some texts.
pub open spec fn texts(v: Seq<String>) -> Seq<Seq<char>> {
    v.map_values(|s: String| s@)
}

/// A prefix removes no more file bytes than the whole.
proof fn lemma_ok_sum_prefix(files: Seq<Result<u64, String>>, i: int)
    requires
        0 <= i <= files.len(),
    ensures
        ok_sum(files.take(i)) <= ok_sum(files),
    decreases files.len() - i,
{
    if i < files.len() {
        lemma_ok_sum_prefix(files, i + 1);
        assert(files.take(i + 1).drop_last() =~= files.take(i));
    } else {
        assert(files.take(i) =~= files);
    }
}

/// A prefix removes no more subtree bytes than the whole.
proof fn lemma_sub_sum_prefix(subs: Seq<(u64, Vec<String>)>, i: int)
    requires
        0 <= i <= subs.len(),
    ensures
        sub_sum(subs.take(i)) <= sub_sum(subs),
    decreases subs.len() - i,
{
    if i < subs.len() {
        lemma_sub_sum_prefix(subs, i + 1);
        assert(subs.take(i + 1).drop_last() =~= subs.take(i));
    } else {
        assert(subs.take(i) =~= subs);
    }
}

/// Appends copies of texts.
fn append_texts(out: &mut Vec<String>, more: &Vec<String>)
    ensures
        texts(final(out)@) == texts(old(out)@) + texts(more@),
{
    let ghost start = out@;
    let mut j: usize = 0;
    while j < more.len()
        invariant
            j <= more@.len(),
            texts(out@) == texts(start) + texts(more@.take(j as int)),
        decreases more@.len() - j,
    {
        let ghost before = out@;
        let c = more[j].clone();
        assert(c@ == more@[j as int]@);
        out.push(c);
        proof {
            assert(more@.take(j + 1) =~= more@.take(j as int).push(more@[j as int]));
            assert(texts(more@.take(j + 1)) =~= texts(more@.take(j as int)).push(more@[j as int]@));
            assert(texts(out@) =~= texts(before).push(c@));
            assert(texts(out@) =~= texts(start) + texts(more@.take(j + 1)));
        }
        j = j + 1;
    }
    assert(more@.take(more@.len() as int) =~= more@);
}

/// The account of one deleted directory: the bytes of the files it
/// removed and of its subtrees, and its errors in order: those met while
/// listing it, then the files that would not go, then each subtree's,
/// then the one met removing the directory itself. `None` when the bytes
/// do not fit in `u64`.
pub fn tree_tally(
    files: &[Result<u64, String>],
    subtrees: &[(u64, Vec<String>)],
    listing: Vec<String>,
    closing: Option<String>,
) -> (r: Option<(u64, Vec<String>)>)
    ensures
        r is Some <==> ok_sum(files@) + sub_sum(subtrees@) <= u64::MAX,
        r matches Some((bytes, errors)) ==> {
            &&& bytes == ok_sum(files@) + sub_sum(subtrees@)
            &&& texts(errors@) == texts(listing@) + file_errors(files@) + sub_errors(subtrees@) + match closing {
                Some(e) => seq![e@],
                None => Seq::<Seq<char>>::empty(),
            }
        },
{
    let mut errors = listing;
    let ghost base = texts(errors@);
    let mut bytes: u64 = 0;
    let mut i: usize = 0;
    assert(files@.take(0) =~= Seq::<Result<u64, String>>::empty());
    assert(base + file_errors(files@.take(0)) =~= base);
    while i < files.len()
        invariant
            i <= files@.len(),
            bytes == ok_sum(files@.take(i as int)),
            texts(errors@) == base + file_errors(files@.take(i as int)),
        decreases files@.len() - i,
    {
        let ghost t = files@.take(i + 1);
        assert(t.drop_last() =~= files@.take(i as int));
        assert(t.last() == files@[i as int]);
        match &files[i] {
            Ok(b) => {
                match bytes.checked_add(*b) {
                    Some(s) => bytes = s,
                    None => {
                        proof {
                            lemma_ok_sum_prefix(files@, i + 1);
                        }
                        return None;
                    },
                }
                assert(file_errors(t) =~= file_errors(files@.take(i as int)));
            },
            Err(e) => {
                let ghost before = errors@;
                let c = e.clone();
                errors.push(c);
                assert(files@[i as int] == Err::<u64, String>(c));
                assert(file_errors(t) == file_errors(files@.take(i as int)) + seq![c@]);
                assert(texts(errors@) =~= texts(before).push(c@));
                assert(texts(errors@) =~= base + file_errors(t));
            },
        }
        i = i + 1;
    }
    assert(files@.take(files@.len() as int) =~= files@);
    let ghost mid = texts(errors@);
    let mut k: usize = 0;
    assert(subtrees@.take(0) =~= Seq::<(u64, Vec<String>)>::empty());
    assert(mid + sub_errors(subtrees@.take(0)) =~= mid);
    while k < subtrees.len()
        invariant
            k <= subtrees@.len(),
            bytes == ok_sum(files@) + sub_sum(subtrees@.take(k as int)),
            texts(errors@) == mid + sub_errors(subtrees@.take(k as int)),
        decreases subtrees@.len() - k,
    {
        let ghost t = subtrees@.take(k + 1);
        assert(t.drop_last() =~= subtrees@.take(k as int));
        assert(t.last() == subtrees@[k as int]);
        match bytes.checked_add(subtrees[k].0) {
            Some(s) => bytes = s,
            None => {
                proof {
                    lemma_sub_sum_prefix(subtrees@, k + 1);
                }
                return None;
            },
        }
        append_texts(&mut errors, &subtrees[k].1);
        assert(texts(errors@) =~= mid + sub_errors(t));
        k = k + 1;
    }
    assert(subtrees@.take(subtrees@.len() as int) =~= subtrees@);
    let ghost before = texts(errors@);
    match closing {
        Some(e) => {
            errors.push(e);
            assert(texts(errors@) =~= before + seq![errors@[errors@.len() - 1]@]);
        },
        None => {
            assert(before + Seq::<Seq<char>>::empty() =~= before);
        },
    }
    Some((bytes, errors))
}

} // verus!

//! The decisions and text of the command line: safety tags, exit codes,
//! the opt-in rule for unattended runs, the project roots of a run, and
//! the human-readable reports of scans, findings and receipts.

use vstd::prelude::*;
use crate::detectors::Ctx;
use crate::model::{CleanAction, CleanOptions, CleanReceipt, DirEntry, Finding, RemovedItem, Safety, ScanReport, SkippedItem};
use crate::scanner::{format_bytes, spec_format_bytes};
use crate::text::{concat, concat3, decimal, eq_ascii_ci, push_char, str_eq_ascii_ci, trim, trim_ws, write_decimal};

verus! {

/// The fixed-width tag shown for a safety level.
pub open spec fn spec_safety_tag(s: Safety) -> Seq<char> {
    match s {
        Safety::Safe => "SAFE  "@,
        Safety::Caution => "CAUTION"@,
        Safety::Danger => "DANGER"@,
    }
}

/// The tag shown for a safety level.
pub fn safety_tag(s: Safety) -> (r: &'static str)
    ensures
        r@ == spec_safety_tag(s),
{
    match s {
        Safety::Safe => "SAFE  ",
        Safety::Caution => "CAUTION",
        Safety::Danger => "DANGER",
    }
}

/// A finished run exits 0, or 2 when some item failed.
pub fn exit_code(receipt: &CleanReceipt) -> (r: i32)
    ensures
        r == if receipt.errors@.len() == 0 { 0i32 } else { 2i32 },
{
    if receipt.errors.len() == 0 {
        0
    } else {
        2
    }
}

/// Machine-readable runs must opt in explicitly before deleting.
pub fn refuses_unattended(json: bool, execute: bool, yes: bool) -> (r: bool)
    ensures
        r == (json && execute && !yes),
{
    json && execute && !yes
}

/// After the dry-run preview, an interactive run goes on to delete only
/// when it executes and the preview removes something.
pub fn acts_after_preview(execute: bool, preview: &CleanReceipt) -> (r: bool)
    ensures
        r == (execute && preview.removed@.len() > 0),
{
    execute && preview.removed.len() > 0
}

/// An answer to the deletion prompt approves only when it is `y` (either
/// case) around white space.
pub fn approves(answer: &str) -> (r: bool)
    ensures
        r == eq_ascii_ci(trim_ws(answer@), "y"@),
{
    let t = trim(answer);
    str_eq_ascii_ci(t.as_str(), "y")
}

/// A requested project root and whether it is a directory.
pub struct RootArg {
    pub path: String,
    pub is_dir: bool,
}

/// The first requested root that is not a directory.
pub open spec fn first_bad_root(roots: Seq<RootArg>) -> Option<Seq<char>>
    decreases roots.len(),
{
    if roots.len() == 0 {
        None
    } else if !roots[0].is_dir {
        Some(roots[0].path@)
    } else {
        first_bad_root(roots.drop_first())
    }
}

impl Ctx {
    /// Applies the run's options: requested roots replace the default
    /// project roots (every one must be a directory, else the run is
    /// refused naming the first that is not), and Docker detection can be
    /// switched off. Every other location is kept.
    pub fn with_run_options(self, roots: Vec<RootArg>, no_docker: bool) -> (r: Result<Ctx, String>)
        ensures
            match first_bad_root(roots@) {
                Some(p) => r matches Err(e) && e@ == "--roots entry is not a directory: "@ + p,
                None => r matches Ok(c) && {
                    &&& c.home == self.home
                    &&& c.local_app_data == self.local_app_data
                    &&& c.cargo_home == self.cargo_home
                    &&& c.rustup_home == self.rustup_home
                    &&& c.pub_cache == self.pub_cache
                    &&& c.android_sdk == self.android_sdk
                    &&& c.npm_cache == self.npm_cache
                    &&& c.pnpm_store == self.pnpm_store
                    &&& c.yarn_cache == self.yarn_cache
                    &&& c.pip_cache == self.pip_cache
                    &&& c.uv_cache == self.uv_cache
                    &&& c.gradle_home == self.gradle_home
                    &&& c.temp_dir == self.temp_dir
                    &&& c.system_root == self.system_root
                    &&& c.go_build_cache == self.go_build_cache
                    &&& c.go_mod_cache == self.go_mod_cache
                    &&& c.docker_data_files@ == self.docker_data_files@
                    &&& c.docker_enabled == (self.docker_enabled && !no_docker)
                    &&& if roots@.len() == 0 {
                        c.project_roots@ == self.project_roots@
                    } else {
                        c.project_roots@.len() == roots@.len() && forall|k: int|
                            0 <= k < roots@.len() ==> (#[trigger] c.project_roots@[k])@ == roots@[k].path@
                    }
                },
            },
    {
        let mut ctx = self;
        let n = roots.len();
        let ghost all = roots@;
        if n > 0 {
            let mut kept: Vec<String> = Vec::new();
            let mut rest = roots;
            let mut i: usize = 0;
            assert(all.skip(0) =~= all);
            while rest.len() > 0
                invariant
                    all == roots@,
                    n == all.len(),
                    i <= n,
                    rest@ == all.skip(i as int),
                    first_bad_root(all) == first_bad_root(all.skip(i as int)),
                    kept@.len() == i,
                    forall|k: int| 0 <= k < i ==> (#[trigger] kept@[k])@ == all[k].path@,
                decreases rest@.len(),
            {
                let root = rest.remove(0);
                assert(root == all[i as int]);
                assert(all.skip(i as int)[0] == all[i as int]);
                assert(all.skip(i as int).drop_first() =~= all.skip(i + 1));
                if !root.is_dir {
                    return Err(concat("--roots entry is not a directory: ", root.path.as_str()));
                }
                kept.push(root.path);
                i = i + 1;
                assert(rest@ =~= all.skip(i as int));
            }
            ctx.project_roots = kept;
        }
        if no_docker {
            ctx.docker_enabled = false;
        }
        Ok(ctx)
    }
}

/// `n` spaces.
pub open spec fn spaces(n: nat) -> Seq<char> {
    Seq::new(n, |i: int| ' ')
}

/// `s` right-aligned in a field of `width` characters (`{:>width}`).
pub open spec fn pad_left(s: Seq<char>, width: nat) -> Seq<char> {
    if s.len() >= width {
        s
    } else {
        spaces((width - s.len()) as nat) + s
    }
}

/// Right-aligns a text in a field.
fn padded(s: &str, width: usize) -> (r: String)
    ensures
        r@ == pad_left(s@, width as nat),
{
    let n = s.unicode_len();
    if n >= width {
        return s.to_owned();
    }
    let mut r = String::new();
    let mut i: usize = 0;
    while i < width - n
        invariant
            n < width,
            i <= width - n,
            r@ == spaces(i as nat),
        decreases width - n - i,
    {
        push_char(&mut r, ' ');
        i = i + 1;
        assert(r@ =~= spaces(i as nat));
    }
    r.append(s);
    r
}

/// `str::lines().next()`: the text before the first line feed, without a
/// carriage return ending it; empty for an empty text.
pub open spec fn first_line(s: Seq<char>) -> Seq<char> {
    match first_newline(s) {
        None => s,
        Some(k) => if k > 0 && s[k - 1] == '\r' { s.take(k - 1) } else { s.take(k) },
    }
}

/// The position of the first line feed.
pub open spec fn first_newline(s: Seq<char>) -> Option<int>
    decreases s.len(),
{
    if s.len() == 0 {
        None
    } else if s[0] == '\n' {
        Some(0)
    } else {
        match first_newline(s.drop_first()) {
            Some(k) => Some(k + 1),
            None => None,
        }
    }
}

/// The first line of a text.
fn first_line_of(s: &str) -> (r: String)
    ensures
        r@ == first_line(s@),
{
    let n = s.unicode_len();
    let mut i: usize = 0;
    assert(s@.skip(0) =~= s@);
    while i < n && s.get_char(i) != '\n'
        invariant
            n == s@.len(),
            i <= n,
            first_newline(s@) == match first_newline(s@.skip(i as int)) {
                Some(k) => Some(k + i),
                None => None,
            },
        decreases n - i,
    {
        assert(s@.skip(i as int)[0] == s@[i as int]);
        assert(s@.skip(i as int).drop_first() =~= s@.skip(i + 1));
        i = i + 1;
    }
    if i == n {
        assert(s@.skip(n as int).len() == 0);
        return s.to_owned();
    }
    assert(s@.skip(i as int)[0] == s@[i as int]);
    let end = if i > 0 && s.get_char(i - 1) == '\r' { i - 1 } else { i };
    let line = s.substring_char(0, end);
    assert(line@ =~= s@.take(end as int));
    line.to_owned()
}

/// The header of a scan report.
pub open spec fn scan_header(r: ScanReport) -> Seq<char> {
    r.root@ + "  total "@ + spec_format_bytes(r.total_bytes as nat) + " in "@ + decimal(r.total_files as nat)
        + " files / "@ + decimal(r.total_dirs as nat) + " dirs"@
}

/// The line of one scan entry: size, kind, indentation by depth (at most
/// eight levels), path.
pub open spec fn entry_line(e: DirEntry) -> Seq<char> {
    let depth: nat = if e.depth <= 8 { e.depth as nat } else { 8 };
    pad_left(spec_format_bytes(e.bytes as nat), 10) + "  ["@ + (if e.is_dir { "d"@ } else { "f"@ }) + "]  "@
        + Seq::new(2 * depth, |i: int| ' ') + e.path@
}

/// The warnings block: a heading with the counts, then the first five
/// warnings; nothing when there are no warnings at all.
pub open spec fn warning_lines(ws: Seq<String>, suppressed: nat) -> Seq<Seq<char>> {
    if ws.len() == 0 && suppressed == 0 {
        Seq::empty()
    } else {
        let shown = if ws.len() > 5 { ws.take(5) } else { ws };
        seq!["\nWarnings ("@ + decimal(ws.len()) + " shown, "@ + decimal(suppressed) + " suppressed):"@]
            + shown.map_values(|w: String| "  ! "@ + w@)
    }
}

/// The human report of a scan, line by line.
pub open spec fn spec_scan_lines(r: ScanReport) -> Seq<Seq<char>> {
    seq![scan_header(r), Seq::new(64, |i: int| '-')] + r.entries@.map_values(|e: DirEntry| entry_line(e))
        + warning_lines(r.warnings@, r.warnings_suppressed as nat)
}

/// A text of `n` copies of `c`.
fn repeated(c: char, n: usize) -> (r: String)
    ensures
        r@ == Seq::new(n as nat, |i: int| c),
{
    let mut r = String::new();
    let mut i: usize = 0;
    while i < n
        invariant
            i <= n,
            r@ == Seq::new(i as nat, |j: int| c),
        decreases n - i,
    {
        push_char(&mut r, c);
        i = i + 1;
        assert(r@ =~= Seq::new(i as nat, |j: int| c));
    }
    r
}

/// The warnings block of a report.
fn warnings_block(ws: &Vec<String>, suppressed: usize) -> (r: Vec<String>)
    ensures
        r@.map_values(|s: String| s@) == warning_lines(ws@, suppressed as nat),
{
    let mut out: Vec<String> = Vec::new();
    if ws.len() == 0 && suppressed == 0 {
        assert(out@.map_values(|s: String| s@) =~= Seq::<Seq<char>>::empty());
        return out;
    }
    let mut head = "\nWarnings (".to_owned();
    write_decimal(&mut head, ws.len() as u128);
    head.append(" shown, ");
    write_decimal(&mut head, suppressed as u128);
    head.append(" suppressed):");
    out.push(head);
    let shown = if ws.len() > 5 { 5 } else { ws.len() };
    let ghost sh = if ws@.len() > 5 { ws@.take(5) } else { ws@ };
    let mut i: usize = 0;
    while i < shown
        invariant
            shown == sh.len(),
            sh.len() <= ws@.len(),
            forall|k: int| 0 <= k < sh.len() ==> sh[k] == ws@[k],
            i <= shown,
            out@.len() == i + 1,
            out@[0]@ == "\nWarnings ("@ + decimal(ws@.len()) + " shown, "@ + decimal(suppressed as nat) + " suppressed):"@,
            forall|k: int| 0 <= k < i ==> (#[trigger] out@[k + 1])@ == "  ! "@ + sh[k]@,
        decreases shown - i,
    {
        out.push(concat("  ! ", ws[i].as_str()));
        i = i + 1;
    }
    proof {
        let want = warning_lines(ws@, suppressed as nat);
        let got = out@.map_values(|s: String| s@);
        assert(got.len() == want.len());
        assert forall|k: int| 0 <= k < got.len() implies got[k] == want[k] by {
            if k > 0 {
                assert(out@[(k - 1) + 1]@ == "  ! "@ + sh[k - 1]@);
            }
        }
        assert(got =~= want);
    }
    out
}

/// The line of one scan entry.
fn scan_entry_line(e: &DirEntry) -> (r: String)
    ensures
        r@ == entry_line(*e),
{
    let size = format_bytes(e.bytes);
    let mut s = padded(size.as_str(), 10);
    s.append(if e.is_dir { "  [d]  " } else { "  [f]  " });
    let depth: usize = if e.depth <= 8 { e.depth } else { 8 };
    let indent = repeated(' ', 2 * depth);
    s.append(indent.as_str());
    s.append(e.path.as_str());
    proof {
        reveal_strlit("  [d]  ");
        reveal_strlit("  [f]  ");
        reveal_strlit("d");
        reveal_strlit("f");
        reveal_strlit("  [");
        reveal_strlit("]  ");
    }
    assert(s@ =~= entry_line(*e));
    s
}

/// The human report of a scan, line by line.
pub fn scan_lines(r: &ScanReport) -> (out: Vec<String>)
    ensures
        out@.map_values(|s: String| s@) == spec_scan_lines(*r),
{
    let mut head = r.root.clone();
    head.append("  total ");
    let size = format_bytes(r.total_bytes);
    head.append(size.as_str());
    head.append(" in ");
    write_decimal(&mut head, r.total_files as u128);
    head.append(" files / ");
    write_decimal(&mut head, r.total_dirs as u128);
    head.append(" dirs");
    let mut out: Vec<String> = Vec::new();
    out.push(head);
    out.push(repeated('-', 64));
    let mut i: usize = 0;
    while i < r.entries.len()
        invariant
            i <= r.entries@.len(),
            out@.len() == i + 2,
            out@[0]@ == scan_header(*r),
            out@[1]@ == Seq::new(64, |j: int| '-'),
            forall|k: int| 0 <= k < i ==> (#[trigger] out@[k + 2])@ == entry_line(r.entries@[k]),
        decreases r.entries@.len() - i,
    {
        out.push(scan_entry_line(&r.entries[i]));
        i = i + 1;
    }
    let ghost body = out@.map_values(|s: String| s@);
    proof {
        let want = seq![scan_header(*r), Seq::new(64, |j: int| '-')] + r.entries@.map_values(|e: DirEntry| entry_line(e));
        assert forall|k: int| 0 <= k < body.len() implies body[k] == want[k] by {
            if k >= 2 {
                assert(out@[(k - 2) + 2]@ == entry_line(r.entries@[k - 2]));
            }
        }
        assert(body =~= want);
    }
    let mut tail = warnings_block(&r.warnings, r.warnings_suppressed);
    out.append(&mut tail);
    assert(out@.map_values(|s: String| s@) =~= body + warning_lines(r.warnings@, r.warnings_suppressed as nat));
    out
}

/// Total bytes of findings.
pub open spec fn finding_bytes(fs: Seq<Finding>) -> nat
    decreases fs.len(),
{
    if fs.len() == 0 {
        0
    } else {
        finding_bytes(fs.drop_last()) + fs.last().bytes as nat
    }
}

/// Total bytes of findings, as the report's `total_bytes`.
pub fn findings_total(fs: &Vec<Finding>) -> (r: u64)
    requires
        finding_bytes(fs@) <= u64::MAX,
    ensures
        r == finding_bytes(fs@),
{
    let mut total: u64 = 0;
    let mut i: usize = 0;
    while i < fs.len()
        invariant
            i <= fs@.len(),
            finding_bytes(fs@) <= u64::MAX,
            total == finding_bytes(fs@.take(i as int)),
        decreases fs@.len() - i,
    {
        assert(fs@.take(i + 1int).drop_last() =~= fs@.take(i as int));
        proof {
            lemma_finding_bytes_prefix(fs@, i + 1);
        }
        total = total + fs[i].bytes;
        i = i + 1;
    }
    assert(fs@.take(fs@.len() as int) =~= fs@);
    total
}

/// A prefix holds no more bytes than the whole.
proof fn lemma_finding_bytes_prefix(fs: Seq<Finding>, i: int)
    requires
        0 <= i <= fs.len(),
    ensures
        finding_bytes(fs.take(i)) <= finding_bytes(fs),
    decreases fs.len() - i,
{
    if i < fs.len() {
        lemma_finding_bytes_prefix(fs, i + 1);
        assert(fs.take(i + 1).drop_last() =~= fs.take(i));
    } else {
        assert(fs.take(i) =~= fs);
    }
}

/// The indentation of a finding's detail lines.
pub open spec fn detail_indent() -> Seq<char> {
    "             "@
}

/// The lines of one finding: size, tag and label; the path when it is
/// removed; the first line of the detail and the detector id.
pub open spec fn finding_block(f: Finding) -> Seq<Seq<char>> {
    seq![pad_left(spec_format_bytes(f.bytes as nat), 10) + "  ["@ + spec_safety_tag(f.safety) + "]  "@ + f.label@]
        + match f.action {
        CleanAction::RemovePath { path } => seq![detail_indent() + path@],
        _ => Seq::empty(),
    } + seq![detail_indent() + first_line(f.detail@) + " ("@ + f.detector_id@ + ")"@]
}

/// The lines of a list of findings.
pub open spec fn finding_blocks(fs: Seq<Finding>) -> Seq<Seq<char>>
    decreases fs.len(),
{
    if fs.len() == 0 {
        Seq::empty()
    } else {
        finding_blocks(fs.drop_last()) + finding_block(fs.last())
    }
}

/// The human report of findings, line by line.
pub open spec fn spec_findings_lines(fs: Seq<Finding>) -> Seq<Seq<char>> {
    if fs.len() == 0 {
        seq!["Nothing cleanable found. Your disk is already lean."@]
    } else {
        seq!["Reclaimable: "@ + spec_format_bytes(finding_bytes(fs)) + " across "@ + decimal(fs.len()) + " items\n"@]
            + finding_blocks(fs) + seq!["\nRun `sweep clean` for a dry-run plan, `sweep clean --execute` to act."@]
    }
}

/// The lines of one finding.
fn finding_block_lines(f: &Finding) -> (r: Vec<String>)
    ensures
        r@.map_values(|s: String| s@) == finding_block(*f),
{
    let size = format_bytes(f.bytes);
    let mut head = padded(size.as_str(), 10);
    head.append("  [");
    head.append(safety_tag(f.safety));
    head.append("]  ");
    head.append(f.label.as_str());
    let mut out: Vec<String> = Vec::new();
    out.push(head);
    match &f.action {
        CleanAction::RemovePath { path } => {
            out.push(concat("             ", path.as_str()));
        },
        _ => {},
    }
    let first = first_line_of(f.detail.as_str());
    let mut last = concat("             ", first.as_str());
    last.append(" (");
    last.append(f.detector_id.as_str());
    last.append(")");
    out.push(last);
    assert(out@.map_values(|s: String| s@) =~= finding_block(*f));
    out
}

/// The human report of findings, line by line.
pub fn findings_lines(fs: &Vec<Finding>) -> (r: Vec<String>)
    requires
        finding_bytes(fs@) <= u64::MAX,
    ensures
        r@.map_values(|s: String| s@) == spec_findings_lines(fs@),
{
    let mut out: Vec<String> = Vec::new();
    if fs.len() == 0 {
        out.push("Nothing cleanable found. Your disk is already lean.".to_owned());
        assert(out@.map_values(|s: String| s@) =~= spec_findings_lines(fs@));
        return out;
    }
    let total = findings_total(fs);
    let size = format_bytes(total);
    let mut head = concat("Reclaimable: ", size.as_str());
    head.append(" across ");
    write_decimal(&mut head, fs.len() as u128);
    head.append(" items\n");
    out.push(head);
    let ghost first = out@.map_values(|s: String| s@);
    let mut i: usize = 0;
    while i < fs.len()
        invariant
            i <= fs@.len(),
            out@.map_values(|s: String| s@) == first + finding_blocks(fs@.take(i as int)),
        decreases fs@.len() - i,
    {
        let ghost before = out@.map_values(|s: String| s@);
        let mut block = finding_block_lines(&fs[i]);
        let ghost b = block@.map_values(|s: String| s@);
        out.append(&mut block);
        assert(fs@.take(i + 1int).drop_last() =~= fs@.take(i as int));
        assert(fs@.take(i + 1int).last() == fs@[i as int]);
        assert(out@.map_values(|s: String| s@) =~= before + b);
        assert(first + finding_blocks(fs@.take(i + 1int)) =~= (first + finding_blocks(fs@.take(i as int))) + b);
        i = i + 1;
    }
    assert(fs@.take(fs@.len() as int) =~= fs@);
    let ghost mid = out@.map_values(|s: String| s@);
    assert(mid == first + finding_blocks(fs@));
    assert(first =~= seq!["Reclaimable: "@ + spec_format_bytes(finding_bytes(fs@)) + " across "@ + decimal(fs@.len()) + " items\n"@]);
    out.push("\nRun `sweep clean` for a dry-run plan, `sweep clean --execute` to act.".to_owned());
    assert(out@.map_values(|s: String| s@) =~= mid.push("\nRun `sweep clean` for a dry-run plan, `sweep clean --execute` to act."@));
    assert(out@.map_values(|s: String| s@) =~= spec_findings_lines(fs@));
    out
}

/// The dry-run banner.
pub open spec fn dry_run_banner(to_trash: bool) -> Seq<char> {
    "DRY RUN — nothing deleted. Re-run with --execute to act (default destination: "@
        + (if to_trash { "Recycle Bin"@ } else { "permanent!"@ }) + ").\n"@
}

/// The line of one removal.
pub open spec fn removed_line(x: RemovedItem) -> Seq<char> {
    "  "@ + pad_left(spec_format_bytes(x.bytes as nat), 10) + "  ["@ + x.via@ + "]  ["@ + spec_safety_tag(x.safety) + "]  "@
        + x.path@
}

/// The line of one skipped item.
pub open spec fn skipped_line(x: SkippedItem) -> Seq<char> {
    "  - ["@ + spec_safety_tag(x.safety) + "] "@ + x.label@ + ": "@ + first_line(x.reason@)
}

/// The human receipt, line by line: the dry-run banner, the removals
/// with their total, the skipped items, the errors, or `Nothing to do.`
pub open spec fn spec_receipt_lines(r: CleanReceipt, opts: CleanOptions) -> Seq<Seq<char>> {
    (if r.dry_run { seq![dry_run_banner(opts.to_trash)] } else { Seq::empty() })
    + removed_block(r) + skipped_block(r) + errors_block(r)
    + (if r.removed@.len() == 0 && r.skipped@.len() == 0 && r.errors@.len() == 0 {
        seq!["Nothing to do."@]
    } else {
        Seq::empty()
    })
}

/// The line of one removal.
fn removed_text(x: &RemovedItem) -> (r: String)
    ensures
        r@ == removed_line(*x),
{
    let size = format_bytes(x.bytes);
    let p = padded(size.as_str(), 10);
    let mut s = concat("  ", p.as_str());
    s.append("  [");
    s.append(x.via.as_str());
    s.append("]  [");
    s.append(safety_tag(x.safety));
    s.append("]  ");
    s.append(x.path.as_str());
    s
}

/// The line of one skipped item.
fn skipped_text(x: &SkippedItem) -> (r: String)
    ensures
        r@ == skipped_line(*x),
{
    let mut s = concat("  - [", safety_tag(x.safety));
    s.append("] ");
    s.append(x.label.as_str());
    s.append(": ");
    let first = first_line_of(x.reason.as_str());
    s.append(first.as_str());
    s
}

/// The removals block of a receipt.
pub open spec fn removed_block(r: CleanReceipt) -> Seq<Seq<char>> {
    if r.removed@.len() > 0 {
        seq![(if r.dry_run { "Would free"@ } else { "Freed"@ }) + " "@ + spec_format_bytes(r.freed_bytes as nat) + " ("@
            + decimal(r.removed@.len()) + "):"@] + r.removed@.map_values(|x: RemovedItem| removed_line(x))
    } else {
        Seq::empty()
    }
}

/// The skipped block of a receipt.
pub open spec fn skipped_block(r: CleanReceipt) -> Seq<Seq<char>> {
    if r.skipped@.len() > 0 {
        seq!["\nSkipped:"@] + r.skipped@.map_values(|x: SkippedItem| skipped_line(x))
    } else {
        Seq::empty()
    }
}

/// The errors block of a receipt.
pub open spec fn errors_block(r: CleanReceipt) -> Seq<Seq<char>> {
    if r.errors@.len() > 0 {
        seq!["\nErrors:"@] + r.errors@.map_values(|e: String| "  ! "@ + e@)
    } else {
        Seq::empty()
    }
}

/// The removals block of a receipt.
fn removed_lines(r: &CleanReceipt) -> (out: Vec<String>)
    ensures
        out@.map_values(|s: String| s@) == removed_block(*r),
{
    let mut out: Vec<String> = Vec::new();
    if r.removed.len() == 0 {
        assert(out@.map_values(|s: String| s@) =~= removed_block(*r));
        return out;
    }
    let size = format_bytes(r.freed_bytes);
    let mut head = concat3(if r.dry_run { "Would free" } else { "Freed" }, " ", size.as_str());
    head.append(" (");
    write_decimal(&mut head, r.removed.len() as u128);
    head.append("):");
    out.push(head);
    let ghost h = out@[0]@;
    let mut i: usize = 0;
    while i < r.removed.len()
        invariant
            i <= r.removed@.len(),
            out@.len() == 1 + i,
            out@[0]@ == h,
            forall|k: int| 0 <= k < i ==> (#[trigger] out@[1 + k])@ == removed_line(r.removed@[k]),
        decreases r.removed@.len() - i,
    {
        out.push(removed_text(&r.removed[i]));
        i = i + 1;
    }
    proof {
        let got = out@.map_values(|s: String| s@);
        let want = removed_block(*r);
        assert forall|k: int| 0 <= k < got.len() implies got[k] == want[k] by {
            if k >= 1 {
                assert(out@[1 + (k - 1)]@ == removed_line(r.removed@[k - 1]));
            }
        }
        assert(got =~= want);
    }
    out
}

/// The skipped block of a receipt.
fn skipped_lines(r: &CleanReceipt) -> (out: Vec<String>)
    ensures
        out@.map_values(|s: String| s@) == skipped_block(*r),
{
    let mut out: Vec<String> = Vec::new();
    if r.skipped.len() == 0 {
        assert(out@.map_values(|s: String| s@) =~= skipped_block(*r));
        return out;
    }
    out.push("\nSkipped:".to_owned());
    let mut i: usize = 0;
    while i < r.skipped.len()
        invariant
            i <= r.skipped@.len(),
            out@.len() == 1 + i,
            out@[0]@ == "\nSkipped:"@,
            forall|k: int| 0 <= k < i ==> (#[trigger] out@[1 + k])@ == skipped_line(r.skipped@[k]),
        decreases r.skipped@.len() - i,
    {
        out.push(skipped_text(&r.skipped[i]));
        i = i + 1;
    }
    proof {
        let got = out@.map_values(|s: String| s@);
        let want = skipped_block(*r);
        assert forall|k: int| 0 <= k < got.len() implies got[k] == want[k] by {
            if k >= 1 {
                assert(out@[1 + (k - 1)]@ == skipped_line(r.skipped@[k - 1]));
            }
        }
        assert(got =~= want);
    }
    out
}

/// The errors block of a receipt.
fn error_lines(r: &CleanReceipt) -> (out: Vec<String>)
    ensures
        out@.map_values(|s: String| s@) == errors_block(*r),
{
    let mut out: Vec<String> = Vec::new();
    if r.errors.len() == 0 {
        assert(out@.map_values(|s: String| s@) =~= errors_block(*r));
        return out;
    }
    out.push("\nErrors:".to_owned());
    let mut i: usize = 0;
    while i < r.errors.len()
        invariant
            i <= r.errors@.len(),
            out@.len() == 1 + i,
            out@[0]@ == "\nErrors:"@,
            forall|k: int| 0 <= k < i ==> (#[trigger] out@[1 + k])@ == "  ! "@ + r.errors@[k]@,
        decreases r.errors@.len() - i,
    {
        out.push(concat("  ! ", r.errors[i].as_str()));
        i = i + 1;
    }
    proof {
        let got = out@.map_values(|s: String| s@);
        let want = errors_block(*r);
        assert forall|k: int| 0 <= k < got.len() implies got[k] == want[k] by {
            if k >= 1 {
                assert(out@[1 + (k - 1)]@ == "  ! "@ + r.errors@[k - 1]@);
            }
        }
        assert(got =~= want);
    }
    out
}

/// The human receipt of a run, line by line.
pub fn receipt_lines(r: &CleanReceipt, opts: &CleanOptions) -> (out: Vec<String>)
    ensures
        out@.map_values(|s: String| s@) == spec_receipt_lines(*r, *opts),
{
    let mut out: Vec<String> = Vec::new();
    if r.dry_run {
        let dest = if opts.to_trash { "Recycle Bin" } else { "permanent!" };
        out.push(concat3(
            "DRY RUN — nothing deleted. Re-run with --execute to act (default destination: ",
            dest,
            ").\n",
        ));
    }
    let ghost a = out@.map_values(|s: String| s@);
    let mut removed = removed_lines(r);
    let ghost b = removed@.map_values(|s: String| s@);
    out.append(&mut removed);
    let mut skipped = skipped_lines(r);
    let ghost c = skipped@.map_values(|s: String| s@);
    out.append(&mut skipped);
    let mut errors = error_lines(r);
    let ghost d = errors@.map_values(|s: String| s@);
    out.append(&mut errors);
    assert(out@.map_values(|s: String| s@) =~= a + b + c + d);
    let ghost e = out@.map_values(|s: String| s@);
    if r.removed.len() == 0 && r.skipped.len() == 0 && r.errors.len() == 0 {
        out.push("Nothing to do.".to_owned());
        assert(out@.map_values(|s: String| s@) =~= e.push("Nothing to do."@));
    }
    assert(out@.map_values(|s: String| s@) =~= spec_receipt_lines(*r, *opts));
    out
}

} // verus!
